//! The logic of a bot that watches a sports events page: it parses the page
//! into event records, reconciles them with the catalog of known events, and
//! lists the announcements owed to each subscribed chat.
use vstd::prelude::*;

pub mod cycle;
pub mod events;
pub mod parse;
pub mod replies;
pub mod seqset;
pub mod subs;
pub mod text;

verus! {

} // verus!
