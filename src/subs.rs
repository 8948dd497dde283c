//! The registry of subscribed chats and the paths of the two data files.
use vstd::prelude::*;
use crate::seqset::{
    filter_by, insert, insert_all, without, lemma_contains_drop_last, lemma_filter_by_all,
    lemma_filter_by_no_duplicates, lemma_insert_no_duplicates,
};

verus! {

/// Name of the file that holds the subscribed chat ids.
pub const SUB_FILE: &'static str = "subs.json";

/// Name of the file that holds the known events.
pub const EVENTS_FILE: &'static str = "events.json";

/// The path of a data file inside a data directory.
pub fn file_path(dir: &str, name: &str) -> (r: String)
    ensures
        r@ == dir@ + "/"@ + name@,
{
    let mut r = String::from_str(dir);
    r.append("/");
    r.append(name);
    r
}

/// The path of the subscriber file inside a data directory.
pub fn sub_file(dir: &str) -> (r: String)
    ensures
        r@ == dir@ + "/"@ + SUB_FILE@,
{
    file_path(dir, SUB_FILE)
}

/// The path of the event file inside a data directory.
pub fn events_file(dir: &str) -> (r: String)
    ensures
        r@ == dir@ + "/"@ + EVENTS_FILE@,
{
    file_path(dir, EVENTS_FILE)
}

/// The subscribed chat ids, in order of subscription, each once.
pub struct Registry {
    ids: Vec<i64>,
}

impl View for Registry {
    type V = Seq<i64>;

    closed spec fn view(&self) -> Seq<i64> {
        self.ids@
    }
}

fn holds_id(v: &Vec<i64>, id: i64) -> (r: bool)
    ensures
        r == v@.contains(id),
{
    let mut i: usize = 0;
    while i < v.len()
        invariant
            i <= v.len(),
            forall|j: int| 0 <= j < i ==> v@[j] != id,
        decreases v.len() - i,
    {
        if v[i] == id {
            return true;
        }
        i += 1;
    }
    false
}

impl Registry {
    /// Whether the registry is free of duplicates, as it always is.
    pub open spec fn wf(&self) -> bool {
        self@.no_duplicates()
    }

    pub fn new() -> (r: Registry)
        ensures
            r@ == Seq::<i64>::empty(),
            r.wf(),
    {
        Registry { ids: Vec::new() }
    }

    /// A registry holding the given ids, each once, in order of first
    /// occurrence.
    pub fn from_ids(ids: Vec<i64>) -> (r: Registry)
        ensures
            r@ == insert_all(Seq::<i64>::empty(), ids@),
            r.wf(),
    {
        let mut r = Registry::new();
        let mut i: usize = 0;
        while i < ids.len()
            invariant
                i <= ids.len(),
                r.wf(),
                r@ == insert_all(Seq::<i64>::empty(), ids@.take(i as int)),
            decreases ids.len() - i,
        {
            proof {
                assert(ids@.take(i as int + 1).drop_last() == ids@.take(i as int));
            }
            r.add_sub(ids[i]);
            i += 1;
        }
        assert(ids@.take(ids.len() as int) == ids@);
        r
    }

    /// Subscribes a chat unless it already is; tells whether the set changed.
    pub fn add_sub(&mut self, chat_id: i64) -> (changed: bool)
        requires
            old(self).wf(),
        ensures
            final(self)@ == insert(old(self)@, chat_id),
            changed == !old(self)@.contains(chat_id),
            final(self).wf(),
    {
        proof {
            lemma_insert_no_duplicates(self@, chat_id);
        }
        if holds_id(&self.ids, chat_id) {
            false
        } else {
            self.ids.push(chat_id);
            true
        }
    }

    /// Unsubscribes a chat if it is subscribed; tells whether the set changed.
    pub fn remove_sub(&mut self, chat_id: i64) -> (changed: bool)
        requires
            old(self).wf(),
        ensures
            final(self)@ == without(old(self)@, seq![chat_id]),
            changed == old(self)@.contains(chat_id),
            final(self).wf(),
    {
        let ghost s = self@;
        let mut out: Vec<i64> = Vec::new();
        let mut i: usize = 0;
        let mut found = false;
        while i < self.ids.len()
            invariant
                i <= self.ids.len(),
                self@ == s,
                out@ == filter_by(s.take(i as int), seq![chat_id], false),
                found == s.take(i as int).contains(chat_id),
            decreases self.ids.len() - i,
        {
            let x = self.ids[i];
            proof {
                let t = s.take(i as int + 1);
                assert(t.drop_last() == s.take(i as int));
                assert(t.last() == x);
                assert(seq![chat_id].contains(x) <==> x == chat_id) by {
                    if x == chat_id {
                        assert(seq![chat_id][0] == x);
                    }
                }
                lemma_contains_drop_last(t, chat_id);
            }
            if x != chat_id {
                out.push(x);
            } else {
                found = true;
            }
            i += 1;
        }
        proof {
            assert(s.take(s.len() as int) == s);
            lemma_filter_by_no_duplicates(s, seq![chat_id], false);
        }
        self.ids = out;
        found
    }

    pub fn is_subscribed(&self, chat_id: i64) -> (r: bool)
        ensures
            r == self@.contains(chat_id),
    {
        holds_id(&self.ids, chat_id)
    }

    /// A point-in-time copy of the subscribed ids.
    pub fn snapshot(&self) -> (r: Vec<i64>)
        ensures
            r@ == self@,
    {
        self.ids.clone()
    }
}

/// Subscribing a chat that is already subscribed leaves the registry as it
/// was, and unsubscribing a chat that is not subscribed does too.
pub proof fn lemma_subscription_idempotent(ids: Seq<i64>, chat_id: i64)
    ensures
        ids.contains(chat_id) ==> insert(ids, chat_id) == ids,
        !ids.contains(chat_id) ==> without(ids, seq![chat_id]) == ids,
{
    if !ids.contains(chat_id) {
        assert forall|x: i64| ids.contains(x) implies seq![chat_id].contains(x) == false by {
            if seq![chat_id].contains(x) {
                let j = choose|j: int| 0 <= j < 1 && seq![chat_id][j] == x;
                assert(x == chat_id);
            }
        }
        lemma_filter_by_all(ids, seq![chat_id], false);
    }
}

} // verus!
