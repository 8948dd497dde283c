//! The bot's reply texts and the rendering of the event list.
use vstd::prelude::*;
use crate::events::{Event, EventView, html_of, views};
use crate::subs::Registry;

verus! {

pub const WELCOME_MSG: &'static str = "👋 Welcome to UniCa Sport Bot!\n\nUse /subscribe to receive notifications about new UniCa's sport events.Need help? Type /help to see all available commands.";

pub const SUB_MSG: &'static str = "You've been subscribed to UniCa Sport event notifications.";

pub const UNSUB_MSG: &'static str = "You've been unsubscribed from notifications.";

pub const IAMSUB_MSG: &'static str = "You are currently subscribed.";

pub const IAMNOTSUB_MSG: &'static str = "You are not subscribed.";

pub const NOEVENTS: &'static str = "No known events yet.";

/// One bullet line per event, separated by newlines.
pub open spec fn event_lines(es: Seq<EventView>) -> Seq<char>
    decreases es.len(),
{
    if es.len() == 0 {
        Seq::empty()
    } else if es.len() == 1 {
        "• "@ + html_of(es[0])
    } else {
        event_lines(es.drop_last()) + "\n"@ + "• "@ + html_of(es.last())
    }
}

/// The listing of the known events under a heading.
pub open spec fn events_msg(es: Seq<EventView>) -> Seq<char> {
    "Current events:\n"@ + event_lines(es)
}

/// Renders the events as a bulleted list under a heading.
pub fn format_events_msg(events: &Vec<Event>) -> (r: String)
    ensures
        r@ == events_msg(views(events@)),
{
    let mut lines = String::new();
    let mut i: usize = 0;
    while i < events.len()
        invariant
            i <= events.len(),
            lines@ == event_lines(views(events@).take(i as int)),
        decreases events.len() - i,
    {
        proof {
            let t = views(events@).take(i as int + 1);
            assert(t.drop_last() == views(events@).take(i as int));
            assert(t.last() == events@[i as int]@);
            if i == 0 {
                assert(t[0] == events@[0]@);
            }
        }
        if i > 0 {
            lines.append("\n");
        }
        lines.append("• ");
        let h = events[i].to_html();
        lines.append(h.as_str());
        proof {
            if i == 0 {
                assert(lines@ =~= "• "@ + html_of(events@[0]@));
            }
        }
        i += 1;
    }
    assert(views(events@).take(events.len() as int) == views(events@));
    let mut r = String::from_str("Current events:\n");
    r.append(lines.as_str());
    r
}

/// The reply to a request for the event list: a notice when there is none.
pub fn events_reply(events: &Vec<Event>) -> (r: String)
    ensures
        events@.len() == 0 ==> r@ == NOEVENTS@,
        events@.len() > 0 ==> r@ == events_msg(views(events@)),
{
    if events.len() == 0 {
        String::from_str(NOEVENTS)
    } else {
        format_events_msg(events)
    }
}

/// The reply telling a chat whether it is subscribed.
pub fn amisub_reply(subs: &Registry, chat_id: i64) -> (r: String)
    ensures
        r@ == if subs@.contains(chat_id) {
            IAMSUB_MSG@
        } else {
            IAMNOTSUB_MSG@
        },
{
    if subs.is_subscribed(chat_id) {
        String::from_str(IAMSUB_MSG)
    } else {
        String::from_str(IAMNOTSUB_MSG)
    }
}

} // verus!
