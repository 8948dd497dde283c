//! One reconciliation cycle: the notifications owed for new events, the laws
//! that relate a cycle's result to the page, and the timing of the loop.
use vstd::prelude::*;
use crate::events::{Catalog, Event, EventView, html_of, views};
use crate::seqset::{
    insert, insert_all, within, without, lemma_filter_by_contains, lemma_filter_by_no_duplicates,
    lemma_filter_by_none, lemma_insert_all_contains, lemma_insert_all_no_duplicates,
    lemma_insert_contains, lemma_insert_no_duplicates,
};
use crate::subs::Registry;

verus! {

/// One message to deliver: the chat it goes to and its text.
#[derive(Clone, Debug)]
pub struct Notification {
    pub chat_id: i64,
    pub text: String,
}

impl View for Notification {
    type V = (i64, Seq<char>);

    open spec fn view(&self) -> (i64, Seq<char>) {
        (self.chat_id, self.text@)
    }
}

/// The text announcing a new event.
pub open spec fn notice_of(e: EventView) -> Seq<char> {
    "New event: "@ + html_of(e)
}

/// One notice for `e` to each chat of `ids`, in order.
pub open spec fn notices_for(e: EventView, ids: Seq<i64>) -> Seq<(i64, Seq<char>)> {
    ids.map_values(|id: i64| (id, notice_of(e)))
}

/// For each event in order, one notice to each chat.
pub open spec fn fan_out(es: Seq<EventView>, ids: Seq<i64>) -> Seq<(i64, Seq<char>)>
    decreases es.len(),
{
    if es.len() == 0 {
        Seq::empty()
    } else {
        fan_out(es.drop_last(), ids) + notices_for(es.last(), ids)
    }
}

/// Renders the announcement of a new event.
pub fn notice_text(e: &Event) -> (r: String)
    ensures
        r@ == notice_of(e@),
{
    let mut r = String::from_str("New event: ");
    let h = e.to_html();
    r.append(h.as_str());
    r
}

/// Records each new event in the catalog and lists, for each in turn, one
/// notification to every subscriber.
pub fn send_notifications(catalog: &mut Catalog, subs: &Registry, new_events: Vec<Event>) -> (r:
    Vec<Notification>)
    requires
        old(catalog).wf(),
    ensures
        final(catalog)@ == insert_all(old(catalog)@, views(new_events@)),
        final(catalog).wf(),
        r@.map_values(|n: Notification| n@) == fan_out(views(new_events@), subs@),
{
    let ids = subs.snapshot();
    let mut out: Vec<Notification> = Vec::new();
    let mut i: usize = 0;
    while i < new_events.len()
        invariant
            i <= new_events.len(),
            ids@ == subs@,
            catalog.wf(),
            catalog@ == insert_all(old(catalog)@, views(new_events@).take(i as int)),
            out@.map_values(|n: Notification| n@) == fan_out(views(new_events@).take(i as int), ids@),
        decreases new_events.len() - i,
    {
        let ghost es = views(new_events@);
        proof {
            assert(es.take(i as int + 1).drop_last() == es.take(i as int));
            assert(es.take(i as int + 1).last() == new_events@[i as int]@);
        }
        let event = new_events[i].copy();
        let text = notice_text(&event);
        catalog.add_event(event);
        let ghost base = out@.map_values(|n: Notification| n@);
        assert(notices_for(new_events@[i as int]@, ids@.take(0)) =~= Seq::empty());
        assert(base + notices_for(new_events@[i as int]@, ids@.take(0)) =~= base);
        let mut j: usize = 0;
        while j < ids.len()
            invariant
                i < new_events.len(),
                j <= ids.len(),
                ids@ == subs@,
                catalog.wf(),
                catalog@ == insert_all(old(catalog)@, views(new_events@).take(i as int + 1)),
                base == fan_out(views(new_events@).take(i as int), ids@),
                text@ == notice_of(new_events@[i as int]@),
                out@.map_values(|n: Notification| n@) == base + notices_for(
                    new_events@[i as int]@,
                    ids@.take(j as int),
                ),
            decreases ids.len() - j,
        {
            let ghost prev = out@;
            let n = Notification { chat_id: ids[j], text: text.clone() };
            out.push(n);
            proof {
                let e = new_events@[i as int]@;
                assert(out@ == prev.push(n));
                assert(out@.map_values(|n: Notification| n@) =~= prev.map_values(
                    |n: Notification| n@,
                ).push(n@));
                assert(notices_for(e, ids@.take(j as int + 1)) =~= notices_for(
                    e,
                    ids@.take(j as int),
                ).push((ids@[j as int], notice_of(e))));
                assert(out@.map_values(|n: Notification| n@) =~= base + notices_for(
                    e,
                    ids@.take(j as int + 1),
                ));
            }
            j += 1;
        }
        assert(ids@.take(ids.len() as int) == ids@);
        i += 1;
    }
    assert(views(new_events@).take(new_events.len() as int) == views(new_events@));
    out
}

/// Where the polling loop stands: before the short wait that precedes a
/// fetch, or before the long wait that follows one.
#[derive(Clone, Copy, Debug, PartialEq, Eq)]
pub enum Phase {
    WaitingShort,
    WaitingLong,
}

/// What the loop does from a phase: sleep, then fetch and reconcile or not,
/// then move to the next phase.
#[derive(Clone, Copy, Debug, PartialEq, Eq)]
pub struct Step {
    pub sleep_secs: u64,
    pub fetch_after: bool,
    pub next: Phase,
}

/// Seconds of the short wait before each fetch.
pub const SHORT_WAIT_SECS: u64 = 5;

/// Seconds of the long wait between cycles.
pub const LONG_WAIT_SECS: u64 = 600;

/// Seconds of the long wait in debug mode.
pub const DEBUG_LONG_WAIT_SECS: u64 = 10;

/// The loop's step from a phase; debug mode shortens the long wait.
pub fn step(phase: Phase, debug: bool) -> (r: Step)
    ensures
        phase == Phase::WaitingShort ==> r == (Step {
            sleep_secs: SHORT_WAIT_SECS,
            fetch_after: true,
            next: Phase::WaitingLong,
        }),
        phase == Phase::WaitingLong ==> r == (Step {
            sleep_secs: if debug {
                DEBUG_LONG_WAIT_SECS
            } else {
                LONG_WAIT_SECS
            },
            fetch_after: false,
            next: Phase::WaitingShort,
        }),
{
    match phase {
        Phase::WaitingShort => Step {
            sleep_secs: SHORT_WAIT_SECS,
            fetch_after: true,
            next: Phase::WaitingLong,
        },
        Phase::WaitingLong => Step {
            sleep_secs: if debug {
                DEBUG_LONG_WAIT_SECS
            } else {
                LONG_WAIT_SECS
            },
            fetch_after: false,
            next: Phase::WaitingShort,
        },
    }
}

/// Adding an event a second time leaves the catalog as one addition left
/// it, with exactly one copy of the event and no duplicates.
pub proof fn lemma_add_event_idempotent(c: Seq<EventView>, e: EventView)
    requires
        c.no_duplicates(),
    ensures
        insert(insert(c, e), e) == insert(c, e),
        insert(c, e).contains(e),
        insert(c, e).no_duplicates(),
{
    lemma_insert_contains(c, e, e);
    lemma_insert_no_duplicates(c, e);
}

/// The events a cycle announces: those of the snapshot that the catalog,
/// once cleaned, does not hold, each once, in order of first appearance.
pub open spec fn novelty(c: Seq<EventView>, s: Seq<EventView>) -> Seq<EventView> {
    insert_all(Seq::<EventView>::empty(), without(s, within(c, s)))
}

/// After a cycle on a snapshot, that is after dropping the events the
/// snapshot lacks and adding the new ones, the catalog holds exactly the
/// snapshot's events, each once.
pub proof fn lemma_cycle_matches_snapshot(c: Seq<EventView>, s: Seq<EventView>)
    requires
        c.no_duplicates(),
    ensures
        ({
            let after = insert_all(within(c, s), novelty(c, s));
            &&& forall|x: EventView| after.contains(x) <==> s.contains(x)
            &&& after.no_duplicates()
        }),
{
    let kept = within(c, s);
    let novel = novelty(c, s);
    let after = insert_all(kept, novel);
    assert forall|x: EventView| after.contains(x) <==> s.contains(x) by {
        lemma_insert_all_contains(kept, novel, x);
        lemma_insert_all_contains(Seq::<EventView>::empty(), without(s, kept), x);
        lemma_filter_by_contains(c, s, true, x);
        lemma_filter_by_contains(s, kept, false, x);
    }
    lemma_filter_by_no_duplicates(c, s, true);
    lemma_insert_all_no_duplicates(kept, novel);
}

/// The events announced by a cycle are exactly those of the snapshot that
/// the catalog did not hold before it, each announced once; a second cycle
/// on the same snapshot announces nothing.
pub proof fn lemma_notified_exactly_new(c: Seq<EventView>, s: Seq<EventView>)
    requires
        c.no_duplicates(),
    ensures
        ({
            let novel = novelty(c, s);
            let after = insert_all(within(c, s), novel);
            &&& forall|x: EventView| novel.contains(x) <==> (s.contains(x) && !c.contains(x))
            &&& novel.no_duplicates()
            &&& novelty(after, s).len() == 0
        }),
{
    let kept = within(c, s);
    let novel = novelty(c, s);
    let after = insert_all(kept, novel);
    assert forall|x: EventView| novel.contains(x) <==> (s.contains(x) && !c.contains(x)) by {
        lemma_insert_all_contains(Seq::<EventView>::empty(), without(s, kept), x);
        lemma_filter_by_contains(c, s, true, x);
        lemma_filter_by_contains(s, kept, false, x);
    }
    lemma_insert_all_no_duplicates(Seq::<EventView>::empty(), without(s, kept));
    lemma_cycle_matches_snapshot(c, s);
    let kept2 = within(after, s);
    assert forall|x: EventView| s.contains(x) implies kept2.contains(x) != false by {
        lemma_filter_by_contains(after, s, true, x);
    }
    lemma_filter_by_none(s, kept2, false);
    let n2 = novelty(after, s);
    if n2.len() > 0 {
        lemma_insert_all_contains(Seq::<EventView>::empty(), without(s, kept2), n2[0]);
        assert(n2.contains(n2[0]));
        assert(without(s, kept2).contains(n2[0]));
    }
}

} // verus!
