//! Event records and the catalog of currently known events.
use vstd::prelude::*;
use crate::seqset::{
    filter_by, insert, insert_all, within, without, lemma_filter_by_congruent,
    lemma_filter_by_contains, lemma_filter_by_no_duplicates, lemma_insert_all_contains,
    lemma_insert_all_no_duplicates, lemma_insert_no_duplicates,
};

verus! {

/// What an event record is, as three character sequences.
pub struct EventView {
    pub title: Seq<char>,
    pub date: Seq<char>,
    pub link: Seq<char>,
}

/// One event found on the page. Two events are the same exactly when all
/// three fields are equal.
#[derive(Clone, Debug)]
pub struct Event {
    pub title: String,
    pub date: String,
    pub link: String,
}

impl View for Event {
    type V = EventView;

    open spec fn view(&self) -> EventView {
        EventView { title: self.title@, date: self.date@, link: self.link@ }
    }
}

impl PartialEq for Event {
    fn eq(&self, o: &Event) -> (r: bool) {
        self.title == o.title && self.date == o.date && self.link == o.link
    }
}

impl vstd::std_specs::cmp::PartialEqSpecImpl for Event {
    open spec fn obeys_eq_spec() -> bool {
        true
    }

    open spec fn eq_spec(&self, o: &Event) -> bool {
        self@ == o@
    }
}

/// The views of a sequence of events.
pub open spec fn views(v: Seq<Event>) -> Seq<EventView> {
    v.map_values(|e: Event| e@)
}

/// The hyperlink-style rendering of an event: `<a href='LINK'>TITLE</a> (DATE)`.
pub open spec fn html_of(e: EventView) -> Seq<char> {
    "<a href='"@ + e.link + "'>"@ + e.title + "</a> ("@ + e.date + ")"@
}

impl Event {
    pub fn new(title: String, date: String, link: String) -> (r: Event)
        ensures
            r.title@ == title@,
            r.date@ == date@,
            r.link@ == link@,
    {
        Event { title, date, link }
    }

    /// A copy of the event with equal fields.
    pub fn copy(&self) -> (r: Event)
        ensures
            r@ == self@,
    {
        Event { title: self.title.clone(), date: self.date.clone(), link: self.link.clone() }
    }

    /// Renders the event as a hyperlink followed by its date in parentheses.
    pub fn to_html(&self) -> (r: String)
        ensures
            r@ == html_of(self@),
    {
        let mut s = String::new();
        s.append("<a href='");
        s.append(self.link.as_str());
        s.append("'>");
        s.append(self.title.as_str());
        s.append("</a> (");
        s.append(self.date.as_str());
        s.append(")");
        s
    }
}

/// The outcome of a reconciliation that found no event the catalog lacked.
#[derive(Clone, Copy, Debug, PartialEq, Eq)]
pub enum CycleError {
    NothingNew,
}

impl CycleError {
    pub fn message(&self) -> (r: String)
        ensures
            r@ == "Nothing new"@,
    {
        String::from_str("Nothing new")
    }
}

/// The set of known events, in the order they were first seen, without
/// duplicates.
pub struct Catalog {
    events: Vec<Event>,
}

impl View for Catalog {
    type V = Seq<EventView>;

    closed spec fn view(&self) -> Seq<EventView> {
        views(self.events@)
    }
}

/// Whether `v` holds an event equal to `e`.
fn holds(v: &Vec<Event>, e: &Event) -> (r: bool)
    ensures
        r == views(v@).contains(e@),
{
    let mut i: usize = 0;
    while i < v.len()
        invariant
            i <= v.len(),
            forall|j: int| 0 <= j < i ==> v@[j]@ != e@,
        decreases v.len() - i,
    {
        if v[i] == *e {
            assert(views(v@)[i as int] == e@);
            return true;
        }
        i += 1;
    }
    proof {
        if views(v@).contains(e@) {
            let j = choose|j: int| 0 <= j < views(v@).len() && views(v@)[j] == e@;
            assert(v@[j]@ == e@);
        }
    }
    false
}

/// The events of `s` whose presence in `r` equals `present`, in order.
fn select(s: &Vec<Event>, r: &Vec<Event>, present: bool) -> (out: Vec<Event>)
    ensures
        views(out@) == filter_by(views(s@), views(r@), present),
{
    let mut out: Vec<Event> = Vec::new();
    let mut i: usize = 0;
    while i < s.len()
        invariant
            i <= s.len(),
            views(out@) == filter_by(views(s@).take(i as int), views(r@), present),
        decreases s.len() - i,
    {
        proof {
            let t = views(s@).take(i as int + 1);
            assert(t.drop_last() == views(s@).take(i as int));
            assert(t.last() == s@[i as int]@);
        }
        if holds(r, &s[i]) == present {
            out.push(s[i].copy());
            proof {
                assert(views(out@) == views(out@).drop_last().push(out@.last()@));
            }
        }
        i += 1;
    }
    assert(views(s@).take(s.len() as int) == views(s@));
    out
}

impl Catalog {
    /// Whether the catalog is free of duplicates, as it always is.
    pub open spec fn wf(&self) -> bool {
        self@.no_duplicates()
    }

    pub fn new() -> (r: Catalog)
        ensures
            r@ == Seq::<EventView>::empty(),
            r.wf(),
    {
        let r = Catalog { events: Vec::new() };
        assert(r@ =~= Seq::<EventView>::empty());
        r
    }

    /// A catalog holding the given events, each once, in order of first
    /// occurrence.
    pub fn from_events(events: Vec<Event>) -> (r: Catalog)
        ensures
            r@ == insert_all(Seq::<EventView>::empty(), views(events@)),
            r.wf(),
    {
        let mut r = Catalog::new();
        let mut i: usize = 0;
        while i < events.len()
            invariant
                i <= events.len(),
                r.wf(),
                r@ == insert_all(Seq::<EventView>::empty(), views(events@).take(i as int)),
            decreases events.len() - i,
        {
            proof {
                let t = views(events@).take(i as int + 1);
                assert(t.drop_last() == views(events@).take(i as int));
                assert(t.last() == events@[i as int]@);
            }
            r.add_event(events[i].copy());
            i += 1;
        }
        assert(views(events@).take(events.len() as int) == views(events@));
        r
    }

    /// A point-in-time copy of the known events, in catalog order.
    pub fn events(&self) -> (r: Vec<Event>)
        ensures
            views(r@) == self@,
    {
        let mut r: Vec<Event> = Vec::new();
        let mut i: usize = 0;
        while i < self.events.len()
            invariant
                i <= self.events.len(),
                r@.len() == i,
                forall|j: int| 0 <= j < i ==> r@[j]@ == self.events@[j]@,
            decreases self.events.len() - i,
        {
            r.push(self.events[i].copy());
            i += 1;
        }
        assert(views(r@) =~= views(self.events@));
        r
    }

    pub fn len(&self) -> (r: usize)
        ensures
            r == self@.len(),
    {
        self.events.len()
    }

    pub fn is_empty(&self) -> (r: bool)
        ensures
            r == (self@.len() == 0),
    {
        self.events.len() == 0
    }

    pub fn contains(&self, e: &Event) -> (r: bool)
        ensures
            r == self@.contains(e@),
    {
        holds(&self.events, e)
    }

    /// Adds an event unless an equal one is already known.
    pub fn add_event(&mut self, event: Event)
        requires
            old(self).wf(),
        ensures
            final(self)@ == insert(old(self)@, event@),
            final(self).wf(),
    {
        proof {
            lemma_insert_no_duplicates(self@, event@);
        }
        if !holds(&self.events, &event) {
            self.events.push(event);
            proof {
                assert(self@ =~= old(self)@.push(event@));
            }
        }
    }

    /// Removes every known event that `to_remove` holds.
    pub fn remove_items(&mut self, to_remove: &Vec<Event>)
        requires
            old(self).wf(),
        ensures
            final(self)@ == without(old(self)@, views(to_remove@)),
            final(self).wf(),
    {
        proof {
            lemma_filter_by_no_duplicates(self@, views(to_remove@), false);
        }
        self.events = select(&self.events, to_remove, false);
    }

    /// Drops every known event that the current snapshot lacks.
    pub fn clean_old_events(&mut self, current: &Vec<Event>)
        requires
            old(self).wf(),
        ensures
            final(self)@ == within(old(self)@, views(current@)),
            final(self).wf(),
    {
        let outdated = select(&self.events, current, false);
        self.remove_items(&outdated);
        proof {
            let s = old(self)@;
            let c = views(current@);
            let o = without(s, c);
            assert forall|x: EventView| s.contains(x) implies (o.contains(x) == false) == (
            c.contains(x) == true) by {
                lemma_filter_by_contains(s, c, false, x);
            }
            lemma_filter_by_congruent(s, o, false, c, true);
        }
    }

    /// The events of the snapshot that the catalog does not know, each once,
    /// in order of first appearance in the snapshot.
    pub fn filter_new_events(&self, current: Vec<Event>) -> (r: Vec<Event>)
        ensures
            views(r@) == insert_all(Seq::<EventView>::empty(), without(views(current@), self@)),
            views(r@).no_duplicates(),
    {
        let ghost cur = views(current@);
        let mut out: Vec<Event> = Vec::new();
        let mut i: usize = 0;
        while i < current.len()
            invariant
                i <= current.len(),
                cur == views(current@),
                views(out@) == insert_all(Seq::<EventView>::empty(), without(cur.take(i as int), self@)),
            decreases current.len() - i,
        {
            proof {
                let t = cur.take(i as int + 1);
                assert(t.drop_last() == cur.take(i as int));
                assert(t.last() == current@[i as int]@);
                let w = without(cur.take(i as int), self@);
                assert(w.push(current@[i as int]@).drop_last() == w);
            }
            if !holds(&self.events, &current[i]) && !holds(&out, &current[i]) {
                let ghost prev = views(out@);
                out.push(current[i].copy());
                proof {
                    assert(views(out@) =~= prev.push(current@[i as int]@));
                }
            }
            i += 1;
        }
        proof {
            assert(cur.take(current.len() as int) == cur);
            lemma_insert_all_no_duplicates(Seq::<EventView>::empty(), without(cur, self@));
        }
        out
    }

    /// Reconciles the catalog with a freshly parsed snapshot: the events it
    /// lacks are dropped, and those of the snapshot that remain unknown are
    /// returned; an empty result is reported as `NothingNew`.
    pub fn get_new_events(&mut self, current: Vec<Event>) -> (r: Result<Vec<Event>, CycleError>)
        requires
            old(self).wf(),
        ensures
            final(self)@ == within(old(self)@, views(current@)),
            final(self).wf(),
            match r {
                Ok(v) => views(v@) == insert_all(
                    Seq::<EventView>::empty(),
                    without(views(current@), final(self)@),
                ) && views(v@).no_duplicates() && v@.len() > 0,
                Err(e) => e == CycleError::NothingNew && without(views(current@), final(self)@).len()
                    == 0,
            },
    {
        self.clean_old_events(&current);
        let ghost novel = without(views(current@), self@);
        let new_events = self.filter_new_events(current);
        proof {
            if novel.len() > 0 {
                lemma_insert_all_contains(Seq::<EventView>::empty(), novel, novel[0]);
                assert(novel.contains(novel[0]));
            }
        }
        if new_events.len() == 0 {
            Err(CycleError::NothingNew)
        } else {
            Ok(new_events)
        }
    }
}

} // verus!
