//! Turning the events page into event records.
use vstd::prelude::*;
use scraper::{ElementRef, Html, Selector};
use crate::events::{Event, EventView, views};
use crate::text::{
    collapse_whitespace, collapsed, contains_marker, contains_test, join_runs, joined,
    newlines_to_spaces, replace_newlines, trim_text, trimmed,
};

verus! {

/// The site whose events page is watched; event links are made absolute
/// against it.
pub const BASE_URL: &'static str = "https://sport.univ-cotedazur.fr/fr/";

/// Number of leading characters of a relative link that repeat the end of
/// `BASE_URL` and are dropped.
pub const LINK_PREFIX_LEN: usize = 4;

/// CSS selector of an event container.
pub const EVENT_SELECTOR: &'static str = "div.event";

/// CSS selector of the title node inside a container.
pub const TITLE_SELECTOR: &'static str = "div.event-info > h3.event-title";

/// CSS selector of the date node inside a container.
pub const DATE_SELECTOR: &'static str = "div.event-img > p.event-date";

/// CSS selector of the link buttons inside a container.
pub const LINK_SELECTOR: &'static str = "div.event-info > p.text-right > a.btn";

/// What the page holds for one event container: the text runs of each of
/// its title nodes and of each of its date nodes, and the `href` of each of
/// its link nodes, if the node has one.
#[derive(Clone, Debug)]
pub struct Fragment {
    pub title_nodes: Vec<Vec<String>>,
    pub date_nodes: Vec<Vec<String>>,
    pub hrefs: Vec<Option<String>>,
}

/// A fragment as plain sequences.
pub type FragmentView = (Seq<Seq<Seq<char>>>, Seq<Seq<Seq<char>>>, Seq<Option<Seq<char>>>);

pub open spec fn href_view(o: Option<String>) -> Option<Seq<char>> {
    match o {
        Some(h) => Some(h@),
        None => None,
    }
}

pub open spec fn hrefs_view(v: Seq<Option<String>>) -> Seq<Option<Seq<char>>> {
    v.map_values(|h: Option<String>| href_view(h))
}

impl View for Fragment {
    type V = FragmentView;

    open spec fn view(&self) -> FragmentView {
        (self.title_nodes.deep_view(), self.date_nodes.deep_view(), hrefs_view(self.hrefs@))
    }
}

/// The fragments that the `scraper` crate finds in a page with the given
/// container, title, date and link selectors.
pub uninterp spec fn fragments_of(
    html: Seq<char>,
    event_sel: Seq<char>,
    title_sel: Seq<char>,
    date_sel: Seq<char>,
    link_sel: Seq<char>,
) -> Seq<(Seq<Seq<Seq<char>>>, Seq<Seq<Seq<char>>>, Seq<Option<Seq<char>>>)>;

/// Relies on the `scraper` crate: `Html::parse_document`, `Selector::parse`,
/// and `select`, `text` and `attr` on the elements found. For each container,
/// in document order, the text runs of each title node, those of each date
/// node and the `href` of each link node, all in document order; no fragment
/// when a selector does not parse.
#[verifier::external_body]
fn extract_fragments(html: &str, event: &str, title: &str, date: &str, link: &str) -> (r: Vec<
    Fragment,
>)
    ensures
        r@.map_values(|f: Fragment| f@) == fragments_of(html@, event@, title@, date@, link@),
{
    let sel = |s: &str| Selector::parse(s).ok();
    let runs = |n: ElementRef| n.text().map(String::from).collect();
    match (sel(event), sel(title), sel(date), sel(link)) {
        (Some(ev), Some(ti), Some(da), Some(li)) => Html::parse_document(html).select(&ev).map(
            |e| Fragment {
                title_nodes: e.select(&ti).map(runs).collect(),
                date_nodes: e.select(&da).map(runs).collect(),
                hrefs: e.select(&li).map(|a| a.attr("href").map(String::from)).collect(),
            },
        ).collect(),
        _ => Vec::new(),
    }
}

/// The first `href` that is present, if any.
pub open spec fn first_href(hs: Seq<Option<Seq<char>>>) -> Option<Seq<char>>
    decreases hs.len(),
{
    if hs.len() == 0 {
        None
    } else if hs[0] is Some {
        hs[0]
    } else {
        first_href(hs.drop_first())
    }
}

/// The title of a fragment: the runs of its first title node joined and
/// trimmed.
pub open spec fn title_of(f: FragmentView) -> Option<Seq<char>> {
    if f.0.len() > 0 {
        Some(trimmed(joined(f.0[0])))
    } else {
        None
    }
}

/// The date of a fragment: its runs joined and trimmed, newlines made
/// spaces, whitespace runs collapsed, and trimmed again.
pub open spec fn date_of(f: FragmentView) -> Option<Seq<char>> {
    if f.1.len() > 0 {
        Some(trimmed(collapsed(newlines_to_spaces(trimmed(joined(f.1[0]))))))
    } else {
        None
    }
}

/// The absolute link of a fragment: `BASE_URL` followed by the `href` less
/// its first `LINK_PREFIX_LEN` characters, for the first link node that has
/// an `href`; empty when there is none.
pub open spec fn link_of(f: FragmentView) -> Seq<char> {
    match first_href(f.2) {
        Some(h) => BASE_URL@ + if h.len() >= LINK_PREFIX_LEN {
            h.subrange(LINK_PREFIX_LEN as int, h.len() as int)
        } else {
            Seq::empty()
        },
        None => Seq::empty(),
    }
}

/// The event a fragment stands for: none when it lacks a title or a date,
/// or when its title contains "test" in any case.
pub open spec fn event_of(f: FragmentView) -> Option<EventView> {
    match title_of(f) {
        None => None,
        Some(t) => if contains_marker(t) {
            None
        } else {
            match date_of(f) {
                None => None,
                Some(d) => Some(EventView { title: t, date: d, link: link_of(f) }),
            }
        },
    }
}

/// The events of a sequence of fragments, in order.
pub open spec fn events_of(fs: Seq<FragmentView>) -> Seq<EventView>
    decreases fs.len(),
{
    if fs.len() == 0 {
        Seq::empty()
    } else {
        match event_of(fs.last()) {
            Some(e) => events_of(fs.drop_last()).push(e),
            None => events_of(fs.drop_last()),
        }
    }
}

pub fn get_event_title(f: &Fragment) -> (r: Option<String>)
    ensures
        match r {
            Some(t) => title_of(f@) == Some(t@),
            None => title_of(f@) is None,
        },
{
    if f.title_nodes.len() > 0 {
        let j = join_runs(&f.title_nodes[0]);
        Some(trim_text(j.as_str()))
    } else {
        None
    }
}

pub fn get_event_date(f: &Fragment) -> (r: Option<String>)
    ensures
        match r {
            Some(d) => date_of(f@) == Some(d@),
            None => date_of(f@) is None,
        },
{
    if f.date_nodes.len() > 0 {
        let j = join_runs(&f.date_nodes[0]);
        let t = trim_text(j.as_str());
        let n = replace_newlines(t.as_str());
        let c = collapse_whitespace(n.as_str());
        Some(trim_text(c.as_str()))
    } else {
        None
    }
}

/// The first `href` of a fragment's link nodes that is present, if any.
fn find_href(hs: &Vec<Option<String>>) -> (r: Option<String>)
    ensures
        href_view(r) == first_href(hrefs_view(hs@)),
{
    let ghost v = hrefs_view(hs@);
    assert(v.subrange(0, v.len() as int) == v);
    let mut i: usize = 0;
    while i < hs.len()
        invariant
            i <= hs.len(),
            v == hrefs_view(hs@),
            first_href(v) == first_href(v.subrange(i as int, v.len() as int)),
        decreases hs.len() - i,
    {
        proof {
            let sub = v.subrange(i as int, v.len() as int);
            assert(sub.drop_first() =~= v.subrange(i as int + 1, v.len() as int));
            assert(sub[0] == href_view(hs@[i as int]));
        }
        match &hs[i] {
            Some(h) => {
                return Some(h.clone());
            },
            None => {},
        }
        i += 1;
    }
    None
}

pub fn get_event_link(f: &Fragment) -> (r: String)
    ensures
        r@ == link_of(f@),
{
    match find_href(&f.hrefs) {
        Some(h) => {
            let n = h.as_str().unicode_len();
            let mut r = String::from_str(BASE_URL);
            if n >= LINK_PREFIX_LEN {
                r.append(h.as_str().substring_char(LINK_PREFIX_LEN, n));
            } else {
                proof {
                    assert(r@ + Seq::<char>::empty() == r@);
                }
            }
            r
        },
        None => String::new(),
    }
}

/// The event of one fragment, if it stands for one.
pub fn parse_event(f: &Fragment) -> (r: Option<Event>)
    ensures
        match r {
            Some(e) => event_of(f@) == Some(e@),
            None => event_of(f@) is None,
        },
{
    let title = match get_event_title(f) {
        Some(t) => t,
        None => return None,
    };
    if contains_test(title.as_str()) {
        return None;
    }
    let date = match get_event_date(f) {
        Some(d) => d,
        None => return None,
    };
    let link = get_event_link(f);
    Some(Event::new(title, date, link))
}

/// The events of a sequence of fragments, in order, skipping those that
/// stand for none.
pub fn events_from_fragments(fs: &Vec<Fragment>) -> (r: Vec<Event>)
    ensures
        views(r@) == events_of(fs@.map_values(|f: Fragment| f@)),
        forall|i: int| 0 <= i < r@.len() ==> !contains_marker(#[trigger] r@[i].title@),
{
    let ghost fv = fs@.map_values(|f: Fragment| f@);
    let mut out: Vec<Event> = Vec::new();
    let mut i: usize = 0;
    while i < fs.len()
        invariant
            i <= fs.len(),
            fv == fs@.map_values(|f: Fragment| f@),
            views(out@) == events_of(fv.take(i as int)),
            forall|k: int| 0 <= k < out@.len() ==> !contains_marker(#[trigger] out@[k].title@),
        decreases fs.len() - i,
    {
        proof {
            assert(fv.take(i as int + 1).drop_last() == fv.take(i as int));
            assert(fv.take(i as int + 1).last() == fs@[i as int]@);
        }
        match parse_event(&fs[i]) {
            Some(e) => {
                out.push(e);
                proof {
                    assert(views(out@) =~= events_of(fv.take(i as int)).push(out@.last()@));
                }
            },
            None => {},
        }
        i += 1;
    }
    assert(fv.take(fs.len() as int) == fv);
    out
}

/// The events found on a page, in document order.
pub fn parse_events(html: &str) -> (r: Vec<Event>)
    ensures
        views(r@) == events_of(
            fragments_of(html@, EVENT_SELECTOR@, TITLE_SELECTOR@, DATE_SELECTOR@, LINK_SELECTOR@),
        ),
        forall|i: int| 0 <= i < r@.len() ==> !contains_marker(#[trigger] r@[i].title@),
{
    let fs = extract_fragments(html, EVENT_SELECTOR, TITLE_SELECTOR, DATE_SELECTOR, LINK_SELECTOR);
    events_from_fragments(&fs)
}

} // verus!
