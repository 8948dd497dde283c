use unica_sport_bot::events::Event;
use unica_sport_bot::parse::{
    events_from_fragments, get_event_date, get_event_link, get_event_title, parse_event,
    parse_events, Fragment,
};
use unica_sport_bot::replies::{events_reply, format_events_msg};
use unica_sport_bot::text::{contains_test, join_runs, replace_newlines};

fn runs(r: &[&str]) -> Vec<String> {
    r.iter().map(|s| s.to_string()).collect()
}

fn frag(title: Option<&[&str]>, date: Option<&[&str]>, href: Option<&str>) -> Fragment {
    Fragment {
        title_nodes: title.map(runs).into_iter().collect(),
        date_nodes: date.map(runs).into_iter().collect(),
        hrefs: href.map(|h| Some(h.to_string())).into_iter().collect(),
    }
}

fn container(title: &str, date: &str, href: &str) -> String {
    format!(
        "<div class=\"event\"><div class=\"event-img\"><p class=\"event-date\">{}</p></div>\
         <div class=\"event-info\"><h3 class=\"event-title\">{}</h3>\
         <p class=\"text-right\"><a class=\"btn\" href=\"{}\">More</a></p></div></div>",
        date, title, href
    )
}

#[test]
fn join_runs_uses_single_spaces() {
    let v = vec!["a".to_string(), "b c".to_string(), "".to_string(), "d".to_string()];
    assert_eq!(join_runs(&v), "a b c  d");
    assert_eq!(join_runs(&Vec::new()), "");
}

#[test]
fn title_and_date_are_trimmed_and_collapsed() {
    let f = frag(Some(&["  x y \n"]), Some(&["a \t\n b  c "]), None);
    assert_eq!(get_event_title(&f), Some("x y".to_string()));
    assert_eq!(get_event_date(&f), Some("a b c".to_string()));
}

#[test]
fn marker_in_any_case() {
    assert!(contains_test("A TEST event"));
    assert!(contains_test("this is a test"));
    assert!(contains_test("TeSt"));
    assert!(contains_test("Contest"));
    assert!(!contains_test("Tes t"));
    assert!(!contains_test("tes"));
}

#[test]
fn title_is_joined_and_trimmed() {
    let f = frag(Some(&[" Run ", " Club "]), Some(&["x"]), None);
    assert_eq!(get_event_title(&f), Some("Run   Club".to_string()));
    assert_eq!(get_event_title(&frag(None, None, None)), None);
}

#[test]
fn date_whitespace_is_collapsed() {
    let f = frag(Some(&["T"]), Some(&["  12\n", "  mars \t 2025 "]), None);
    assert_eq!(get_event_date(&f), Some("12 mars 2025".to_string()));
}

#[test]
fn link_drops_prefix_and_prepends_site() {
    let f = frag(None, None, Some("/fr/agenda/foot"));
    assert_eq!(get_event_link(&f), "https://sport.univ-cotedazur.fr/fr/agenda/foot");
    assert_eq!(get_event_link(&frag(None, None, Some("/fr"))), "https://sport.univ-cotedazur.fr/fr/");
    assert_eq!(get_event_link(&frag(None, None, None)), "");
}

#[test]
fn first_title_date_and_present_href_are_used() {
    let f = Fragment {
        title_nodes: vec![runs(&["First"]), runs(&["Second"])],
        date_nodes: vec![runs(&["1 mai"]), runs(&["2 mai"])],
        hrefs: vec![None, Some("/fr/a".to_string()), Some("/fr/b".to_string())],
    };
    let e = parse_event(&f).unwrap();
    assert_eq!(
        e,
        Event::new(
            "First".to_string(),
            "1 mai".to_string(),
            "https://sport.univ-cotedazur.fr/fr/a".to_string()
        )
    );
    let g = Fragment { title_nodes: vec![], date_nodes: vec![], hrefs: vec![None, None] };
    assert_eq!(get_event_link(&g), "");
}

#[test]
fn link_button_without_href_is_passed_over_on_a_page() {
    let html = "<div class=\"event\"><div class=\"event-img\"><p class=\"event-date\">d</p></div>\
        <div class=\"event-info\"><h3 class=\"event-title\">T</h3><p class=\"text-right\">\
        <a class=\"btn\">No link</a><a class=\"btn\" href=\"/fr/x\">Go</a></p></div></div>";
    let evs = parse_events(html);
    assert_eq!(evs.len(), 1);
    assert_eq!(evs[0].link, "https://sport.univ-cotedazur.fr/fr/x");
}

#[test]
fn newlines_become_spaces() {
    assert_eq!(replace_newlines("a\nb\n\nc"), "a b  c");
    assert_eq!(replace_newlines("plain"), "plain");
}

#[test]
fn fragment_without_title_or_date_is_skipped() {
    assert!(parse_event(&frag(None, Some(&["d"]), Some("/fr/x"))).is_none());
    assert!(parse_event(&frag(Some(&["T"]), None, Some("/fr/x"))).is_none());
    let e = parse_event(&frag(Some(&["T"]), Some(&["d"]), None)).unwrap();
    assert_eq!(e, Event::new("T".to_string(), "d".to_string(), String::new()));
}

#[test]
fn test_titles_are_filtered() {
    let fs = vec![
        frag(Some(&["Yoga"]), Some(&["d1"]), Some("/fr/a")),
        frag(Some(&["TEST event"]), Some(&["d2"]), Some("/fr/b")),
        frag(Some(&["my test"]), Some(&["d3"]), Some("/fr/c")),
        frag(Some(&["TeSt"]), Some(&["d4"]), Some("/fr/d")),
        frag(Some(&["Swim"]), Some(&["d5"]), Some("/fr/e")),
    ];
    let evs = events_from_fragments(&fs);
    let t: Vec<String> = evs.iter().map(|e| e.title.clone()).collect();
    assert_eq!(t, vec!["Yoga", "Swim"]);
}

#[test]
fn parse_events_reads_a_page() {
    let html = format!(
        "<html><body>{}{}{}<div class=\"event\"><p>broken</p></div></body></html>",
        container("Tournoi de <b>foot</b>", "12\n   mars", "/fr/agenda/foot"),
        container("Test interne", "1 avril", "/fr/agenda/t"),
        container(" Escalade ", " 3 mai ", "/fr/agenda/esc"),
    );
    let evs = parse_events(&html);
    assert_eq!(
        evs,
        vec![
            Event::new(
                "Tournoi de  foot".to_string(),
                "12 mars".to_string(),
                "https://sport.univ-cotedazur.fr/fr/agenda/foot".to_string()
            ),
            Event::new(
                "Escalade".to_string(),
                "3 mai".to_string(),
                "https://sport.univ-cotedazur.fr/fr/agenda/esc".to_string()
            ),
        ]
    );
}

#[test]
fn parse_events_on_empty_page() {
    assert!(parse_events("").is_empty());
}

#[test]
fn event_html_and_list() {
    let a = Event::new("A".to_string(), "d1".to_string(), "l1".to_string());
    let b = Event::new("B".to_string(), "d2".to_string(), "l2".to_string());
    assert_eq!(a.to_html(), "<a href='l1'>A</a> (d1)");
    assert_eq!(
        format_events_msg(&vec![a.clone(), b]),
        "Current events:\n• <a href='l1'>A</a> (d1)\n• <a href='l2'>B</a> (d2)"
    );
    assert_eq!(events_reply(&vec![a]), "Current events:\n• <a href='l1'>A</a> (d1)");
    assert_eq!(events_reply(&Vec::new()), "No known events yet.");
}
