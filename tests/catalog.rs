use unica_sport_bot::cycle::{send_notifications, step, Phase};
use unica_sport_bot::events::{Catalog, CycleError, Event};
use unica_sport_bot::subs::Registry;

fn ev(title: &str, date: &str, link: &str) -> Event {
    Event::new(title.to_string(), date.to_string(), link.to_string())
}

fn titles(v: &[Event]) -> Vec<String> {
    v.iter().map(|e| e.title.clone()).collect()
}

#[test]
fn add_event_twice_keeps_one_copy() {
    let mut c = Catalog::new();
    c.add_event(ev("A", "d1", "l1"));
    c.add_event(ev("A", "d1", "l1"));
    assert_eq!(c.len(), 1);
    assert!(c.contains(&ev("A", "d1", "l1")));
}

#[test]
fn events_differing_in_one_field_are_distinct() {
    let mut c = Catalog::new();
    c.add_event(ev("A", "d1", "l1"));
    c.add_event(ev("A", "d1", "l2"));
    c.add_event(ev("A", "d2", "l1"));
    assert_eq!(c.len(), 3);
}

#[test]
fn from_events_drops_duplicates() {
    let c = Catalog::from_events(vec![ev("A", "d", "l"), ev("B", "d", "l"), ev("A", "d", "l")]);
    assert_eq!(titles(&c.events()), vec!["A", "B"]);
}

#[test]
fn remove_items_keeps_order_of_the_rest() {
    let mut c = Catalog::from_events(vec![ev("A", "d", "l"), ev("B", "d", "l"), ev("C", "d", "l")]);
    c.remove_items(&vec![ev("B", "d", "l"), ev("Z", "d", "l")]);
    assert_eq!(titles(&c.events()), vec!["A", "C"]);
}

#[test]
fn filter_new_events_keeps_unknown_ones() {
    let c = Catalog::from_events(vec![ev("A", "d", "l")]);
    let new = c.filter_new_events(vec![ev("B", "d", "l"), ev("A", "d", "l"), ev("C", "d", "l")]);
    assert_eq!(titles(&new), vec!["B", "C"]);
}

#[test]
fn three_cycles_scenario() {
    let a = ev("A", "d1", "l1");
    let b = ev("B", "d2", "l2");
    let mut c = Catalog::new();
    let mut subs = Registry::new();
    subs.add_sub(7);
    subs.add_sub(9);

    let r1 = c.get_new_events(vec![a.clone(), b.clone()]);
    let new1 = r1.expect("first cycle finds both events");
    assert_eq!(titles(&new1), vec!["A", "B"]);
    let notes = send_notifications(&mut c, &subs, new1);
    assert_eq!(notes.len(), 4);
    assert_eq!(titles(&c.events()), vec!["A", "B"]);

    let r2 = c.get_new_events(vec![a.clone()]);
    assert_eq!(r2, Err(CycleError::NothingNew));
    assert_eq!(titles(&c.events()), vec!["A"]);

    let r3 = c.get_new_events(vec![a.clone()]);
    assert_eq!(r3, Err(CycleError::NothingNew));
    assert_eq!(titles(&c.events()), vec!["A"]);
}

#[test]
fn catalog_ends_equal_to_snapshot() {
    let mut c = Catalog::from_events(vec![ev("A", "d", "l"), ev("B", "d", "l")]);
    let snap = vec![ev("B", "d", "l"), ev("C", "d", "l"), ev("C", "d", "l")];
    let new = c.get_new_events(snap).unwrap();
    assert_eq!(titles(&new), vec!["C"]);
    send_notifications(&mut c, &Registry::new(), new);
    assert_eq!(titles(&c.events()), vec!["B", "C"]);
}

#[test]
fn unchanged_page_notifies_nothing_the_second_time() {
    let mut c = Catalog::new();
    let snap = vec![ev("A", "d", "l"), ev("B", "d", "l")];
    let new = c.get_new_events(snap.clone()).unwrap();
    send_notifications(&mut c, &Registry::new(), new);
    assert_eq!(c.get_new_events(snap), Err(CycleError::NothingNew));
}

#[test]
fn notifications_go_to_each_subscriber_per_event() {
    let mut c = Catalog::new();
    let subs = Registry::from_ids(vec![1, 2]);
    let notes = send_notifications(&mut c, &subs, vec![ev("T", "D", "L"), ev("U", "E", "M")]);
    let got: Vec<(i64, String)> = notes.iter().map(|n| (n.chat_id, n.text.clone())).collect();
    assert_eq!(
        got,
        vec![
            (1, "New event: <a href='L'>T</a> (D)".to_string()),
            (2, "New event: <a href='L'>T</a> (D)".to_string()),
            (1, "New event: <a href='M'>U</a> (E)".to_string()),
            (2, "New event: <a href='M'>U</a> (E)".to_string()),
        ]
    );
    assert_eq!(c.len(), 2);
}

#[test]
fn nothing_new_message() {
    assert_eq!(CycleError::NothingNew.message(), "Nothing new");
}

#[test]
fn loop_steps() {
    let s = step(Phase::WaitingShort, false);
    assert_eq!((s.sleep_secs, s.fetch_after, s.next), (5, true, Phase::WaitingLong));
    let l = step(Phase::WaitingLong, false);
    assert_eq!((l.sleep_secs, l.fetch_after, l.next), (600, false, Phase::WaitingShort));
    let d = step(Phase::WaitingLong, true);
    assert_eq!(d.sleep_secs, 10);
}

#[test]
fn clean_old_events_keeps_only_current_ones() {
    let mut c = Catalog::from_events(vec![ev("A", "d", "l"), ev("B", "d", "l"), ev("C", "d", "l")]);
    c.clean_old_events(&vec![ev("C", "d", "l"), ev("A", "d", "l"), ev("D", "d", "l")]);
    assert_eq!(titles(&c.events()), vec!["A", "C"]);
    c.clean_old_events(&Vec::new());
    assert!(c.is_empty());
}

#[test]
fn event_listed_twice_is_announced_once() {
    let mut c = Catalog::new();
    let subs = Registry::from_ids(vec![3]);
    let snap = vec![ev("A", "d", "l"), ev("B", "d", "l"), ev("A", "d", "l")];
    let new = c.get_new_events(snap).unwrap();
    assert_eq!(titles(&new), vec!["A", "B"]);
    let notes = send_notifications(&mut c, &subs, new);
    assert_eq!(notes.len(), 2);
    let c2 = Catalog::from_events(vec![ev("X", "d", "l")]);
    let f = c2.filter_new_events(vec![ev("Y", "d", "l"), ev("X", "d", "l"), ev("Y", "d", "l")]);
    assert_eq!(titles(&f), vec!["Y"]);
}
