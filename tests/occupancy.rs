use doorway_counter::occupancy::{Event, Tracker};

fn scenario_tracker() -> Tracker {
    Tracker::new(50, 48, 15)
}

#[test]
fn scenario_entry() {
    let mut t = scenario_tracker();
    assert_eq!(t.update(Some(30), Some(48)), Some(Event::Idle));
    assert!(t.latch1);
    assert!(!t.latch2);
    assert_eq!(t.update(Some(30), Some(20)), Some(Event::Entered));
    assert_eq!(t.occupants_inside, 1);
    assert_eq!(t.total_entries, 1);
    assert!(!t.latch1);
    assert!(!t.latch2);
}

#[test]
fn scenario_exit() {
    let mut t = scenario_tracker();
    t.update(Some(30), Some(48));
    t.update(Some(30), Some(20));
    assert_eq!(t.occupants_inside, 1);
    assert_eq!(t.update(Some(50), Some(20)), Some(Event::Idle));
    assert!(t.latch2);
    assert!(!t.latch1);
    assert_eq!(t.update(Some(30), Some(48)), Some(Event::Left));
    assert_eq!(t.occupants_inside, 0);
    assert_eq!(t.total_entries, 1);
    assert!(!t.latch1);
    assert!(!t.latch2);
}

#[test]
fn scenario_tie_break_entry_wins() {
    let mut t = scenario_tracker();
    t.latch1 = true;
    t.latch2 = true;
    assert_eq!(t.update(Some(30), Some(20)), Some(Event::Entered));
    assert_eq!(t.occupants_inside, 1);
    assert_eq!(t.total_entries, 1);
}

#[test]
fn scenario_timeout_skips_cycle() {
    let mut t = scenario_tracker();
    t.update(Some(30), Some(48));
    let before = t;
    assert_eq!(t.update(None, Some(20)), None);
    assert_eq!(t, before);
    assert_eq!(t.update(Some(30), None), None);
    assert_eq!(t.update(None, None), None);
    assert_eq!(t, before);
}

#[test]
fn exits_from_empty_stay_at_zero() {
    let mut t = scenario_tracker();
    for _ in 0..3 {
        assert_eq!(t.update(Some(50), Some(20)), Some(Event::Idle));
        assert_eq!(t.update(Some(30), Some(48)), Some(Event::Left));
        assert_eq!(t.occupants_inside, 0);
    }
    assert_eq!(t.total_entries, 0);
}

#[test]
fn total_entries_never_decrease() {
    let mut t = scenario_tracker();
    let cycles = [
        (Some(30), Some(48)),
        (Some(30), Some(20)),
        (None, Some(1)),
        (Some(50), Some(20)),
        (Some(30), Some(48)),
        (Some(70), Some(48)),
        (Some(50), Some(70)),
    ];
    let mut last = 0;
    for (a, b) in cycles {
        t.update(a, b);
        assert!(t.total_entries >= last);
        last = t.total_entries;
    }
    assert_eq!(t.total_entries, 2);
    assert_eq!(t.occupants_inside, 1);
}

#[test]
fn counters_saturate_at_max() {
    let mut t = scenario_tracker();
    t.occupants_inside = u16::MAX;
    t.total_entries = u16::MAX;
    t.latch1 = true;
    assert_eq!(t.update(Some(50), Some(20)), Some(Event::Entered));
    assert_eq!(t.occupants_inside, u16::MAX);
    assert_eq!(t.total_entries, u16::MAX);
}

#[test]
fn deviation_just_below_threshold_is_inactive() {
    let mut t = scenario_tracker();
    assert_eq!(t.update(Some(36), Some(62)), Some(Event::Idle));
    assert!(!t.latch1);
    assert!(!t.latch2);
    assert_eq!(t.update(Some(65), Some(33)), Some(Event::Idle));
    assert!(t.latch1);
    assert!(t.latch2);
}
