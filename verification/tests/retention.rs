use sepia::baseline::BaselineStore;
use sepia::fingerprint::Raster;
use sepia::retention::{
    baseline_to_compare, decide, difference_from_baseline, process_capture, process_tick, Action,
    Comparison, Observation, Verdict,
};

fn s(text: &str) -> String {
    text.to_string()
}

fn seen(display: &str, path: &str, comparison: Comparison) -> Observation {
    Observation { display: s(display), path: s(path), comparison }
}

fn store_with(entries: &[(&str, &str)]) -> BaselineStore {
    let mut store = BaselineStore::new();
    for (display, path) in entries {
        store.install(s(display), s(path));
    }
    store
}

fn flat(level: u8) -> Raster {
    let mut pixels = Vec::new();
    for _ in 0..(9 * 8) {
        pixels.extend_from_slice(&[level, level, level, 255]);
    }
    Raster::new(9, 8, pixels).unwrap()
}

fn rising() -> Raster {
    let mut pixels = Vec::new();
    for _ in 0..8 {
        for x in 0..9u32 {
            let level = (x * 25) as u8;
            pixels.extend_from_slice(&[level, level, level, 255]);
        }
    }
    Raster::new(9, 8, pixels).unwrap()
}

#[test]
fn decide_follows_the_rule() {
    assert_eq!(decide(false, Comparison::Distance(0), 30), Verdict::FirstSight);
    assert_eq!(decide(false, Comparison::Failed, 30), Verdict::FirstSight);
    assert_eq!(decide(true, Comparison::Failed, 30), Verdict::Failed);
    assert_eq!(decide(true, Comparison::Distance(29), 30), Verdict::Unchanged);
    assert_eq!(decide(true, Comparison::Distance(30), 30), Verdict::Changed);
    assert_eq!(decide(true, Comparison::Distance(31), 30), Verdict::Changed);
    assert_eq!(decide(true, Comparison::Distance(0), 0), Verdict::Changed);
    assert_eq!(decide(true, Comparison::Distance(u32::MAX), u32::MAX), Verdict::Changed);
    assert_eq!(decide(true, Comparison::Distance(u32::MAX - 1), u32::MAX), Verdict::Unchanged);
}

#[test]
fn first_sight_is_kept_whatever_the_distance() {
    for comparison in [
        Comparison::Distance(0),
        Comparison::Distance(1),
        Comparison::Distance(999),
        Comparison::Failed,
    ] {
        let mut store = BaselineStore::new();
        let action = process_capture(&mut store, seen("Main", "a.png", comparison), 100);
        assert_eq!(action, Action::Keep);
        assert_eq!(store.get(&s("Main")), Some(&s("a.png")));
    }
}

#[test]
fn distance_at_the_threshold_is_kept() {
    let mut store = store_with(&[("Main", "a.png")]);
    let action = process_capture(&mut store, seen("Main", "b.png", Comparison::Distance(30)), 30);
    assert_eq!(action, Action::Replace { stale: s("a.png") });
    assert_eq!(store.get(&s("Main")), Some(&s("b.png")));
}

#[test]
fn distance_below_the_threshold_is_dropped() {
    let mut store = store_with(&[("Main", "a.png")]);
    let action = process_capture(&mut store, seen("Main", "b.png", Comparison::Distance(29)), 30);
    assert_eq!(action, Action::Discard { path: s("b.png") });
    assert_eq!(store.get(&s("Main")), Some(&s("a.png")));
}

#[test]
fn distance_above_the_threshold_replaces_the_baseline() {
    let mut store = store_with(&[("Main", "a.png"), ("External", "x.png")]);
    let action = process_capture(&mut store, seen("Main", "b.png", Comparison::Distance(50)), 30);
    assert_eq!(action, Action::Replace { stale: s("a.png") });
    assert_eq!(store.get(&s("Main")), Some(&s("b.png")));
    assert_eq!(store.get(&s("External")), Some(&s("x.png")));
}

#[test]
fn failed_comparison_drops_the_capture_and_keeps_the_baseline() {
    let mut store = store_with(&[("Main", "a.png")]);
    let action = process_capture(&mut store, seen("Main", "b.png", Comparison::Failed), 30);
    assert_eq!(action, Action::Abandon { path: s("b.png") });
    assert_eq!(action.file_to_delete(), Some(&s("b.png")));
    assert_eq!(store.get(&s("Main")), Some(&s("a.png")));
}

#[test]
fn zero_threshold_keeps_every_capture() {
    let mut store = store_with(&[("Main", "a.png")]);
    let action = process_capture(&mut store, seen("Main", "b.png", Comparison::Distance(0)), 0);
    assert_eq!(action, Action::Replace { stale: s("a.png") });
    assert_eq!(store.get(&s("Main")), Some(&s("b.png")));
}

#[test]
fn same_picture_twice_is_dropped_the_second_time() {
    let mut store = BaselineStore::new();
    let first = process_capture(&mut store, seen("Main", "a.png", Comparison::Failed), 1);
    assert_eq!(first, Action::Keep);
    let picture = rising();
    let comparison = difference_from_baseline(Some(&picture), Some(&picture.clone()));
    assert_eq!(comparison, Comparison::Distance(0));
    let second = process_capture(&mut store, seen("Main", "b.png", comparison), 1);
    assert_eq!(second, Action::Discard { path: s("b.png") });
    assert_eq!(store.get(&s("Main")), Some(&s("a.png")));
}

#[test]
fn difference_from_baseline_reports_distance_or_failure() {
    let dark = flat(0);
    let ramp = rising();
    assert_eq!(difference_from_baseline(Some(&dark), Some(&ramp)), Comparison::Distance(64));
    assert_eq!(difference_from_baseline(Some(&ramp), Some(&dark)), Comparison::Distance(64));
    assert_eq!(difference_from_baseline(Some(&dark), Some(&dark)), Comparison::Distance(0));
    assert_eq!(difference_from_baseline(None, Some(&ramp)), Comparison::Failed);
    assert_eq!(difference_from_baseline(Some(&dark), None), Comparison::Failed);
    assert_eq!(difference_from_baseline(None, None), Comparison::Failed);
}

#[test]
fn baseline_to_compare_names_the_file_to_read() {
    let store = store_with(&[("Main", "a.png")]);
    assert_eq!(baseline_to_compare(&store, &s("Main"), 30), Some(&s("a.png")));
    assert_eq!(baseline_to_compare(&store, &s("Main"), 1), Some(&s("a.png")));
    assert_eq!(baseline_to_compare(&store, &s("Main"), 0), None);
    assert_eq!(baseline_to_compare(&store, &s("External"), 30), None);
    assert_eq!(baseline_to_compare(&store, &s("External"), 0), None);
}

#[test]
fn two_displays_over_two_ticks() {
    let mut store = BaselineStore::new();
    let first = process_tick(
        &mut store,
        vec![
            seen("Main", "main-1.png", Comparison::Distance(0)),
            seen("External", "external-1.png", Comparison::Distance(0)),
        ],
        30,
    );
    assert_eq!(first, vec![Action::Keep, Action::Keep]);
    assert_eq!(store.get(&s("Main")), Some(&s("main-1.png")));
    assert_eq!(store.get(&s("External")), Some(&s("external-1.png")));

    let second = process_tick(
        &mut store,
        vec![
            seen("Main", "main-2.png", Comparison::Distance(0)),
            seen("External", "external-2.png", Comparison::Distance(50)),
        ],
        30,
    );
    assert_eq!(
        second,
        vec![
            Action::Discard { path: s("main-2.png") },
            Action::Replace { stale: s("external-1.png") },
        ]
    );
    assert_eq!(store.get(&s("Main")), Some(&s("main-1.png")));
    assert_eq!(store.get(&s("External")), Some(&s("external-2.png")));
}

#[test]
fn failure_of_one_display_leaves_the_others_alone() {
    let start = [("Main", "main-1.png"), ("External", "external-1.png"), ("Third", "third-1.png")];
    let mut troubled = store_with(&start);
    let with_failure = process_tick(
        &mut troubled,
        vec![
            seen("Main", "main-2.png", Comparison::Distance(70)),
            seen("External", "external-2.png", Comparison::Failed),
            seen("Third", "third-2.png", Comparison::Distance(3)),
        ],
        30,
    );
    let mut calm = store_with(&start);
    let without = process_tick(
        &mut calm,
        vec![
            seen("Main", "main-2.png", Comparison::Distance(70)),
            seen("Third", "third-2.png", Comparison::Distance(3)),
        ],
        30,
    );
    assert_eq!(
        with_failure,
        vec![
            Action::Replace { stale: s("main-1.png") },
            Action::Abandon { path: s("external-2.png") },
            Action::Discard { path: s("third-2.png") },
        ]
    );
    assert_eq!(without, vec![with_failure[0].clone(), with_failure[2].clone()]);
    for display in ["Main", "External", "Third"] {
        assert_eq!(troubled.get(&s(display)), calm.get(&s(display)));
    }
    assert_eq!(troubled.get(&s("Main")), Some(&s("main-2.png")));
    assert_eq!(troubled.get(&s("External")), Some(&s("external-1.png")));
    assert_eq!(troubled.get(&s("Third")), Some(&s("third-1.png")));
}

#[test]
fn display_without_capture_keeps_its_baseline() {
    let mut store = store_with(&[("Main", "main-1.png"), ("Gone", "gone-1.png")]);
    let actions = process_tick(&mut store, vec![seen("Main", "main-2.png", Comparison::Distance(40))], 30);
    assert_eq!(actions, vec![Action::Replace { stale: s("main-1.png") }]);
    assert_eq!(store.get(&s("Gone")), Some(&s("gone-1.png")));
}

#[test]
fn display_that_appears_later_is_first_sight() {
    let mut store = store_with(&[("Main", "main-1.png")]);
    let actions = process_tick(
        &mut store,
        vec![
            seen("Main", "main-2.png", Comparison::Distance(1)),
            seen("Beamer", "beamer-2.png", Comparison::Distance(1)),
        ],
        30,
    );
    assert_eq!(actions, vec![Action::Discard { path: s("main-2.png") }, Action::Keep]);
    assert_eq!(store.get(&s("Beamer")), Some(&s("beamer-2.png")));
}

#[test]
fn empty_tick_changes_nothing() {
    let mut store = store_with(&[("Main", "main-1.png")]);
    let actions = process_tick(&mut store, vec![], 30);
    assert_eq!(actions, Vec::<Action>::new());
    assert_eq!(store.get(&s("Main")), Some(&s("main-1.png")));
}

#[test]
fn captures_of_one_display_are_processed_in_order() {
    let mut store = BaselineStore::new();
    let actions = process_tick(
        &mut store,
        vec![
            seen("Main", "a.png", Comparison::Distance(0)),
            seen("Main", "b.png", Comparison::Distance(40)),
            seen("Main", "c.png", Comparison::Distance(2)),
        ],
        30,
    );
    assert_eq!(
        actions,
        vec![Action::Keep, Action::Replace { stale: s("a.png") }, Action::Discard { path: s("c.png") }]
    );
    assert_eq!(store.get(&s("Main")), Some(&s("b.png")));
}

#[test]
fn action_names_the_file_to_delete() {
    assert_eq!(Action::Keep.file_to_delete(), None);
    assert_eq!(Action::Abandon { path: s("new.png") }.file_to_delete(), Some(&s("new.png")));
    assert_eq!(Action::Replace { stale: s("old.png") }.file_to_delete(), Some(&s("old.png")));
    assert_eq!(Action::Discard { path: s("new.png") }.file_to_delete(), Some(&s("new.png")));
}

#[test]
fn every_capture_becomes_the_baseline_or_is_deleted() {
    let mut store = store_with(&[("Main", "main-1.png"), ("External", "external-1.png")]);
    let captures = vec![
        seen("Main", "main-2.png", Comparison::Distance(64)),
        seen("External", "external-2.png", Comparison::Failed),
        seen("Beamer", "beamer-2.png", Comparison::Failed),
        seen("Main", "main-3.png", Comparison::Distance(0)),
    ];
    let actions = process_tick(&mut store, captures.clone(), 10);
    for (capture, action) in captures.iter().zip(actions.iter()) {
        let promoted = store.get(&capture.display) == Some(&capture.path);
        let deleted = action.file_to_delete() == Some(&capture.path);
        assert!(promoted || deleted);
        assert!(!(promoted && deleted));
    }
}
