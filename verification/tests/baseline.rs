use sepia::baseline::BaselineStore;

fn s(text: &str) -> String {
    text.to_string()
}

#[test]
fn new_store_has_seen_nothing() {
    let store = BaselineStore::new();
    assert!(!store.contains(&s("Main")));
    assert_eq!(store.get(&s("Main")), None);
    assert_eq!(store.get(&s("")), None);
}

#[test]
fn install_makes_the_baseline() {
    let mut store = BaselineStore::new();
    assert_eq!(store.install(s("Main"), s("a.png")), None);
    assert!(store.contains(&s("Main")));
    assert_eq!(store.get(&s("Main")), Some(&s("a.png")));
    assert!(!store.contains(&s("main")));
}

#[test]
fn install_hands_back_what_it_replaces() {
    let mut store = BaselineStore::new();
    assert_eq!(store.install(s("Main"), s("a.png")), None);
    assert_eq!(store.install(s("Main"), s("b.png")), Some(s("a.png")));
    assert_eq!(store.install(s("Main"), s("c.png")), Some(s("b.png")));
    assert_eq!(store.get(&s("Main")), Some(&s("c.png")));
}

#[test]
fn install_touches_no_other_display() {
    let mut store = BaselineStore::new();
    store.install(s("Main"), s("a.png"));
    store.install(s("External"), s("b.png"));
    store.install(s("Third"), s("c.png"));
    assert_eq!(store.install(s("External"), s("d.png")), Some(s("b.png")));
    assert_eq!(store.get(&s("Main")), Some(&s("a.png")));
    assert_eq!(store.get(&s("External")), Some(&s("d.png")));
    assert_eq!(store.get(&s("Third")), Some(&s("c.png")));
}

#[test]
fn the_empty_name_is_a_display_like_any_other() {
    let mut store = BaselineStore::new();
    assert_eq!(store.install(s(""), s("a.png")), None);
    assert_eq!(store.get(&s("")), Some(&s("a.png")));
    assert_eq!(store.install(s(""), s("b.png")), Some(s("a.png")));
}
