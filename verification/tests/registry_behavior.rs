use scrapbridge::registry::{Registry, RegistryError};

fn s(t: &str) -> String {
    t.to_string()
}

#[test]
fn open_then_locate_returns_uri() {
    let mut r = Registry::new();
    r.open(s("a"), s("https://example.org/one"));
    assert_eq!(r.locate(&s("a")), Ok(s("https://example.org/one")));
}

#[test]
fn open_overwrites_existing_entry() {
    let mut r = Registry::new();
    r.open(s("a"), s("https://example.org/one"));
    r.open(s("a"), s("https://example.org/two"));
    assert_eq!(r.locate(&s("a")), Ok(s("https://example.org/two")));
    assert_eq!(r.list().len(), 1);
}

#[test]
fn locate_unknown_key_is_not_found() {
    let r = Registry::new();
    assert_eq!(r.locate(&s("nope")), Err(RegistryError::NotFound));
}

#[test]
fn close_then_locate_is_not_found() {
    let mut r = Registry::new();
    r.open(s("a"), s("https://example.org/one"));
    r.close(&s("a"));
    assert_eq!(r.locate(&s("a")), Err(RegistryError::NotFound));
}

#[test]
fn close_unknown_key_is_a_no_op() {
    let mut r = Registry::new();
    r.open(s("a"), s("https://example.org/one"));
    r.close(&s("b"));
    assert_eq!(r.list(), vec![(s("a"), s("https://example.org/one"))]);
}

#[test]
fn navigate_unknown_key_fails_and_changes_nothing() {
    let mut r = Registry::new();
    r.open(s("a"), s("https://example.org/one"));
    let before = r.list();
    assert_eq!(r.navigate(&s("never-opened"), s("https://example.org/x")), Err(
        RegistryError::NotFound,
    ));
    assert_eq!(r.list(), before);
}

#[test]
fn navigate_updates_an_open_session() {
    let mut r = Registry::new();
    r.open(s("a"), s("https://example.org/one"));
    assert_eq!(r.navigate(&s("a"), s("https://example.org/two")), Ok(()));
    assert_eq!(r.locate(&s("a")), Ok(s("https://example.org/two")));
}

#[test]
fn navigate_after_close_is_not_found() {
    let mut r = Registry::new();
    r.open(s("a"), s("https://example.org/one"));
    r.close(&s("a"));
    assert_eq!(r.navigate(&s("a"), s("https://example.org/two")), Err(RegistryError::NotFound));
}

#[test]
fn switch_to_checks_existence_only() {
    let mut r = Registry::new();
    r.open(s("a"), s("https://example.org/one"));
    assert_eq!(r.switch_to(&s("a")), Ok(()));
    assert_eq!(r.switch_to(&s("b")), Err(RegistryError::NotFound));
    assert_eq!(r.locate(&s("a")), Ok(s("https://example.org/one")));
}

#[test]
fn independent_opens_both_appear_in_list() {
    let mut r = Registry::new();
    r.open(s("a"), s("https://example.org/a"));
    r.open(s("b"), s("https://example.org/b"));
    let l = r.list();
    assert_eq!(l.len(), 2);
    assert!(l.contains(&(s("a"), s("https://example.org/a"))));
    assert!(l.contains(&(s("b"), s("https://example.org/b"))));
}

#[test]
fn last_navigate_wins() {
    let mut r = Registry::new();
    r.open(s("a"), s("https://example.org/start"));
    assert_eq!(r.navigate(&s("a"), s("https://example.org/u1")), Ok(()));
    assert_eq!(r.navigate(&s("a"), s("https://example.org/u2")), Ok(()));
    assert_eq!(r.locate(&s("a")), Ok(s("https://example.org/u2")));
}

#[test]
fn reopen_after_close_starts_fresh() {
    let mut r = Registry::new();
    r.open(s("a"), s("https://example.org/old"));
    r.close(&s("a"));
    r.open(s("a"), s("https://example.org/new"));
    assert_eq!(r.locate(&s("a")), Ok(s("https://example.org/new")));
}

#[test]
fn locate_follows_the_command_history() {
    let mut r = Registry::new();
    r.open(s("a"), s("https://example.org/1"));
    assert_eq!(r.navigate(&s("a"), s("https://example.org/2")), Ok(()));
    r.open(s("b"), s("https://example.org/other"));
    r.close(&s("a"));
    assert_eq!(r.locate(&s("a")), Err(RegistryError::NotFound));
    r.open(s("a"), s("https://example.org/3"));
    assert_eq!(r.navigate(&s("a"), s("https://example.org/4")), Ok(()));
    assert_eq!(r.locate(&s("a")), Ok(s("https://example.org/4")));
    assert_eq!(r.locate(&s("b")), Ok(s("https://example.org/other")));
}

#[test]
fn default_registry_is_empty() {
    let r = Registry::default();
    assert!(r.list().is_empty());
}

#[test]
fn contains_tracks_lifecycle() {
    let mut r = Registry::new();
    assert!(!r.contains(&s("a")));
    r.open(s("a"), s("https://example.org/one"));
    assert!(r.contains(&s("a")));
    r.close(&s("a"));
    assert!(!r.contains(&s("a")));
}
