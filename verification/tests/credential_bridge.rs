use scrapbridge::credentials::{cookie_header, harvest, Credential};

fn cred(name: &str, value: &str) -> Credential {
    Credential { name: name.to_string(), value: value.to_string() }
}

#[test]
fn harvest_with_no_sessions_is_empty_not_an_error() {
    let r = harvest(None, Vec::new());
    assert!(r.is_empty());
}

#[test]
fn harvest_with_only_empty_sets_is_empty() {
    let r = harvest(Some(Vec::new()), vec![Vec::new(), Vec::new()]);
    assert!(r.is_empty());
}

#[test]
fn harvest_prefers_the_primary_session() {
    let primary = vec![cred("sid", "primary")];
    let others = vec![vec![cred("sid", "other")]];
    let r = harvest(Some(primary.clone()), others);
    assert_eq!(r, primary);
}

#[test]
fn harvest_falls_back_past_an_empty_primary() {
    let others = vec![Vec::new(), vec![cred("sid", "second")]];
    let r = harvest(Some(Vec::new()), others);
    assert_eq!(r, vec![cred("sid", "second")]);
}

#[test]
fn harvest_takes_the_first_nonempty_in_order() {
    let others = vec![vec![cred("sid", "first")], vec![cred("sid", "second")]];
    let r = harvest(None, others);
    assert_eq!(r, vec![cred("sid", "first")]);
}

#[test]
fn cookie_header_of_empty_set_is_absent() {
    assert_eq!(cookie_header(&Vec::new()), None);
}

#[test]
fn cookie_header_joins_pairs() {
    let set = vec![cred("sid", "abc"), cred("theme", "dark")];
    assert_eq!(cookie_header(&set), Some("sid=abc; theme=dark".to_string()));
}

#[test]
fn cookie_header_of_one_pair_has_no_separator() {
    let set = vec![cred("sid", "abc")];
    assert_eq!(cookie_header(&set), Some("sid=abc".to_string()));
}
