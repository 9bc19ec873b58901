use scrapbridge::client::{build_pages_request, interpret_response, rejection_note, FetchError};
use scrapbridge::credentials::Credential;

fn cred(name: &str, value: &str) -> Credential {
    Credential { name: name.to_string(), value: value.to_string() }
}

const MINIMAL_BODY: &str = r#"{"projectName":"demo","skip":0,"limit":20,"count":1,
  "pages":[{"id":"p1","title":"Home","user":{"id":"u1"}}]}"#;

#[test]
fn defaults_are_skip_0_limit_20_sort_updated() {
    let r = build_pages_request("https://scrapbox.io", "demo", None, None, None, &Vec::new());
    assert_eq!(r.url, "https://scrapbox.io/api/pages/demo?skip=0&limit=20&sort=updated");
    assert_eq!(r.cookie, None);
}

#[test]
fn explicit_query_parameters_are_kept() {
    let r = build_pages_request(
        "https://scrapbox.io",
        "demo",
        Some(40),
        Some(100),
        Some("created"),
        &Vec::new(),
    );
    assert_eq!(r.url, "https://scrapbox.io/api/pages/demo?skip=40&limit=100&sort=created");
}

#[test]
fn cookie_header_attached_when_credentials_exist() {
    let creds = vec![cred("sid", "abc"), cred("csrf", "zz9")];
    let r = build_pages_request("https://scrapbox.io", "demo", None, None, None, &creds);
    assert_eq!(r.cookie, Some("sid=abc; csrf=zz9".to_string()));
}

#[test]
fn forbidden_status_is_remote_rejected() {
    assert_eq!(interpret_response(403, MINIMAL_BODY), Err(FetchError::RemoteRejected(403)));
    assert_eq!(interpret_response(401, MINIMAL_BODY), Err(FetchError::RemoteRejected(401)));
}

#[test]
fn server_error_status_is_remote_rejected_too() {
    assert_eq!(interpret_response(500, ""), Err(FetchError::RemoteRejected(500)));
    assert_eq!(interpret_response(301, ""), Err(FetchError::RemoteRejected(301)));
}

#[test]
fn malformed_body_on_success_is_decode_failed() {
    let r = interpret_response(200, "this is not json");
    assert!(matches!(r, Err(FetchError::DecodeFailed(_))));
}

#[test]
fn rejection_is_distinguishable_from_transport_and_decode_failures() {
    let rejected = interpret_response(403, MINIMAL_BODY).unwrap_err();
    let decode = interpret_response(200, "{").unwrap_err();
    let transport = FetchError::FetchFailed("connection refused".to_string());
    assert!(matches!(rejected, FetchError::RemoteRejected(403)));
    assert!(matches!(decode, FetchError::DecodeFailed(_)));
    assert!(matches!(transport, FetchError::FetchFailed(_)));
    assert_ne!(rejected, decode);
    assert_ne!(rejected, transport);
    assert_ne!(decode, transport);
}

#[test]
fn well_formed_body_on_success_decodes() {
    let r = interpret_response(200, MINIMAL_BODY).unwrap();
    assert_eq!(r.project_name, "demo");
    assert_eq!(r.count, 1);
    assert_eq!(r.pages.len(), 1);
    assert_eq!(r.pages[0].id, "p1");
}

#[test]
fn success_statuses_span_the_2xx_class() {
    assert!(interpret_response(204, MINIMAL_BODY).is_ok());
    assert!(interpret_response(299, MINIMAL_BODY).is_ok());
    assert!(matches!(interpret_response(199, MINIMAL_BODY), Err(FetchError::RemoteRejected(199))));
    assert!(matches!(interpret_response(300, MINIMAL_BODY), Err(FetchError::RemoteRejected(300))));
}

#[test]
fn rejection_note_mentions_privacy_and_what_was_attempted() {
    assert_eq!(
        rejection_note(true),
        "the project may be private; cookie authentication was attempted and rejected"
    );
    assert_eq!(
        rejection_note(false),
        "the project may be private; no credentials were available to attempt"
    );
}
