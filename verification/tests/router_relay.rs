use scrapbridge::router::{channel_name, route_navigation, route_title_update, EventChannel};

#[test]
fn navigation_report_becomes_one_recent_history_event() {
    let o = route_navigation(
        "tab-1".to_string(),
        "https://example.org/page".to_string(),
        "A Page".to_string(),
    );
    assert_eq!(o.channel, EventChannel::AddToRecent);
    assert_eq!(o.event.window_label, "tab-1".to_string());
    assert_eq!(o.event.url, "https://example.org/page".to_string());
    assert_eq!(o.event.title, "A Page".to_string());
}

#[test]
fn title_report_becomes_one_retitle_event() {
    let o = route_title_update(
        "tab-2".to_string(),
        "https://example.org/else".to_string(),
        "Renamed".to_string(),
    );
    assert_eq!(o.channel, EventChannel::UpdateRecentTitle);
    assert_eq!(o.event.window_label, "tab-2".to_string());
    assert_eq!(o.event.url, "https://example.org/else".to_string());
    assert_eq!(o.event.title, "Renamed".to_string());
}

#[test]
fn duplicate_reports_are_relayed_not_deduplicated() {
    let a = route_navigation("t".to_string(), "u".to_string(), "x".to_string());
    let b = route_navigation("t".to_string(), "u".to_string(), "x".to_string());
    assert_eq!(a, b);
}

#[test]
fn channel_names_match_the_listener_subscriptions() {
    assert_eq!(channel_name(EventChannel::AddToRecent), "add-to-recent");
    assert_eq!(channel_name(EventChannel::UpdateRecentTitle), "update-recent-title");
}
