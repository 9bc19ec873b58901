//! The navigation event router: a pure relay from a session's own report of
//! a location or title change to the one notification handed to the parent
//! listener.
//!
//! Sessions report at their own cadence, including periodic self-polling, so
//! reports may be bursty and may repeat; the router neither buffers nor
//! coalesces nor deduplicates. Every report becomes exactly one outbound
//! notification, built here; the host application performs the actual
//! best-effort, fire-and-forget delivery. Delivery can race with the session
//! registry being updated, so a listener that needs the authoritative
//! current location must ask the registry, not rely on having seen every
//! event.

use vstd::prelude::*;

verus! {

/// A navigation report from one session: its key, location and title.
#[derive(Clone, PartialEq, Eq, Debug)]
pub struct NavigationEvent {
    pub window_label: String,
    pub url: String,
    pub title: String,
}

/// The channel on which a notification is re-emitted to the parent listener.
#[derive(Clone, Copy, PartialEq, Eq, Structural, Debug)]
pub enum EventChannel {
    /// A session navigated: the parent should record the location in its
    /// recent history.
    AddToRecent,
    /// A session's title changed: the parent should retitle its recent
    /// entry.
    UpdateRecentTitle,
}

/// One outbound notification: exactly what the router hands the parent.
#[derive(Clone, PartialEq, Eq, Debug)]
pub struct Outbound {
    pub channel: EventChannel,
    pub event: NavigationEvent,
}

/// The wire name of the channel, as the parent listener subscribes to it.
pub fn channel_name(c: EventChannel) -> (r: &'static str)
    ensures
        c == EventChannel::AddToRecent ==> r@ == "add-to-recent"@,
        c == EventChannel::UpdateRecentTitle ==> r@ == "update-recent-title"@,
{
    match c {
        EventChannel::AddToRecent => "add-to-recent",
        EventChannel::UpdateRecentTitle => "update-recent-title",
    }
}

/// Relay a "session navigated" report: exactly one outbound notification,
/// on the recent-history channel, carrying the report's fields unchanged.
pub fn route_navigation(window_label: String, url: String, title: String) -> (o: Outbound)
    ensures
        o.channel == EventChannel::AddToRecent,
        o.event.window_label == window_label,
        o.event.url == url,
        o.event.title == title,
{
    Outbound {
        channel: EventChannel::AddToRecent,
        event: NavigationEvent { window_label, url, title },
    }
}

/// Relay a "session title changed" report: exactly one outbound
/// notification, on the retitle channel, carrying the report's fields
/// unchanged.
pub fn route_title_update(window_label: String, url: String, title: String) -> (o: Outbound)
    ensures
        o.channel == EventChannel::UpdateRecentTitle,
        o.event.window_label == window_label,
        o.event.url == url,
        o.event.title == title,
{
    Outbound {
        channel: EventChannel::UpdateRecentTitle,
        event: NavigationEvent { window_label, url, title },
    }
}

} // verus!
