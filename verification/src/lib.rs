//! Session coordination for a multi-window wiki browser.
//!
//! The crate keeps the authoritative registry of live browsing sessions,
//! relays navigation reports from child sessions to a parent listener,
//! harvests authentication cookies from whichever session holds them, and
//! builds and interprets the authenticated page-listing call against the
//! remote wiki service. The windowing host and the HTTP transport are
//! external collaborators: they hand this crate plain values and take plain
//! values back.

pub mod client;
pub mod credentials;
pub mod json;
pub mod pages;
pub mod registry;
pub mod router;
pub mod text;
