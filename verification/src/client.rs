//! The external resource client: builds the one authenticated GET against
//! the remote wiki service's page listing, and interprets what came back.
//!
//! The transport itself is a capability of the host application ("send GET
//! with optional Cookie header, receive status and body"); this module
//! decides exactly which URL is requested, which header is attached, and
//! what every (status, body) answer means. The call is terminal: no retry
//! lives here, and no timeout — the caller supplies one.

use vstd::prelude::*;
use crate::credentials::{sp_cookie_join, cookie_header, Credential};
use crate::pages::{sp_decode_page_set, ExternalPageSet};
use crate::text::{push_decimal, push_str, sp_dec};

verus! {

/// Skip this many pages when the caller does not say.
pub const DEFAULT_SKIP: u64 = 0;

/// Fetch this many pages when the caller does not say.
pub const DEFAULT_LIMIT: u64 = 20;

/// How a page fetch can fail. All three are terminal for the call and
/// recoverable by the caller; none aborts the process.
#[derive(Clone, PartialEq, Eq, Debug)]
pub enum FetchError {
    /// The transport could not complete the exchange at all.
    FetchFailed(String),
    /// The remote answered with a non-success status. It commonly means the
    /// project is private and the harvested credentials were insufficient
    /// or absent.
    RemoteRejected(u16),
    /// The response body did not decode as a page set.
    DecodeFailed(String),
}

/// One planned page-listing exchange: the URL to request and the Cookie
/// header to attach, if any.
pub struct PageRequest {
    pub url: String,
    pub cookie: Option<String>,
}

/// The sort order sent when the caller does not name one.
pub open spec fn sp_default_sort() -> Seq<char> {
    "updated"@
}

/// The page-listing URL: `{base}/api/pages/{project}` with the `skip`,
/// `limit` and `sort` query parameters.
pub open spec fn sp_pages_url(
    base: Seq<char>,
    project: Seq<char>,
    skip: u64,
    limit: u64,
    sort: Seq<char>,
) -> Seq<char> {
    base + "/api/pages/"@ + project + "?skip="@ + sp_dec(skip as nat) + "&limit="@ + sp_dec(
        limit as nat,
    ) + "&sort="@ + sort
}

/// Plan the page-listing exchange for `project`.
///
/// Unspecified query parameters take the documented defaults: skip 0,
/// limit 20, sort `updated`. The Cookie header joins the harvested
/// credential set and is attached exactly when that set is non-empty.
pub fn build_pages_request(
    base: &str,
    project: &str,
    skip: Option<u64>,
    limit: Option<u64>,
    sort: Option<&str>,
    creds: &Vec<Credential>,
) -> (r: PageRequest)
    ensures
        r.url@ == sp_pages_url(
            base@,
            project@,
            match skip {
                Some(s) => s,
                None => DEFAULT_SKIP,
            },
            match limit {
                Some(l) => l,
                None => DEFAULT_LIMIT,
            },
            match sort {
                Some(s) => s@,
                None => sp_default_sort(),
            },
        ),
        match r.cookie {
            Some(h) => creds@.len() > 0 && h@ == sp_cookie_join(
                creds.deep_view(),
                creds@.len() as int,
            ),
            None => creds@.len() == 0,
        },
{
    let mut url = String::new();
    push_str(&mut url, base);
    push_str(&mut url, "/api/pages/");
    push_str(&mut url, project);
    push_str(&mut url, "?skip=");
    push_decimal(
        &mut url,
        match skip {
            Some(s) => s,
            None => DEFAULT_SKIP,
        },
    );
    push_str(&mut url, "&limit=");
    push_decimal(
        &mut url,
        match limit {
            Some(l) => l,
            None => DEFAULT_LIMIT,
        },
    );
    push_str(&mut url, "&sort=");
    match sort {
        Some(s) => push_str(&mut url, s),
        None => push_str(&mut url, "updated"),
    }
    let cookie = cookie_header(creds);
    PageRequest { url, cookie }
}

/// Whether an HTTP status is a success answer.
pub open spec fn is_success_status(status: u16) -> bool {
    200 <= status < 300
}

/// Interpret the remote's answer to a planned page-listing exchange.
///
/// A non-success status is `RemoteRejected` with that status; a success
/// status whose body does not decode as a page set is `DecodeFailed`; a
/// success status with a well-formed body is the decoded page set.
/// `FetchFailed` never arises here: it belongs to the transport, which
/// reports it before there is any answer to interpret.
pub fn interpret_response(status: u16, body: &str) -> (r: Result<ExternalPageSet, FetchError>)
    ensures
        match r {
            Ok(ps) => is_success_status(status) && sp_decode_page_set(body@) == Some(
                ps.deep_view(),
            ),
            Err(FetchError::RemoteRejected(s)) => s == status && !is_success_status(status),
            Err(FetchError::DecodeFailed(_)) => is_success_status(status) && sp_decode_page_set(
                body@,
            ) is None,
            Err(FetchError::FetchFailed(_)) => false,
        },
{
    if status < 200 || status >= 300 {
        return Err(FetchError::RemoteRejected(status));
    }
    match crate::pages::decode_page_set(body) {
        Some(ps) => Ok(ps),
        None => Err(FetchError::DecodeFailed(
            "response body did not decode as a page set".to_owned(),
        )),
    }
}

/// The user-facing note for a rejected exchange: the target project may be
/// private, and whether cookie authentication was attempted depends on
/// whether any credentials were harvested.
pub fn rejection_note(attempted_auth: bool) -> (r: String)
    ensures
        attempted_auth ==> r@ == "the project may be private; cookie authentication was attempted and rejected"@,
        !attempted_auth ==> r@ == "the project may be private; no credentials were available to attempt"@,
{
    if attempted_auth {
        "the project may be private; cookie authentication was attempted and rejected".to_owned()
    } else {
        "the project may be private; no credentials were available to attempt".to_owned()
    }
}

} // verus!
