//! The credential bridge: given the per-session credential sets that the
//! windowing host reported for a target origin, pick the one set that an
//! out-of-band call should borrow, and render it as a cookie header.
//!
//! The host owns each session's cookie store, so the bridge never caches:
//! the caller asks the host for every live session's credentials at lookup
//! time and hands them here as plain values. A designated primary session is
//! consulted first; otherwise the remaining sessions are scanned in registry
//! iteration order and the first non-empty set wins. An empty result is not
//! an error: it means "proceed unauthenticated".

use vstd::prelude::*;

verus! {

/// One cookie-style credential: a name and a value, valid for one origin.
#[derive(Clone, PartialEq, Eq, Debug)]
pub struct Credential {
    pub name: String,
    pub value: String,
}

impl DeepView for Credential {
    type V = (Seq<char>, Seq<char>);

    open spec fn deep_view(&self) -> (Seq<char>, Seq<char>) {
        (self.name@, self.value@)
    }
}

/// The first non-empty credential set at or after index `i`, or the empty
/// set if every remaining one is empty.
pub open spec fn sp_first_nonempty(
    sets: Seq<Seq<(Seq<char>, Seq<char>)>>,
    i: int,
) -> Seq<(Seq<char>, Seq<char>)>
    decreases sets.len() - i,
{
    if i < 0 || i >= sets.len() {
        Seq::empty()
    } else if sets[i].len() > 0 {
        sets[i]
    } else {
        sp_first_nonempty(sets, i + 1)
    }
}

/// What a harvest yields: the primary session's set when it is non-empty,
/// else the first non-empty set of the others, else the empty set.
pub open spec fn sp_harvest(
    primary: Option<Seq<(Seq<char>, Seq<char>)>>,
    others: Seq<Seq<(Seq<char>, Seq<char>)>>,
) -> Seq<(Seq<char>, Seq<char>)> {
    match primary {
        Some(p) => if p.len() > 0 {
            p
        } else {
            sp_first_nonempty(others, 0)
        },
        None => sp_first_nonempty(others, 0),
    }
}

/// Pick the credential set an authenticated call should borrow.
///
/// `primary` is the designated primary session's set for the target origin,
/// if that session is live; `others` are the remaining live sessions' sets
/// in registry iteration order. The result is never an error: when no
/// session holds a credential it is simply empty.
pub fn harvest(primary: Option<Vec<Credential>>, others: Vec<Vec<Credential>>) -> (r: Vec<
    Credential,
>)
    ensures
        r.deep_view() == sp_harvest(primary.deep_view(), others.deep_view()),
{
    match primary {
        Some(p) => {
            if p.len() > 0 {
                p
            } else {
                first_nonempty(others)
            }
        },
        None => first_nonempty(others),
    }
}

/// The first non-empty set, in order; empty if there is none.
fn first_nonempty(others: Vec<Vec<Credential>>) -> (r: Vec<Credential>)
    ensures
        r.deep_view() == sp_first_nonempty(others.deep_view(), 0),
{
    let ghost d0 = others.deep_view();
    let mut rest = others;
    let n = rest.len();
    let mut i: usize = 0;
    while i < n
        invariant
            others.deep_view() == d0,
            rest.deep_view() == d0,
            n == rest@.len(),
            i <= n,
            sp_first_nonempty(d0, 0) == sp_first_nonempty(d0, i as int),
        decreases n - i,
    {
        if rest[i].len() > 0 {
            proof {
                assert(d0[i as int] == rest@[i as int].deep_view());
                assert(d0[i as int].len() > 0);
                assert(sp_first_nonempty(d0, i as int) == d0[i as int]);
            }
            let r = rest.swap_remove(i);
            assert(r.deep_view() == d0[i as int]);
            return r;
        }
        proof {
            assert(d0[i as int] == rest@[i as int].deep_view());
        }
        i += 1;
    }
    Vec::new()
}

/// The cookie header line for a credential set: `name=value` pairs joined
/// with `"; "`, over the first `n` credentials.
pub open spec fn sp_cookie_join(s: Seq<(Seq<char>, Seq<char>)>, n: int) -> Seq<char>
    decreases n,
{
    if n <= 0 {
        Seq::empty()
    } else {
        sp_cookie_join(s, n - 1) + (if n > 1 {
            "; "@
        } else {
            Seq::empty()
        }) + s[n - 1].0 + "="@ + s[n - 1].1
    }
}

/// Render the harvested set as a `Cookie` header value: `Some` of the
/// joined pairs when the set is non-empty, `None` (send no header) when it
/// is empty.
pub fn cookie_header(set: &Vec<Credential>) -> (r: Option<String>)
    ensures
        match r {
            Some(h) => set@.len() > 0 && h@ == sp_cookie_join(
                set.deep_view(),
                set@.len() as int,
            ),
            None => set@.len() == 0,
        },
{
    if set.len() == 0 {
        return None;
    }
    let n = set.len();
    let mut out = String::new();
    let mut i: usize = 0;
    while i < n
        invariant
            n == set@.len(),
            i <= n,
            out@ == sp_cookie_join(set.deep_view(), i as int),
        decreases n - i,
    {
        if i > 0 {
            crate::text::push_str(&mut out, "; ");
        }
        crate::text::push_str(&mut out, set[i].name.as_str());
        crate::text::push_str(&mut out, "=");
        crate::text::push_str(&mut out, set[i].value.as_str());
        proof {
            assert(set.deep_view()[i as int] == (set@[i as int].name@, set@[i as int].value@));
            assert(out@ =~= sp_cookie_join(set.deep_view(), i as int + 1));
        }
        i += 1;
    }
    Some(out)
}

} // verus!
