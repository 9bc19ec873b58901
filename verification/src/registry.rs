//! The session registry: the authoritative mapping of live session keys to
//! the location each session currently shows.
//!
//! Sessions are identified by an opaque string key; the registry holds at
//! most one entry per key. The host application serializes all access behind
//! one exclusion lock, so every operation here works on the whole registry
//! value at once; a reader can never observe a partially applied mutation.

use vstd::prelude::*;

verus! {

/// Why a registry operation could not be carried out.
#[derive(Clone, Copy, PartialEq, Eq, Structural, Debug)]
pub enum RegistryError {
    /// The operation referenced a session key with no live entry.
    NotFound,
}

/// Registry of live sessions. Each entry pairs a session key with the URI
/// that session currently shows, and no two entries share a key.
pub struct Registry {
    entries: Vec<(String, String)>,
}

/// No two entries of `s` share a key.
pub open spec fn distinct_keys(s: Seq<(String, String)>) -> bool {
    forall|i: int, j: int| 0 <= i < j < s.len() ==> s[i].0@ != s[j].0@
}

/// The map that a sequence of (key, uri) entries denotes: a later entry for
/// the same key overrides an earlier one.
pub open spec fn entries_map(s: Seq<(String, String)>) -> Map<Seq<char>, Seq<char>>
    decreases s.len(),
{
    if s.len() == 0 {
        Map::empty()
    } else {
        entries_map(s.drop_last()).insert(s.last().0@, s.last().1@)
    }
}

/// A key is in the denoted map exactly when some entry carries it.
proof fn lemma_entries_map_contains(s: Seq<(String, String)>, k: Seq<char>)
    ensures
        entries_map(s).contains_key(k) <==> exists|i: int| 0 <= i < s.len() && s[i].0@ == k,
    decreases s.len(),
{
    if s.len() > 0 {
        lemma_entries_map_contains(s.drop_last(), k);
        if s.last().0@ == k {
            assert(s[s.len() - 1].0@ == k);
        } else {
            if entries_map(s).contains_key(k) {
                let i = choose|i: int| 0 <= i < s.drop_last().len() && s.drop_last()[i].0@ == k;
                assert(s[i].0@ == k);
            }
            if exists|i: int| 0 <= i < s.len() && s[i].0@ == k {
                let i = choose|i: int| 0 <= i < s.len() && s[i].0@ == k;
                assert(s.drop_last()[i].0@ == k);
            }
        }
    }
}

/// With distinct keys, the entry at index `i` gives the map's value at its key.
proof fn lemma_entries_map_index(s: Seq<(String, String)>, i: int)
    requires
        distinct_keys(s),
        0 <= i < s.len(),
    ensures
        entries_map(s).contains_key(s[i].0@),
        entries_map(s)[s[i].0@] == s[i].1@,
    decreases s.len(),
{
    if i == s.len() - 1 {
    } else {
        assert(distinct_keys(s.drop_last())) by {
            assert(forall|p: int, q: int|
                0 <= p < q < s.drop_last().len() ==> s.drop_last()[p].0@ == s[p].0@
                    && s.drop_last()[q].0@ == s[q].0@);
        }
        lemma_entries_map_index(s.drop_last(), i);
        assert(s.drop_last()[i] == s[i]);
        assert(s[i].0@ != s.last().0@);
    }
}

/// Overwriting the uri of the entry that carries key `e.0` inserts into the
/// denoted map.
proof fn lemma_entries_map_update(s: Seq<(String, String)>, i: int, e: (String, String))
    requires
        distinct_keys(s),
        0 <= i < s.len(),
        e.0@ == s[i].0@,
    ensures
        entries_map(s.update(i, e)) == entries_map(s).insert(e.0@, e.1@),
    decreases s.len(),
{
    let t = s.update(i, e);
    if i == s.len() - 1 {
        assert(t.drop_last() =~= s.drop_last());
        assert(entries_map(t) =~= entries_map(s).insert(e.0@, e.1@));
    } else {
        assert(distinct_keys(s.drop_last())) by {
            assert(forall|p: int, q: int|
                0 <= p < q < s.drop_last().len() ==> s.drop_last()[p].0@ == s[p].0@
                    && s.drop_last()[q].0@ == s[q].0@);
        }
        lemma_entries_map_update(s.drop_last(), i, e);
        assert(t.drop_last() =~= s.drop_last().update(i, e));
        assert(t.last() == s.last());
        assert(s[i].0@ != s.last().0@);
        assert(entries_map(t) =~= entries_map(s).insert(e.0@, e.1@));
    }
}

/// Removing the entry at index `i` removes its key from the denoted map.
proof fn lemma_entries_map_remove(s: Seq<(String, String)>, i: int)
    requires
        distinct_keys(s),
        0 <= i < s.len(),
    ensures
        entries_map(s.remove(i)) == entries_map(s).remove(s[i].0@),
    decreases s.len(),
{
    let t = s.remove(i);
    assert(distinct_keys(s.drop_last())) by {
        assert(forall|p: int, q: int|
            0 <= p < q < s.drop_last().len() ==> s.drop_last()[p].0@ == s[p].0@
                && s.drop_last()[q].0@ == s[q].0@);
    }
    if i == s.len() - 1 {
        assert(t =~= s.drop_last());
        lemma_entries_map_contains(s.drop_last(), s[i].0@);
        assert(forall|j: int| 0 <= j < s.drop_last().len() ==> s.drop_last()[j].0@ == s[j].0@);
        assert(!entries_map(s.drop_last()).contains_key(s[i].0@));
        assert(entries_map(t) =~= entries_map(s).remove(s[i].0@));
    } else {
        lemma_entries_map_remove(s.drop_last(), i);
        assert(t.drop_last() =~= s.drop_last().remove(i));
        assert(t.last() == s.last());
        assert(s[i].0@ != s.last().0@);
        assert(entries_map(t) =~= entries_map(s).remove(s[i].0@));
    }
}

impl Registry {
    /// The sequence of (key, uri) entries, in the registry's iteration order.
    pub closed spec fn entries_seq(self) -> Seq<(String, String)> {
        self.entries@
    }

    /// The registry as a map from session key to current uri: its
    /// mathematical model.
    pub open spec fn as_map(self) -> Map<Seq<char>, Seq<char>> {
        entries_map(self.entries_seq())
    }

    /// Well-formed: at most one entry per key.
    pub open spec fn wf(self) -> bool {
        distinct_keys(self.entries_seq())
    }

    /// An empty registry: no live sessions.
    pub fn new() -> (r: Registry)
        ensures
            r.wf(),
            r.as_map() == Map::<Seq<char>, Seq<char>>::empty(),
            r.entries_seq().len() == 0,
    {
        Registry { entries: Vec::new() }
    }

    /// The index of the entry that carries `key`, if one is live.
    fn find(&self, key: &String) -> (r: Option<usize>)
        requires
            self.wf(),
        ensures
            match r {
                Some(i) => i < self.entries_seq().len() && self.entries_seq()[i as int].0@ == key@
                    && self.as_map().contains_key(key@),
                None => !self.as_map().contains_key(key@),
            },
    {
        let n = self.entries.len();
        let mut i: usize = 0;
        while i < n
            invariant
                n == self.entries_seq().len(),
                i <= n,
                forall|j: int| 0 <= j < i ==> self.entries_seq()[j].0@ != key@,
                self.wf(),
            decreases n - i,
        {
            if self.entries[i].0 == *key {
                proof {
                    lemma_entries_map_contains(self.entries_seq(), key@);
                    assert(self.entries_seq()[i as int].0@ == key@);
                }
                return Some(i);
            }
            i += 1;
        }
        proof {
            lemma_entries_map_contains(self.entries_seq(), key@);
        }
        None
    }

    /// Whether a session with this key is live.
    pub fn contains(&self, key: &String) -> (r: bool)
        requires
            self.wf(),
        ensures
            r == self.as_map().contains_key(key@),
    {
        self.find(key).is_some()
    }

    /// Insert the session, or overwrite the location of an already-open one.
    pub fn open(&mut self, key: String, uri: String)
        requires
            old(self).wf(),
        ensures
            final(self).wf(),
            final(self).as_map() == old(self).as_map().insert(key@, uri@),
    {
        match self.find(&key) {
            Some(i) => {
                proof {
                    lemma_entries_map_update(
                        self.entries_seq(),
                        i as int,
                        (key, uri),
                    );
                }
                self.entries[i] = (key, uri);
                assert(self.wf()) by {
                    let s0 = old(self).entries_seq();
                    let s1 = self.entries_seq();
                    assert forall|p: int, q: int| 0 <= p < q < s1.len() implies s1[p].0@
                        != s1[q].0@ by {
                        assert(s1[p].0@ == s0[p].0@ && s1[q].0@ == s0[q].0@);
                    }
                }
            },
            None => {
                proof {
                    let s = self.entries_seq().push((key, uri));
                    assert(s.drop_last() =~= self.entries_seq());
                    lemma_entries_map_contains(self.entries_seq(), key@);
                }
                self.entries.push((key, uri));
                assert(self.wf()) by {
                    let s0 = old(self).entries_seq();
                    let s1 = self.entries_seq();
                    assert forall|p: int, q: int| 0 <= p < q < s1.len() implies s1[p].0@
                        != s1[q].0@ by {
                        if q < s1.len() - 1 {
                            assert(s1[p].0@ == s0[p].0@ && s1[q].0@ == s0[q].0@);
                        } else {
                            assert(s1[p].0@ == s0[p].0@);
                        }
                    }
                }
            },
        }
    }

    /// Remove the session; a no-op if the key is not live.
    pub fn close(&mut self, key: &String)
        requires
            old(self).wf(),
        ensures
            final(self).wf(),
            final(self).as_map() == old(self).as_map().remove(key@),
    {
        match self.find(key) {
            Some(i) => {
                proof {
                    lemma_entries_map_remove(self.entries_seq(), i as int);
                }
                self.entries.remove(i);
            },
            None => {
                proof {
                    lemma_entries_map_contains(self.entries_seq(), key@);
                    assert(self.as_map() =~= self.as_map().remove(key@));
                }
            },
        }
    }

    /// Overwrite the location of a live session; `NotFound`, with the
    /// registry unchanged, if the key is not live.
    pub fn navigate(&mut self, key: &String, uri: String) -> (r: Result<(), RegistryError>)
        requires
            old(self).wf(),
        ensures
            final(self).wf(),
            match r {
                Ok(()) => old(self).as_map().contains_key(key@) && final(self).as_map()
                    == old(self).as_map().insert(key@, uri@),
                Err(e) => e == RegistryError::NotFound && !old(self).as_map().contains_key(key@)
                    && *final(self) == *old(self),
            },
    {
        match self.find(key) {
            Some(i) => {
                let k = self.entries[i].0.clone();
                proof {
                    lemma_entries_map_update(self.entries_seq(), i as int, (k, uri));
                }
                self.entries[i] = (k, uri);
                assert(self.wf()) by {
                    let s0 = old(self).entries_seq();
                    let s1 = self.entries_seq();
                    assert forall|p: int, q: int| 0 <= p < q < s1.len() implies s1[p].0@
                        != s1[q].0@ by {
                        assert(s1[p].0@ == s0[p].0@ && s1[q].0@ == s0[q].0@);
                    }
                }
                Ok(())
            },
            None => Err(RegistryError::NotFound),
        }
    }

    /// The current location of a live session; `NotFound` if the key is not
    /// live.
    pub fn locate(&self, key: &String) -> (r: Result<String, RegistryError>)
        requires
            self.wf(),
        ensures
            match r {
                Ok(u) => self.as_map().contains_key(key@) && u@ == self.as_map()[key@],
                Err(e) => e == RegistryError::NotFound && !self.as_map().contains_key(key@),
            },
    {
        match self.find(key) {
            Some(i) => {
                proof {
                    lemma_entries_map_index(self.entries_seq(), i as int);
                }
                Ok(self.entries[i].1.clone())
            },
            None => Err(RegistryError::NotFound),
        }
    }

    /// Validate that a session exists before the host moves focus to it: a
    /// read-only transition check with no effect on the registry.
    pub fn switch_to(&self, key: &String) -> (r: Result<(), RegistryError>)
        requires
            self.wf(),
        ensures
            match r {
                Ok(()) => self.as_map().contains_key(key@),
                Err(e) => e == RegistryError::NotFound && !self.as_map().contains_key(key@),
            },
    {
        match self.find(key) {
            Some(_) => Ok(()),
            None => Err(RegistryError::NotFound),
        }
    }

    /// All live sessions as (key, uri) pairs, in the registry's iteration
    /// order.
    pub fn list(&self) -> (r: Vec<(String, String)>)
        ensures
            r@ == self.entries_seq(),
    {
        let n = self.entries.len();
        let mut out: Vec<(String, String)> = Vec::new();
        let mut i: usize = 0;
        while i < n
            invariant
                n == self.entries_seq().len(),
                i <= n,
                out@ =~= self.entries_seq().take(i as int),
            decreases n - i,
        {
            let k = self.entries[i].0.clone();
            let u = self.entries[i].1.clone();
            out.push((k, u));
            proof {
                assert(self.entries_seq().take(i + 1) =~= self.entries_seq().take(i as int).push(
                    self.entries_seq()[i as int],
                ));
            }
            i += 1;
        }
        proof {
            assert(self.entries_seq().take(n as int) =~= self.entries_seq());
        }
        out
    }

    /// Every listed pair is live at its listed location, and every live key
    /// is listed: `list` agrees with the registry's map model.
    pub proof fn lemma_list_complete(self)
        requires
            self.wf(),
        ensures
            forall|i: int| 0 <= i < self.entries_seq().len()
                ==> self.as_map().contains_key(#[trigger] self.entries_seq()[i].0@)
                    && self.as_map()[self.entries_seq()[i].0@] == self.entries_seq()[i].1@,
            forall|k: Seq<char>| self.as_map().contains_key(k)
                ==> exists|i: int| 0 <= i < self.entries_seq().len()
                    && #[trigger] self.entries_seq()[i].0@ == k,
    {
        assert forall|i: int| 0 <= i < self.entries_seq().len() implies self.as_map().contains_key(
            #[trigger] self.entries_seq()[i].0@,
        ) && self.as_map()[self.entries_seq()[i].0@] == self.entries_seq()[i].1@ by {
            lemma_entries_map_index(self.entries_seq(), i);
        }
        assert forall|k: Seq<char>| self.as_map().contains_key(k) implies exists|i: int|
            0 <= i < self.entries_seq().len() && #[trigger] self.entries_seq()[i].0@ == k by {
            lemma_entries_map_contains(self.entries_seq(), k);
        }
    }
}

/// One registry command, as the lifecycle controller issues them.
pub enum RegistryCommand {
    Open { key: Seq<char>, uri: Seq<char> },
    Close { key: Seq<char> },
    Navigate { key: Seq<char>, uri: Seq<char> },
}

/// The registry map after one command: exactly what `open`, `close` and
/// `navigate` promise.
pub open spec fn apply_command(
    m: Map<Seq<char>, Seq<char>>,
    c: RegistryCommand,
) -> Map<Seq<char>, Seq<char>> {
    match c {
        RegistryCommand::Open { key, uri } => m.insert(key, uri),
        RegistryCommand::Close { key } => m.remove(key),
        RegistryCommand::Navigate { key, uri } => if m.contains_key(key) {
            m.insert(key, uri)
        } else {
            m
        },
    }
}

/// The registry map after a whole command history.
pub open spec fn run_commands(
    m: Map<Seq<char>, Seq<char>>,
    cs: Seq<RegistryCommand>,
) -> Map<Seq<char>, Seq<char>>
    decreases cs.len(),
{
    if cs.len() == 0 {
        m
    } else {
        apply_command(run_commands(m, cs.drop_last()), cs.last())
    }
}

/// The most recent uri given for `key` since its last `open`: what a
/// history promises `locate` will answer. A `navigate` counts only while
/// the key is open, a `close` forgets the key.
pub open spec fn recent_uri(cs: Seq<RegistryCommand>, key: Seq<char>) -> Option<Seq<char>>
    decreases cs.len(),
{
    if cs.len() == 0 {
        None
    } else {
        let prev = recent_uri(cs.drop_last(), key);
        match cs.last() {
            RegistryCommand::Open { key: k, uri } => if k == key {
                Some(uri)
            } else {
                prev
            },
            RegistryCommand::Close { key: k } => if k == key {
                None
            } else {
                prev
            },
            RegistryCommand::Navigate { key: k, uri } => if k == key && prev is Some {
                Some(uri)
            } else {
                prev
            },
        }
    }
}

/// For every sequence of `open`/`close`/`navigate` commands run on an empty
/// registry, the registry's answer for a key is the most recent uri given
/// for it since its last `open` — or no entry at all, if it was never
/// opened or was closed since. With `locate`'s contract this is exactly
/// what `locate` returns after that history.
pub proof fn lemma_locate_follows_history(cs: Seq<RegistryCommand>, key: Seq<char>)
    ensures
        ({
            let m = run_commands(Map::empty(), cs);
            match recent_uri(cs, key) {
                Some(u) => m.contains_key(key) && m[key] == u,
                None => !m.contains_key(key),
            }
        }),
    decreases cs.len(),
{
    if cs.len() > 0 {
        lemma_locate_follows_history(cs.drop_last(), key);
    }
}

/// A `close` followed at once by a lookup of the same key finds no entry:
/// with `locate`'s contract, `locate` then answers `NotFound`.
pub proof fn lemma_close_then_locate(m: Map<Seq<char>, Seq<char>>, key: Seq<char>)
    ensures
        !apply_command(m, RegistryCommand::Close { key }).contains_key(key),
{
}

/// Two `open`s of distinct keys land both sessions in the registry with
/// their own locations, in whichever order the two callers' commands were
/// serialized.
pub proof fn lemma_independent_opens(
    m: Map<Seq<char>, Seq<char>>,
    ka: Seq<char>,
    ua: Seq<char>,
    kb: Seq<char>,
    ub: Seq<char>,
)
    requires
        ka != kb,
    ensures
        m.insert(ka, ua).insert(kb, ub).contains_key(ka),
        m.insert(ka, ua).insert(kb, ub).contains_key(kb),
        m.insert(ka, ua).insert(kb, ub)[ka] == ua,
        m.insert(ka, ua).insert(kb, ub)[kb] == ub,
        m.insert(ka, ua).insert(kb, ub) == m.insert(kb, ub).insert(ka, ua),
{
    assert(m.insert(ka, ua).insert(kb, ub) =~= m.insert(kb, ub).insert(ka, ua));
}

/// Two `navigate`s of one open key leave exactly the one that was
/// serialized last, with no third value observable.
pub proof fn lemma_conflicting_navigations(
    m: Map<Seq<char>, Seq<char>>,
    key: Seq<char>,
    u1: Seq<char>,
    u2: Seq<char>,
)
    ensures
        m.insert(key, u1).insert(key, u2) == m.insert(key, u2),
{
    assert(m.insert(key, u1).insert(key, u2) =~= m.insert(key, u2));
}

impl Default for Registry {
    /// An empty registry, as `Registry::new` gives.
    fn default() -> (r: Registry)
        ensures
            r.wf(),
            r.as_map() == Map::<Seq<char>, Seq<char>>::empty(),
    {
        Registry::new()
    }
}

} // verus!
