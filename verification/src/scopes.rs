//! Named permissions and their levels.
//!
//! A policy grants permissions and a request asks for them; both are a list
//! of `(name, level)` entries in which a name is looked up by its first
//! entry. The lists that this module builds never hold a name twice.

use vstd::prelude::*;

use crate::search::{first, lemma_first, lemma_first_at, lemma_first_none};
use crate::text::same_text;

verus! {

/// The entries of a scope map, in the order in which they were added.
pub type ScopeSeq = Seq<(Seq<char>, Seq<char>)>;

/// The level word `read`.
pub open spec fn read_word() -> Seq<char> {
    seq!['r', 'e', 'a', 'd']
}

/// The level word `write`.
pub open spec fn write_word() -> Seq<char> {
    seq!['w', 'r', 'i', 't', 'e']
}

/// Whether the entry at a position carries `name`.
pub open spec fn named(s: ScopeSeq, name: Seq<char>) -> spec_fn(int) -> bool {
    |i: int| s[i].0 == name
}

/// The position of the first entry under `name`.
pub open spec fn position_of(s: ScopeSeq, name: Seq<char>) -> Option<int> {
    first(s.len() as int, named(s, name))
}

/// The level that `s` records for `name`.
pub open spec fn level_of(s: ScopeSeq, name: Seq<char>) -> Option<Seq<char>> {
    match position_of(s, name) {
        Some(i) => Some(s[i].1),
        None => None,
    }
}

/// No name has two entries.
pub open spec fn names_distinct(s: ScopeSeq) -> bool {
    forall|i: int, j: int| 0 <= i < j < s.len() ==> (#[trigger] s[i]).0 != (#[trigger] s[j]).0
}

/// `s` after `name` was set to `level`: the entry under `name` is replaced
/// where there is one, and a new entry is added at the end where not.
pub open spec fn with_entry(s: ScopeSeq, name: Seq<char>, level: Seq<char>) -> ScopeSeq {
    match position_of(s, name) {
        Some(i) => s.update(i, (name, level)),
        None => s.push((name, level)),
    }
}

/// The two-level order of grants: `write` covers a request for `write` and
/// for `read`, `read` covers a request for `read`, and nothing else covers
/// anything.
pub open spec fn level_covers(granted: Seq<char>, requested: Seq<char>) -> bool {
    ||| granted == read_word() && requested == read_word()
    ||| granted == write_word() && requested == write_word()
    ||| granted == write_word() && requested == read_word()
}

/// Whether `grants` allow `name` at `level`: the name must be granted, at a
/// level that covers the one asked for.
pub open spec fn scope_allowed(grants: ScopeSeq, name: Seq<char>, level: Seq<char>) -> bool {
    match level_of(grants, name) {
        Some(granted) => level_covers(granted, level),
        None => false,
    }
}

/// An ordered map from permission name to level.
#[derive(Debug, PartialEq, Eq)]
pub struct ScopeMap {
    entries: Vec<(String, String)>,
}

impl View for ScopeMap {
    type V = ScopeSeq;

    closed spec fn view(&self) -> ScopeSeq {
        Seq::new(self.entries@.len(), |i: int| (self.entries@[i].0@, self.entries@[i].1@))
    }
}

impl Clone for ScopeMap {
    fn clone(&self) -> (r: ScopeMap)
        ensures
            r@ == self@,
    {
        let mut entries: Vec<(String, String)> = Vec::new();
        let n = self.entries.len();
        let mut i: usize = 0;
        while i < n
            invariant
                n == self.entries@.len(),
                i <= n,
                entries@.len() == i,
                forall|k: int|
                    0 <= k < i ==> (#[trigger] entries@[k]).0@ == self.entries@[k].0@
                        && entries@[k].1@ == self.entries@[k].1@,
            decreases n - i,
        {
            let name = self.entries[i].0.clone();
            let level = self.entries[i].1.clone();
            entries.push((name, level));
            i = i + 1;
        }
        let r = ScopeMap { entries };
        assert(r@ =~= self@);
        r
    }
}

impl ScopeMap {
    /// The map without entries.
    pub fn new() -> (r: ScopeMap)
        ensures
            r@ == Seq::<(Seq<char>, Seq<char>)>::empty(),
    {
        let r = ScopeMap { entries: Vec::new() };
        assert(r@ =~= Seq::<(Seq<char>, Seq<char>)>::empty());
        r
    }

    /// The number of entries.
    pub fn len(&self) -> (n: usize)
        ensures
            n == self@.len(),
    {
        self.entries.len()
    }

    /// Whether there is no entry.
    pub fn is_empty(&self) -> (r: bool)
        ensures
            r == (self@.len() == 0),
    {
        self.entries.len() == 0
    }

    /// The name of the entry at position `i`.
    pub fn name_at(&self, i: usize) -> (name: &str)
        requires
            i < self@.len(),
        ensures
            name@ == self@[i as int].0,
    {
        self.entries[i].0.as_str()
    }

    /// The level of the entry at position `i`.
    pub fn level_at(&self, i: usize) -> (level: &str)
        requires
            i < self@.len(),
        ensures
            level@ == self@[i as int].1,
    {
        self.entries[i].1.as_str()
    }

    /// The position of the entry under `name`.
    pub fn position(&self, name: &str) -> (r: Option<usize>)
        ensures
            r matches Some(i) ==> position_of(self@, name@) == Some(i as int),
            r is None ==> position_of(self@, name@) is None,
    {
        let n = self.entries.len();
        let mut i: usize = 0;
        while i < n
            invariant
                n == self@.len(),
                i <= n,
                forall|k: int| 0 <= k < i ==> !#[trigger] named(self@, name@)(k),
            decreases n - i,
        {
            if same_text(self.entries[i].0.as_str(), name) {
                proof {
                    assert(named(self@, name@)(i as int));
                    lemma_first_at(n as int, named(self@, name@), i as int);
                }
                return Some(i);
            }
            assert(!named(self@, name@)(i as int));
            i = i + 1;
        }
        proof {
            lemma_first_none(n as int, named(self@, name@));
        }
        None
    }

    /// The level recorded for `name`.
    pub fn get(&self, name: &str) -> (r: Option<&str>)
        ensures
            r matches Some(level) ==> level_of(self@, name@) == Some(level@),
            r is None ==> level_of(self@, name@) is None,
    {
        match self.position(name) {
            Some(i) => {
                proof {
                    lemma_first(self@.len() as int, named(self@, name@));
                }
                Some(self.entries[i].1.as_str())
            },
            None => None,
        }
    }

    /// Sets `name` to `level` and returns the level that it replaces.
    pub fn insert(&mut self, name: String, level: String) -> (replaced: Option<String>)
        ensures
            final(self)@ == with_entry(old(self)@, name@, level@),
            replaced matches Some(l) ==> level_of(old(self)@, name@) == Some(l@),
            replaced is None ==> level_of(old(self)@, name@) is None,
    {
        match self.position(name.as_str()) {
            Some(i) => {
                proof {
                    lemma_first(self@.len() as int, named(self@, name@));
                }
                let replaced = self.entries[i].1.clone();
                self.entries.set(i, (name, level));
                assert(self@ =~= old(self)@.update(i as int, (name@, level@)));
                Some(replaced)
            },
            None => {
                self.entries.push((name, level));
                assert(self@ =~= old(self)@.push((name@, level@)));
                None
            },
        }
    }

    /// Whether the map, read as grants, allows `name` at `level`.
    pub fn allows(&self, name: &str, level: &str) -> (r: bool)
        ensures
            r == scope_allowed(self@, name@, level@),
    {
        proof {
            reveal_strlit("read");
            reveal_strlit("write");
        }
        assert("read"@ =~= read_word());
        assert("write"@ =~= write_word());
        match self.get(name) {
            Some(granted) => {
                (same_text(granted, "read") && same_text(level, "read")) || (same_text(
                    granted,
                    "write",
                ) && same_text(level, "write")) || (same_text(granted, "write") && same_text(
                    level,
                    "read",
                ))
            },
            None => false,
        }
    }
}

/// Setting a name keeps the names distinct.
pub proof fn lemma_with_entry_distinct(s: ScopeSeq, name: Seq<char>, level: Seq<char>)
    requires
        names_distinct(s),
    ensures
        names_distinct(with_entry(s, name, level)),
{
    lemma_first(s.len() as int, named(s, name));
    let t = with_entry(s, name, level);
    match position_of(s, name) {
        Some(p) => {
            assert forall|i: int, j: int| 0 <= i < j < t.len() implies (#[trigger] t[i]).0 != (
            #[trigger] t[j]).0 by {
                assert(s[i].0 != s[j].0);
                assert(t[i].0 == s[i].0);
                assert(t[j].0 == s[j].0);
            }
        },
        None => {
            assert forall|i: int, j: int| 0 <= i < j < t.len() implies (#[trigger] t[i]).0 != (
            #[trigger] t[j]).0 by {
                if j < s.len() {
                    assert(s[i].0 != s[j].0);
                } else {
                    assert(!named(s, name)(i));
                }
            }
        },
    }
}

/// After a name was set, it is found at the level it was set to, and every
/// other name is found as before.
pub proof fn lemma_with_entry_lookup(
    s: ScopeSeq,
    name: Seq<char>,
    level: Seq<char>,
    other: Seq<char>,
)
    ensures
        level_of(with_entry(s, name, level), name) == Some(level),
        other != name ==> level_of(with_entry(s, name, level), other) == level_of(s, other),
{
    let t = with_entry(s, name, level);
    lemma_first(s.len() as int, named(s, name));
    lemma_first(s.len() as int, named(s, other));
    match position_of(s, name) {
        Some(p) => {
            assert(named(t, name)(p));
            assert forall|k: int| 0 <= k < p implies !#[trigger] named(t, name)(k) by {
                assert(!named(s, name)(k));
            }
            lemma_first_at(t.len() as int, named(t, name), p);
        },
        None => {
            let p = s.len() as int;
            assert(named(t, name)(p));
            assert forall|k: int| 0 <= k < p implies !#[trigger] named(t, name)(k) by {
                assert(!named(s, name)(k));
            }
            lemma_first_at(t.len() as int, named(t, name), p);
        },
    }
    if other != name {
        match position_of(s, other) {
            Some(q) => {
                assert(named(s, other)(q));
                assert(t[q] == s[q]);
                assert(named(t, other)(q));
                assert forall|k: int| 0 <= k < q implies !#[trigger] named(t, other)(k) by {
                    assert(!named(s, other)(k));
                }
                lemma_first_at(t.len() as int, named(t, other), q);
            },
            None => {
                assert forall|k: int| 0 <= k < t.len() implies !#[trigger] named(t, other)(k) by {
                    if k < s.len() {
                        assert(!named(s, other)(k));
                    }
                }
                lemma_first_none(t.len() as int, named(t, other));
            },
        }
    }
}

} // verus!
