//! The first position at which something holds.
//!
//! Several rules of the broker pick "the first that ...": the first entry
//! under a name, the first permission that is refused, the first policy that
//! accepts a token. They share this definition.

use vstd::prelude::*;

verus! {

/// `i` is the least position below `n` at which `p` holds.
pub open spec fn is_first(n: int, p: spec_fn(int) -> bool, i: int) -> bool {
    &&& 0 <= i < n
    &&& p(i)
    &&& forall|k: int| 0 <= k < i ==> !#[trigger] p(k)
}

/// The least position below `n` at which `p` holds, if there is one.
pub open spec fn first(n: int, p: spec_fn(int) -> bool) -> Option<int> {
    if exists|i: int| is_first(n, p, i) {
        Some(choose|i: int| is_first(n, p, i))
    } else {
        None
    }
}

/// A least position is the only one.
pub proof fn lemma_first_at(n: int, p: spec_fn(int) -> bool, i: int)
    requires
        is_first(n, p, i),
    ensures
        first(n, p) == Some(i),
{
    let c = choose|c: int| is_first(n, p, c);
    assert(is_first(n, p, c));
    if c < i {
        assert(!p(c));
    }
    if i < c {
        assert(!p(i));
    }
}

/// Where `p` holds somewhere at or below `k`, it holds at a least position.
proof fn lemma_least_exists(n: int, p: spec_fn(int) -> bool, k: int)
    requires
        0 <= k < n,
        p(k),
    ensures
        exists|i: int| is_first(n, p, i) && i <= k,
    decreases k,
{
    if forall|j: int| 0 <= j < k ==> !#[trigger] p(j) {
        assert(is_first(n, p, k));
    } else {
        let j = choose|j: int| 0 <= j < k && #[trigger] p(j);
        lemma_least_exists(n, p, j);
    }
}

/// What `first` returns, spelled out: a least position, or nothing where `p`
/// holds nowhere below `n`.
pub proof fn lemma_first(n: int, p: spec_fn(int) -> bool)
    ensures
        first(n, p) matches Some(i) ==> is_first(n, p, i),
        first(n, p) is None ==> forall|k: int| 0 <= k < n ==> !#[trigger] p(k),
{
    if first(n, p) is None {
        assert forall|k: int| 0 <= k < n implies !#[trigger] p(k) by {
            if p(k) {
                lemma_least_exists(n, p, k);
            }
        }
    }
}

/// Where `p` holds nowhere below `n`, there is no first position.
pub proof fn lemma_first_none(n: int, p: spec_fn(int) -> bool)
    requires
        forall|k: int| 0 <= k < n ==> !#[trigger] p(k),
    ensures
        first(n, p) is None,
{
    if exists|i: int| is_first(n, p, i) {
        let i = choose|i: int| is_first(n, p, i);
        assert(p(i));
    }
}

/// Where `p` holds somewhere below `n`, there is a first position.
pub proof fn lemma_first_exists(n: int, p: spec_fn(int) -> bool, k: int)
    requires
        0 <= k < n,
        p(k),
    ensures
        first(n, p) is Some,
{
    lemma_least_exists(n, p, k);
}

/// Two predicates that agree up to and including the first position of one
/// have the same first position.
pub proof fn lemma_first_agrees(n: int, p: spec_fn(int) -> bool, q: spec_fn(int) -> bool)
    requires
        forall|k: int|
            0 <= k < n && (first(n, p) matches Some(i) ==> k <= i) ==> #[trigger] p(k) == q(k),
    ensures
        first(n, p) == first(n, q),
{
    lemma_first(n, p);
    match first(n, p) {
        Some(i) => {
            assert(q(i) == p(i));
            assert forall|k: int| 0 <= k < i implies !#[trigger] q(k) by {
                assert(p(k) == q(k));
            }
            lemma_first_at(n, q, i);
        },
        None => {
            assert forall|k: int| 0 <= k < n implies !#[trigger] q(k) by {
                assert(p(k) == q(k));
            }
            lemma_first_none(n, q);
        },
    }
}

} // verus!
