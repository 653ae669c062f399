//! Counting the indices of a range at which a predicate holds.
//!
//! Every derived figure of the ledger (points, issued counts, ranks, places on
//! the leaderboard) is such a count, so the ledger's contracts are stated over
//! [`tally`] and proved with the lemmas below.

use vstd::prelude::*;

verus! {

/// The number of indices `j` with `0 <= j < n` at which `p(j)` holds.
pub open spec fn tally(n: nat, p: spec_fn(int) -> bool) -> nat
    decreases n,
{
    if n == 0 {
        0
    } else {
        tally((n - 1) as nat, p) + if p(n - 1) { 1nat } else { 0nat }
    }
}

/// A count over `0..n` is at most `n`.
pub proof fn lemma_tally_bound(n: nat, p: spec_fn(int) -> bool)
    ensures
        tally(n, p) <= n,
    decreases n,
{
    if n > 0 {
        lemma_tally_bound((n - 1) as nat, p);
    }
}

/// Predicates that agree on `0..n` have the same count.
pub proof fn lemma_tally_agree(n: nat, p: spec_fn(int) -> bool, q: spec_fn(int) -> bool)
    requires
        forall|j: int| 0 <= j < n ==> #[trigger] p(j) == #[trigger] q(j),
    ensures
        tally(n, p) == tally(n, q),
    decreases n,
{
    if n > 0 {
        lemma_tally_agree((n - 1) as nat, p, q);
    }
}

/// A predicate that implies another on `0..n` has no larger a count.
pub proof fn lemma_tally_monotone(n: nat, p: spec_fn(int) -> bool, q: spec_fn(int) -> bool)
    requires
        forall|j: int| 0 <= j < n && #[trigger] p(j) ==> q(j),
    ensures
        tally(n, p) <= tally(n, q),
    decreases n,
{
    if n > 0 {
        lemma_tally_monotone((n - 1) as nat, p, q);
    }
}

/// A predicate that implies another on `0..n`, and fails at an index where the
/// other holds, has a strictly smaller count.
pub proof fn lemma_tally_strict(
    n: nat,
    p: spec_fn(int) -> bool,
    q: spec_fn(int) -> bool,
    w: int,
)
    requires
        forall|j: int| 0 <= j < n && #[trigger] p(j) ==> q(j),
        0 <= w < n,
        q(w),
        !p(w),
    ensures
        tally(n, p) < tally(n, q),
    decreases n,
{
    if w == n - 1 {
        lemma_tally_monotone((n - 1) as nat, p, q);
    } else {
        lemma_tally_strict((n - 1) as nat, p, q, w);
    }
}

/// A predicate that holds nowhere on `0..n` counts nothing.
pub proof fn lemma_tally_none(n: nat, p: spec_fn(int) -> bool)
    requires
        forall|j: int| 0 <= j < n ==> !#[trigger] p(j),
    ensures
        tally(n, p) == 0,
    decreases n,
{
    if n > 0 {
        lemma_tally_none((n - 1) as nat, p);
    }
}

/// A predicate that holds everywhere on `0..n` counts `n`.
pub proof fn lemma_tally_all(n: nat, p: spec_fn(int) -> bool)
    requires
        forall|j: int| 0 <= j < n ==> #[trigger] p(j),
    ensures
        tally(n, p) == n,
    decreases n,
{
    if n > 0 {
        lemma_tally_all((n - 1) as nat, p);
    }
}

/// Two predicates that differ on `0..n` at `w` alone, where only the second
/// holds, have counts one apart.
pub proof fn lemma_tally_gain(
    n: nat,
    p: spec_fn(int) -> bool,
    q: spec_fn(int) -> bool,
    w: int,
)
    requires
        0 <= w < n,
        !p(w),
        q(w),
        forall|j: int| 0 <= j < n && j != w ==> #[trigger] p(j) == #[trigger] q(j),
    ensures
        tally(n, q) == tally(n, p) + 1,
    decreases n,
{
    if w == n - 1 {
        lemma_tally_agree((n - 1) as nat, p, q);
    } else {
        lemma_tally_gain((n - 1) as nat, p, q, w);
    }
}

/// A predicate that holds at an index of `0..n` counts at least one.
pub proof fn lemma_tally_witness(n: nat, p: spec_fn(int) -> bool, w: int)
    requires
        0 <= w < n,
        p(w),
    ensures
        tally(n, p) >= 1,
    decreases n,
{
    if w != n - 1 {
        lemma_tally_witness((n - 1) as nat, p, w);
    }
}

} // verus!
