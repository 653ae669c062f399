//! Ordering entries by a key and taking the leading few.
//!
//! Entries are known by their index.  An entry leads another when its key is
//! greater; among equal keys the index decides, in the direction the caller
//! picks.  The place of an entry is the number of eligible entries that lead
//! it, so places start at 0 and no two eligible entries share one.

use vstd::prelude::*;
use crate::tally::{
    lemma_tally_agree, lemma_tally_gain, lemma_tally_monotone, lemma_tally_none, lemma_tally_strict,
    tally,
};

verus! {

/// Whether entry `a` comes before entry `b`: by the greater key, then by the
/// smaller index if `early_first`, else by the greater index.
pub open spec fn leads(keys: Seq<i64>, early_first: bool, a: int, b: int) -> bool {
    keys[a] > keys[b] || (keys[a] == keys[b] && if early_first {
        a < b
    } else {
        a > b
    })
}

/// The indices within range at which `flags` is set.
pub open spec fn marked(flags: Seq<bool>) -> spec_fn(int) -> bool {
    |j: int| 0 <= j < flags.len() && flags[j]
}

/// The eligible entries that lead entry `i`.
pub open spec fn precedes(keys: Seq<i64>, eligible: Seq<bool>, early_first: bool, i: int)
    -> spec_fn(int) -> bool {
    |j: int| 0 <= j < eligible.len() && eligible[j] && leads(keys, early_first, j, i)
}

/// The place of entry `i` in the order: how many eligible entries lead it.
pub open spec fn place_of(keys: Seq<i64>, eligible: Seq<bool>, early_first: bool, i: int) -> nat {
    tally(keys.len(), precedes(keys, eligible, early_first, i))
}

/// The number of eligible entries.
pub open spec fn eligible_count(eligible: Seq<bool>) -> nat {
    tally(eligible.len(), marked(eligible))
}

/// Whether `i` is the eligible entry at place `p`.
pub open spec fn holds_place(
    keys: Seq<i64>,
    eligible: Seq<bool>,
    early_first: bool,
    p: int,
    i: int,
) -> bool {
    &&& 0 <= i < keys.len()
    &&& eligible[i]
    &&& place_of(keys, eligible, early_first, i) == p
}

/// The eligible entry at place `p`.
pub open spec fn entry_at(keys: Seq<i64>, eligible: Seq<bool>, early_first: bool, p: int) -> int {
    choose|i: int| holds_place(keys, eligible, early_first, p, i)
}

/// The first `limit` eligible entries in order, or all of them if they are
/// fewer.
pub open spec fn leading(keys: Seq<i64>, eligible: Seq<bool>, early_first: bool, limit: nat)
    -> Seq<int> {
    let count = eligible_count(eligible);
    Seq::new(
        if limit < count { limit } else { count },
        |p: int| entry_at(keys, eligible, early_first, p),
    )
}

/// Of two different eligible entries, the one that leads has the smaller
/// place.
pub proof fn lemma_leader_is_placed_first(
    keys: Seq<i64>,
    eligible: Seq<bool>,
    early_first: bool,
    a: int,
    b: int,
)
    requires
        keys.len() == eligible.len(),
        0 <= a < keys.len(),
        0 <= b < keys.len(),
        eligible[a],
        leads(keys, early_first, a, b),
    ensures
        place_of(keys, eligible, early_first, a) < place_of(keys, eligible, early_first, b),
{
    let pa = precedes(keys, eligible, early_first, a);
    let pb = precedes(keys, eligible, early_first, b);
    assert forall|j: int| 0 <= j < keys.len() && #[trigger] pa(j) implies pb(j) by {}
    assert(pb(a));
    assert(!pa(a));
    lemma_tally_strict(keys.len(), pa, pb, a);
}

/// No two eligible entries share a place.
pub proof fn lemma_places_differ(
    keys: Seq<i64>,
    eligible: Seq<bool>,
    early_first: bool,
    a: int,
    b: int,
)
    requires
        keys.len() == eligible.len(),
        0 <= a < keys.len(),
        0 <= b < keys.len(),
        eligible[a],
        eligible[b],
        a != b,
    ensures
        place_of(keys, eligible, early_first, a) != place_of(keys, eligible, early_first, b),
{
    if leads(keys, early_first, a, b) {
        lemma_leader_is_placed_first(keys, eligible, early_first, a, b);
    } else {
        lemma_leader_is_placed_first(keys, eligible, early_first, b, a);
    }
}

/// An entry found at a place is the entry at that place.
pub proof fn lemma_entry_at_is(
    keys: Seq<i64>,
    eligible: Seq<bool>,
    early_first: bool,
    p: int,
    i: int,
)
    requires
        keys.len() == eligible.len(),
        holds_place(keys, eligible, early_first, p, i),
    ensures
        entry_at(keys, eligible, early_first, p) == i,
{
    let c = entry_at(keys, eligible, early_first, p);
    assert(holds_place(keys, eligible, early_first, p, c));
    if c != i {
        lemma_places_differ(keys, eligible, early_first, c, i);
    }
}

/// Among the first `m` entries, finds the eligible one not yet taken that
/// leads all other such entries, or finds that there is none.
proof fn lemma_next_leader(
    keys: Seq<i64>,
    eligible: Seq<bool>,
    taken: Seq<bool>,
    early_first: bool,
    m: nat,
) -> (r: Option<int>)
    requires
        keys.len() == eligible.len(),
        keys.len() == taken.len(),
        m <= keys.len(),
    ensures
        match r {
            Some(b) => {
                &&& 0 <= b < m
                &&& eligible[b]
                &&& !taken[b]
                &&& forall|j: int|
                    0 <= j < m && eligible[j] && !taken[j] && j != b ==> leads(
                        keys,
                        early_first,
                        b,
                        j,
                    )
            },
            None => forall|j: int| 0 <= j < m && eligible[j] ==> taken[j],
        },
    decreases m,
{
    if m == 0 {
        None
    } else {
        let last = m - 1;
        let before = lemma_next_leader(keys, eligible, taken, early_first, last as nat);
        if eligible[last] && !taken[last] {
            match before {
                Some(b) => if leads(keys, early_first, last, b) {
                    Some(last)
                } else {
                    before
                },
                None => Some(last),
            }
        } else {
            before
        }
    }
}

/// Takes the `p` leading eligible entries, one by one, and finds each place
/// below `p` held.
proof fn lemma_take_leading(
    keys: Seq<i64>,
    eligible: Seq<bool>,
    early_first: bool,
    p: nat,
) -> (taken: Seq<bool>)
    requires
        keys.len() == eligible.len(),
        p <= eligible_count(eligible),
    ensures
        taken.len() == keys.len(),
        tally(keys.len(), marked(taken)) == p,
        forall|j: int| 0 <= j < keys.len() && taken[j] ==> eligible[j],
        forall|a: int, b: int|
            0 <= a < keys.len() && 0 <= b < keys.len() && taken[a] && eligible[b] && !taken[b]
                ==> leads(keys, early_first, a, b),
        forall|q: int|
            0 <= q < p ==> holds_place(
                keys,
                eligible,
                early_first,
                q,
                #[trigger] entry_at(keys, eligible, early_first, q),
            ),
    decreases p,
{
    let n = keys.len();
    if p == 0 {
        let taken = Seq::new(n, |j: int| false);
        lemma_tally_none(n, marked(taken));
        taken
    } else {
        let before = lemma_take_leading(keys, eligible, early_first, (p - 1) as nat);
        match lemma_next_leader(keys, eligible, before, early_first, n) {
            None => {
                lemma_tally_agree(n, marked(before), marked(eligible));
                before
            },
            Some(b) => {
                let ahead = precedes(keys, eligible, early_first, b);
                assert forall|j: int| 0 <= j < n implies #[trigger] ahead(j) == marked(before)(
                    j,
                ) by {}
                lemma_tally_agree(n, ahead, marked(before));
                assert(holds_place(keys, eligible, early_first, p - 1, b));
                let taken = before.update(b, true);
                lemma_tally_gain(n, marked(before), marked(taken), b);
                taken
            },
        }
    }
}

/// Every place below the number of eligible entries is held by an entry.
pub proof fn lemma_place_is_held(keys: Seq<i64>, eligible: Seq<bool>, early_first: bool, p: int)
    requires
        keys.len() == eligible.len(),
        0 <= p < eligible_count(eligible),
    ensures
        holds_place(keys, eligible, early_first, p, entry_at(keys, eligible, early_first, p)),
{
    let taken = lemma_take_leading(keys, eligible, early_first, (p + 1) as nat);
}

/// Of two held places the earlier is held by the entry that leads the other.
pub proof fn lemma_earlier_place_leads(
    keys: Seq<i64>,
    eligible: Seq<bool>,
    early_first: bool,
    p: int,
    q: int,
)
    requires
        keys.len() == eligible.len(),
        0 <= p < q < eligible_count(eligible),
    ensures
        leads(
            keys,
            early_first,
            entry_at(keys, eligible, early_first, p),
            entry_at(keys, eligible, early_first, q),
        ),
{
    let a = entry_at(keys, eligible, early_first, p);
    let b = entry_at(keys, eligible, early_first, q);
    lemma_place_is_held(keys, eligible, early_first, p);
    lemma_place_is_held(keys, eligible, early_first, q);
    if !leads(keys, early_first, a, b) {
        lemma_leader_is_placed_first(keys, eligible, early_first, b, a);
    }
}

/// Whether entry `a` comes before entry `b`.
fn leads_at(keys: &Vec<i64>, early_first: bool, a: usize, b: usize) -> (r: bool)
    requires
        a < keys.len(),
        b < keys.len(),
    ensures
        r == leads(keys@, early_first, a as int, b as int),
{
    keys[a] > keys[b] || (keys[a] == keys[b] && if early_first {
        a < b
    } else {
        a > b
    })
}

/// The eligible entry not yet taken that leads all other such entries, if
/// there is one.
fn next_leader(
    keys: &Vec<i64>,
    eligible: &Vec<bool>,
    taken: &Vec<bool>,
    early_first: bool,
) -> (r: Option<usize>)
    requires
        keys.len() == eligible.len(),
        keys.len() == taken.len(),
    ensures
        match r {
            Some(b) => {
                &&& b < keys.len()
                &&& eligible[b as int]
                &&& !taken[b as int]
                &&& forall|j: int|
                    0 <= j < keys.len() && eligible[j] && !taken[j] && j != b ==> leads(
                        keys@,
                        early_first,
                        b as int,
                        j,
                    )
            },
            None => forall|j: int| 0 <= j < keys.len() && eligible[j] ==> taken[j],
        },
{
    let n: usize = keys.len();
    let mut best: Option<usize> = None;
    let mut j: usize = 0;
    while j < n
        invariant
            n == keys.len(),
            n == eligible.len(),
            n == taken.len(),
            j <= n,
            match best {
                Some(b) => {
                    &&& b < j
                    &&& eligible[b as int]
                    &&& !taken[b as int]
                    &&& forall|i: int|
                        0 <= i < j && eligible[i] && !taken[i] && i != b ==> leads(
                            keys@,
                            early_first,
                            b as int,
                            i,
                        )
                },
                None => forall|i: int| 0 <= i < j && eligible[i] ==> taken[i],
            },
        decreases n - j,
    {
        if eligible[j] && !taken[j] {
            match best {
                Some(b) => {
                    if leads_at(keys, early_first, j, b) {
                        best = Some(j);
                    }
                },
                None => {
                    best = Some(j);
                },
            }
        }
        j += 1;
    }
    best
}

/// Picks the first `limit` eligible entries in order, or all of them if they
/// are fewer.
pub fn select_leading(
    keys: &Vec<i64>,
    eligible: &Vec<bool>,
    early_first: bool,
    limit: usize,
) -> (order: Vec<usize>)
    requires
        keys.len() == eligible.len(),
    ensures
        order@.len() == leading(keys@, eligible@, early_first, limit as nat).len(),
        forall|p: int|
            0 <= p < order@.len() ==> #[trigger] order@[p] as int == leading(
                keys@,
                eligible@,
                early_first,
                limit as nat,
            )[p],
        forall|p: int|
            0 <= p < order@.len() ==> holds_place(
                keys@,
                eligible@,
                early_first,
                p,
                #[trigger] order@[p] as int,
            ),
{
    let n: usize = keys.len();
    let mut taken: Vec<bool> = Vec::new();
    while taken.len() < n
        invariant
            taken.len() <= n,
            forall|j: int| 0 <= j < taken.len() ==> !taken[j],
        decreases n - taken.len(),
    {
        taken.push(false);
    }
    proof {
        lemma_tally_none(n as nat, marked(taken@));
    }
    let mut order: Vec<usize> = Vec::new();
    let mut complete: bool = false;
    while order.len() < limit && !complete
        invariant
            n == keys.len(),
            n == eligible.len(),
            n == taken.len(),
            order.len() <= limit,
            tally(n as nat, marked(taken@)) == order.len(),
            forall|j: int| 0 <= j < n && taken[j] ==> eligible[j],
            forall|a: int, b: int|
                0 <= a < n && 0 <= b < n && taken[a] && eligible[b] && !taken[b] ==> leads(
                    keys@,
                    early_first,
                    a,
                    b,
                ),
            forall|p: int|
                0 <= p < order@.len() ==> holds_place(
                    keys@,
                    eligible@,
                    early_first,
                    p,
                    #[trigger] order@[p] as int,
                ),
            complete ==> forall|j: int| 0 <= j < n && eligible[j] ==> taken[j],
        decreases (if complete { 0int } else { 1int }), limit - order.len(),
    {
        match next_leader(keys, eligible, &taken, early_first) {
            None => {
                complete = true;
            },
            Some(b) => {
                let ghost before = taken@;
                proof {
                    let ahead = precedes(keys@, eligible@, early_first, b as int);
                    assert forall|j: int| 0 <= j < n implies #[trigger] ahead(j) == marked(
                        before,
                    )(j) by {}
                    lemma_tally_agree(n as nat, ahead, marked(before));
                }
                taken[b] = true;
                proof {
                    lemma_tally_gain(n as nat, marked(before), marked(taken@), b as int);
                }
                order.push(b);
            },
        }
    }
    proof {
        let count = eligible_count(eligible@);
        if complete {
            lemma_tally_agree(n as nat, marked(taken@), marked(eligible@));
        } else {
            lemma_tally_monotone(n as nat, marked(taken@), marked(eligible@));
        }
        assert forall|p: int| 0 <= p < order@.len() implies #[trigger] order@[p] as int == leading(
            keys@,
            eligible@,
            early_first,
            limit as nat,
        )[p] by {
            lemma_entry_at_is(keys@, eligible@, early_first, p, order@[p] as int);
        }
    }
    order
}

} // verus!
