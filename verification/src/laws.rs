//! What holds of every ledger.
//!
//! Each law is stated over the [`Book`] that a ledger holds, in the terms in
//! which the ledger's own functions are specified.

use vstd::prelude::*;
use crate::book::{id_of, Book};
use crate::ranking::{
    eligible_count, entry_at, leads, lemma_earlier_place_leads, lemma_entry_at_is,
    lemma_place_is_held, marked, precedes,
};
use crate::tally::{
    lemma_tally_agree, lemma_tally_all, lemma_tally_gain, lemma_tally_monotone, lemma_tally_none,
    lemma_tally_strict, lemma_tally_witness, tally,
};
use crate::types::LedgerError;

verus! {

/// A user who has just registered has no points and has given nothing.
pub proof fn lemma_newcomer_has_nothing(
    book: Book,
    discord_id: i64,
    discord_username: Seq<char>,
    friendly_name: Seq<char>,
)
    requires
        book.valid(),
        book.registration_refusal(discord_id) is None,
    ensures
        ({
            let after = book.register(discord_id, discord_username, friendly_name);
            let newcomer = id_of(book.members.len() as int);
            &&& after.is_slot(discord_id, book.members.len() as int)
            &&& after.points(newcomer) == 0
            &&& after.bbps_issued(newcomer) == 0
            &&& after.gbps_issued(newcomer) == 0
        }),
{
    let after = book.register(discord_id, discord_username, friendly_name);
    let newcomer = id_of(book.members.len() as int);
    assert forall|k: int| 0 <= k < after.merits.len() implies !#[trigger] after.merit_for(newcomer)(
        k,
    ) && !#[trigger] after.merit_by(newcomer)(k) by {
        assert(book.has_id(book.merits[k].target));
    }
    assert forall|k: int| 0 <= k < after.demerits.len() implies !#[trigger] after.penalty_for(
        newcomer,
    )(k) && !#[trigger] after.demerit_by(newcomer)(k) by {
        assert(book.has_id(book.demerits[k].target));
    }
    lemma_tally_none(after.merits.len(), after.merit_for(newcomer));
    lemma_tally_none(after.merits.len(), after.merit_by(newcomer));
    lemma_tally_none(after.demerits.len(), after.penalty_for(newcomer));
    lemma_tally_none(after.demerits.len(), after.demerit_by(newcomer));
}

/// A demerit costs its target exactly one point, whoever gave it, and leaves
/// the points of every other user as they were.
pub proof fn lemma_demerit_costs_one_point(
    book: Book,
    target: i32,
    issuer: i32,
    description: Seq<char>,
    timestamp: i64,
    user_id: i32,
)
    ensures
        ({
            let after = book.record_demerit(target, issuer, description, timestamp);
            after.points(user_id) == if user_id == target {
                book.points(user_id) - 1
            } else {
                book.points(user_id)
            }
        }),
{
    let after = book.record_demerit(target, issuer, description, timestamp);
    let n = book.demerits.len();
    assert(after.merits == book.merits);
    lemma_tally_agree(book.merits.len(), after.merit_for(user_id), book.merit_for(user_id));
    lemma_tally_agree(n, after.penalty_for(user_id), book.penalty_for(user_id));
    assert(after.penalty_for(user_id)(n as int) == (user_id == target));
}

/// A merit earns its target exactly one point and leaves the points of every
/// other user as they were.
pub proof fn lemma_merit_earns_one_point(
    book: Book,
    target: i32,
    issuer: i32,
    description: Seq<char>,
    timestamp: i64,
    user_id: i32,
)
    ensures
        ({
            let after = book.record_merit(target, issuer, description, timestamp);
            after.points(user_id) == if user_id == target {
                book.points(user_id) + 1
            } else {
                book.points(user_id)
            }
        }),
{
    let after = book.record_merit(target, issuer, description, timestamp);
    let n = book.merits.len();
    assert(after.demerits == book.demerits);
    lemma_tally_agree(
        book.demerits.len(),
        after.penalty_for(user_id),
        book.penalty_for(user_id),
    );
    lemma_tally_agree(n, after.merit_for(user_id), book.merit_for(user_id));
    assert(after.merit_for(user_id)(n as int) == (user_id == target));
}

/// What one user holds against another: who, why and when.
pub struct Grievance {
    pub issuer: i32,
    pub description: Seq<char>,
    pub timestamp: i64,
}

/// The book after each of `given` is recorded as a demerit against `target`,
/// in turn.
pub open spec fn record_all(book: Book, target: i32, given: Seq<Grievance>) -> Book
    decreases given.len(),
{
    if given.len() == 0 {
        book
    } else {
        let g = given.last();
        record_all(book, target, given.drop_last()).record_demerit(
            target,
            g.issuer,
            g.description,
            g.timestamp,
        )
    }
}

/// However many demerits are recorded against a user, each costs them exactly
/// one point.
pub proof fn lemma_each_demerit_costs_one_point(book: Book, target: i32, given: Seq<Grievance>)
    ensures
        record_all(book, target, given).points(target) == book.points(target) - given.len(),
    decreases given.len(),
{
    if given.len() > 0 {
        let g = given.last();
        let before = record_all(book, target, given.drop_last());
        lemma_each_demerit_costs_one_point(book, target, given.drop_last());
        lemma_demerit_costs_one_point(
            before,
            target,
            g.issuer,
            g.description,
            g.timestamp,
            target,
        );
    }
}

/// A forgiveness takes a demerit that the issuer gave the target and that
/// stood unforgiven, and of those the latest: none of them was given after it,
/// and none given at the same moment was recorded after it.
pub proof fn lemma_forgiveness_takes_latest(book: Book, target: i32, issuer: i32)
    requires
        book.can_forgive(target, issuer),
    ensures
        ({
            let k = book.latest_forgivable(target, issuer);
            &&& 0 <= k < book.demerits.len()
            &&& book.demerits[k].target == target
            &&& book.demerits[k].issuer == issuer
            &&& !book.demerits[k].forgiven
            &&& forall|j: int|
                0 <= j < book.demerits.len() && #[trigger] book.forgivable(target, issuer)[j]
                    ==> book.demerits[j].timestamp < book.demerits[k].timestamp || (
                book.demerits[j].timestamp == book.demerits[k].timestamp && j <= k)
        }),
{
    let stamps = book.stamps();
    let open = book.forgivable(target, issuer);
    let k = book.latest_forgivable(target, issuer);
    lemma_place_is_held(stamps, open, false, 0);
    assert forall|j: int| 0 <= j < book.demerits.len() && #[trigger] open[j] implies
        book.demerits[j].timestamp < book.demerits[k].timestamp || (book.demerits[j].timestamp
        == book.demerits[k].timestamp && j <= k) by {
        if leads(stamps, false, j, k) {
            assert(precedes(stamps, open, false, k)(j));
            lemma_tally_witness(stamps.len(), precedes(stamps, open, false, k), j);
        }
    }
}

/// A forgiveness changes the one demerit it takes and nothing else: that
/// demerit becomes forgiven, and the issuer has one demerit fewer to forgive
/// the target.
pub proof fn lemma_forgiveness_takes_one(book: Book, target: i32, issuer: i32)
    requires
        book.can_forgive(target, issuer),
    ensures
        ({
            let k = book.latest_forgivable(target, issuer);
            let after = book.forgive(target, issuer);
            &&& after.members == book.members
            &&& after.merits == book.merits
            &&& after.demerits.len() == book.demerits.len()
            &&& after.demerits[k].forgiven
            &&& forall|j: int|
                0 <= j < book.demerits.len() && j != k ==> after.demerits[j] == book.demerits[j]
            &&& eligible_count(after.forgivable(target, issuer)) == eligible_count(
                book.forgivable(target, issuer),
            ) - 1
        }),
{
    let k = book.latest_forgivable(target, issuer);
    let after = book.forgive(target, issuer);
    lemma_forgiveness_takes_latest(book, target, issuer);
    lemma_tally_gain(
        book.demerits.len(),
        marked(after.forgivable(target, issuer)),
        marked(book.forgivable(target, issuer)),
        k,
    );
}

/// A forgiveness gives its target one point back and leaves the points of
/// every other user as they were: a forgiven demerit no longer counts.
pub proof fn lemma_forgiveness_restores_one_point(
    book: Book,
    target: i32,
    issuer: i32,
    user_id: i32,
)
    requires
        book.can_forgive(target, issuer),
    ensures
        book.forgive(target, issuer).points(user_id) == if user_id == target {
            book.points(user_id) + 1
        } else {
            book.points(user_id)
        },
{
    let k = book.latest_forgivable(target, issuer);
    let after = book.forgive(target, issuer);
    lemma_forgiveness_takes_latest(book, target, issuer);
    lemma_tally_agree(book.merits.len(), after.merit_for(user_id), book.merit_for(user_id));
    if user_id == target {
        lemma_tally_gain(
            book.demerits.len(),
            after.penalty_for(user_id),
            book.penalty_for(user_id),
            k,
        );
    } else {
        lemma_tally_agree(
            book.demerits.len(),
            after.penalty_for(user_id),
            book.penalty_for(user_id),
        );
    }
}

/// Where the issuer has exactly one demerit to forgive the target, a
/// forgiveness succeeds once: a second one right after it finds nothing to
/// forgive and changes nothing, so the demerit is forgiven once and no other
/// is touched.
pub proof fn lemma_sole_demerit_is_forgiven_once(book: Book, target: i32, issuer: i32)
    requires
        eligible_count(book.forgivable(target, issuer)) == 1,
    ensures
        book.forgiven_reason(target, issuer) is Some,
        book.forgive(target, issuer).forgiven_reason(target, issuer) is None,
        book.forgive(target, issuer).forgive(target, issuer) == book.forgive(target, issuer),
{
    lemma_forgiveness_takes_one(book, target, issuer);
}

/// Where the issuer has nothing to forgive the target, a forgiveness answers
/// nothing and changes nothing.
pub proof fn lemma_nothing_to_forgive(book: Book, target: i32, issuer: i32)
    requires
        !book.can_forgive(target, issuer),
    ensures
        book.forgiven_reason(target, issuer) is None,
        book.forgive(target, issuer) == book,
{
}

/// Where the issuer has two or more demerits to forgive the target, a second
/// forgiveness takes the one that was second latest before the first.
pub proof fn lemma_second_forgiveness_takes_next(book: Book, target: i32, issuer: i32)
    requires
        eligible_count(book.forgivable(target, issuer)) >= 2,
    ensures
        book.forgive(target, issuer).can_forgive(target, issuer),
        book.forgive(target, issuer).latest_forgivable(target, issuer) == entry_at(
            book.stamps(),
            book.forgivable(target, issuer),
            false,
            1,
        ),
{
    let stamps = book.stamps();
    let open = book.forgivable(target, issuer);
    let after = book.forgive(target, issuer);
    let left = after.forgivable(target, issuer);
    let first = entry_at(stamps, open, false, 0);
    let second = entry_at(stamps, open, false, 1);
    lemma_forgiveness_takes_one(book, target, issuer);
    lemma_place_is_held(stamps, open, false, 0);
    lemma_place_is_held(stamps, open, false, 1);
    lemma_earlier_place_leads(stamps, open, false, 0, 1);
    assert(after.stamps() =~= stamps);
    lemma_tally_gain(
        stamps.len(),
        precedes(stamps, left, false, second),
        precedes(stamps, open, false, second),
        first,
    );
    lemma_entry_at_is(stamps, left, false, 0, second);
}

/// What happens to a user: someone gives them a demerit, or someone forgives
/// them one.
pub enum Act {
    Demerit(Grievance),
    Forgive { issuer: i32 },
}

/// The book after `act` happens to `target`.
pub open spec fn act_on(book: Book, target: i32, act: Act) -> Book {
    match act {
        Act::Demerit(g) => book.record_demerit(target, g.issuer, g.description, g.timestamp),
        Act::Forgive { issuer } => book.forgive(target, issuer),
    }
}

/// The book after each of `acts` happens to `target`, in turn.
pub open spec fn act_all(book: Book, target: i32, acts: Seq<Act>) -> Book
    decreases acts.len(),
{
    if acts.len() == 0 {
        book
    } else {
        act_on(act_all(book, target, acts.drop_last()), target, acts.last())
    }
}

/// How many demerits of `target` stand after `acts` that did not stand
/// before: one for each demerit given, less one for each forgiveness that
/// found a demerit to take.
pub open spec fn standing_change(book: Book, target: i32, acts: Seq<Act>) -> int
    decreases acts.len(),
{
    if acts.len() == 0 {
        0
    } else {
        let before = act_all(book, target, acts.drop_last());
        standing_change(book, target, acts.drop_last()) + match acts.last() {
            Act::Demerit(_) => 1int,
            Act::Forgive { issuer } => if before.can_forgive(target, issuer) {
                -1int
            } else {
                0int
            },
        }
    }
}

/// Through any run of demerits and forgivenesses a user loses exactly one
/// point for each demerit given and not forgiven: a demerit costs one point,
/// a forgiveness that takes a demerit gives the point back, and one that
/// finds nothing changes nothing.
pub proof fn lemma_only_standing_demerits_cost(book: Book, target: i32, acts: Seq<Act>)
    ensures
        act_all(book, target, acts).points(target) == book.points(target) - standing_change(
            book,
            target,
            acts,
        ),
    decreases acts.len(),
{
    if acts.len() > 0 {
        let before = act_all(book, target, acts.drop_last());
        lemma_only_standing_demerits_cost(book, target, acts.drop_last());
        match acts.last() {
            Act::Demerit(g) => {
                lemma_demerit_costs_one_point(
                    before,
                    target,
                    g.issuer,
                    g.description,
                    g.timestamp,
                    target,
                );
            },
            Act::Forgive { issuer } => {
                if before.can_forgive(target, issuer) {
                    lemma_forgiveness_restores_one_point(before, target, issuer, target);
                }
            },
        }
    }
}

/// A second registration under an external id is refused as a collision, and
/// exactly one member carries the id.
pub proof fn lemma_registration_is_single(
    book: Book,
    discord_id: i64,
    discord_username: Seq<char>,
    friendly_name: Seq<char>,
)
    requires
        book.valid(),
        book.registration_refusal(discord_id) is None,
    ensures
        ({
            let after = book.register(discord_id, discord_username, friendly_name);
            &&& after.registration_refusal(discord_id) == Some(LedgerError::AlreadyExists)
            &&& tally(after.members.len(), |i: int| after.is_slot(discord_id, i)) == 1
        }),
{
    let after = book.register(discord_id, discord_username, friendly_name);
    let n = book.members.len();
    let carries = |i: int| after.is_slot(discord_id, i);
    assert(after.is_slot(discord_id, n as int));
    assert forall|i: int| 0 <= i < n implies !#[trigger] carries(i) by {
        assert(!book.is_slot(discord_id, i));
    }
    lemma_tally_none(n, carries);
    assert(carries(n as int));
}

/// A member with more points than a user has the better rank; users with
/// equal points share a rank.
pub proof fn lemma_rank_follows_points(book: Book, a: i32, b: i32)
    requires
        book.points(a) >= book.points(b),
    ensures
        book.rank(a) <= book.rank(b),
        book.points(a) == book.points(b) ==> book.rank(a) == book.rank(b),
        book.points(a) > book.points(b) && book.has_id(a) ==> book.rank(a) < book.rank(b),
{
    let n = book.members.len();
    let over_a = book.above(book.points(a));
    let over_b = book.above(book.points(b));
    lemma_tally_monotone(n, over_a, over_b);
    if book.points(a) > book.points(b) && book.has_id(a) {
        assert(id_of(a - 1) == a);
        assert(over_b(a - 1));
        assert(!over_a(a - 1));
        lemma_tally_strict(n, over_a, over_b, a - 1);
    }
}

/// The leaderboard lists members, each once, from the most points down: a
/// line never has fewer points nor a worse rank than a line below it, and
/// among equal points the member registered earlier stands higher.
pub proof fn lemma_leaderboard_descends(book: Book, limit: nat, p: int, q: int)
    requires
        book.valid(),
        0 <= p < q < book.leaderboard(limit).len(),
    ensures
        ({
            let upper = book.leaderboard(limit)[p];
            let lower = book.leaderboard(limit)[q];
            &&& upper.points >= lower.points
            &&& upper.rank <= lower.rank
            &&& upper.user_id != lower.user_id
            &&& upper.points == lower.points ==> upper.user_id < lower.user_id
        }),
{
    let scores = book.scores();
    let everyone = book.everyone();
    let a = entry_at(scores, everyone, true, p);
    let b = entry_at(scores, everyone, true, q);
    lemma_place_is_held(scores, everyone, true, p);
    lemma_place_is_held(scores, everyone, true, q);
    lemma_earlier_place_leads(scores, everyone, true, p, q);
    book.lemma_figures_fit(id_of(a));
    book.lemma_figures_fit(id_of(b));
    lemma_rank_follows_points(book, id_of(a), id_of(b));
}

/// The leaderboard has a line for each member up to the limit.
pub proof fn lemma_leaderboard_length(book: Book, limit: nat)
    ensures
        book.leaderboard(limit).len() == if limit < book.members.len() {
            limit
        } else {
            book.members.len()
        },
{
    lemma_tally_all(book.members.len(), marked(book.everyone()));
}

/// A user's history lists demerits given to them, each once, from the latest
/// back: a line is never older than a line below it.
pub proof fn lemma_history_descends(book: Book, user_id: i32, limit: nat, p: int, q: int)
    requires
        0 <= p < q < book.history(user_id, limit).len(),
    ensures
        ({
            let order = book.history_order(user_id, limit);
            &&& 0 <= order[p] < book.demerits.len()
            &&& 0 <= order[q] < book.demerits.len()
            &&& order[p] != order[q]
            &&& book.demerits[order[p]].target == user_id
            &&& book.demerits[order[q]].target == user_id
            &&& book.history(user_id, limit)[p].timestamp >= book.history(
                user_id,
                limit,
            )[q].timestamp
        }),
{
    let stamps = book.stamps();
    let received = book.received(user_id);
    lemma_place_is_held(stamps, received, false, p);
    lemma_place_is_held(stamps, received, false, q);
    lemma_earlier_place_leads(stamps, received, false, p, q);
}

} // verus!
