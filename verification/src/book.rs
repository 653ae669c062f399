//! The ledger as a mathematical value.
//!
//! A [`Book`] is three tables: the members, the demerits and the merits, each
//! in the order in which its rows were written.  Rows are never removed, so a
//! row is known by its index, and the internal id of a member is their index
//! plus one.  Everything else (points, issued counts, ranks, the leaderboard,
//! a member's history) is derived from the tables on demand.

use vstd::prelude::*;
use crate::decimal::decimal_text;
use crate::ranking::{eligible_count, entry_at, leading};
use crate::tally::{lemma_tally_bound, tally};
use crate::types::{HistoryRecordView, LeaderboardUserView, LedgerError, UserView};

verus! {

/// A registered user.
pub struct Member {
    pub discord_id: i64,
    pub discord_username: Seq<char>,
    pub friendly_name: Seq<char>,
}

/// A demerit: `issuer` holds something against `target`.
pub struct Demerit {
    pub target: i32,
    pub issuer: i32,
    pub description: Seq<char>,
    pub timestamp: i64,
    pub forgiven: bool,
}

/// A merit: `issuer` credits `target` with something.
pub struct Merit {
    pub target: i32,
    pub issuer: i32,
    pub description: Seq<char>,
    pub timestamp: i64,
}

/// The three tables of the ledger.
pub struct Book {
    pub members: Seq<Member>,
    pub demerits: Seq<Demerit>,
    pub merits: Seq<Merit>,
}

/// The most rows that a table holds: row ids are positive 32-bit integers.
pub open spec fn capacity() -> int {
    0x7fff_ffff
}

/// The internal id of the member at index `i`.
pub open spec fn id_of(i: int) -> i32 {
    (i + 1) as i32
}

/// How a user is mentioned: their external id between `<@` and `>`.
pub open spec fn mention_text(discord_id: i64) -> Seq<char> {
    "<@"@ + decimal_text(discord_id as int) + ">"@
}

impl Book {
    /// The book with nothing in it.
    pub open spec fn empty() -> Book {
        Book { members: Seq::empty(), demerits: Seq::empty(), merits: Seq::empty() }
    }

    /// Whether a member has the internal id.
    pub open spec fn has_id(self, user_id: i32) -> bool {
        1 <= user_id <= self.members.len()
    }

    /// No table is over capacity, no two members share an external id, and
    /// every demerit and merit is between members.
    pub open spec fn valid(self) -> bool {
        &&& self.members.len() <= capacity()
        &&& self.demerits.len() <= capacity()
        &&& self.merits.len() <= capacity()
        &&& forall|i: int, j: int|
            0 <= i < j < self.members.len() ==> self.members[i].discord_id
                != self.members[j].discord_id
        &&& forall|k: int|
            0 <= k < self.demerits.len() ==> self.has_id((#[trigger] self.demerits[k]).target)
                && self.has_id(self.demerits[k].issuer)
        &&& forall|k: int|
            0 <= k < self.merits.len() ==> self.has_id((#[trigger] self.merits[k]).target)
                && self.has_id(self.merits[k].issuer)
    }

    /// Whether the member at index `i` carries the external id.
    pub open spec fn is_slot(self, discord_id: i64, i: int) -> bool {
        0 <= i < self.members.len() && self.members[i].discord_id == discord_id
    }

    /// Whether a member carries the external id.
    pub open spec fn knows(self, discord_id: i64) -> bool {
        exists|i: int| self.is_slot(discord_id, i)
    }

    /// The index of the member that carries the external id.
    pub open spec fn slot(self, discord_id: i64) -> int {
        choose|i: int| self.is_slot(discord_id, i)
    }

    /// A member that carries an external id is the one found under it.
    pub proof fn lemma_slot_is(self, discord_id: i64, i: int)
        requires
            self.valid(),
            self.is_slot(discord_id, i),
        ensures
            self.knows(discord_id),
            self.slot(discord_id) == i,
    {
        let c = self.slot(discord_id);
        assert(self.is_slot(discord_id, c));
        if c < i {
            assert(self.members[c].discord_id != self.members[i].discord_id);
        } else if i < c {
            assert(self.members[i].discord_id != self.members[c].discord_id);
        }
    }

    /// The merits given to `user_id`.
    pub open spec fn merit_for(self, user_id: i32) -> spec_fn(int) -> bool {
        |k: int| 0 <= k < self.merits.len() && self.merits[k].target == user_id
    }

    /// The demerits that stand against `user_id`: given to them and not
    /// forgiven.
    pub open spec fn penalty_for(self, user_id: i32) -> spec_fn(int) -> bool {
        |k: int|
            0 <= k < self.demerits.len() && self.demerits[k].target == user_id
                && !self.demerits[k].forgiven
    }

    /// The demerits given by `user_id`, forgiven or not.
    pub open spec fn demerit_by(self, user_id: i32) -> spec_fn(int) -> bool {
        |k: int| 0 <= k < self.demerits.len() && self.demerits[k].issuer == user_id
    }

    /// The merits given by `user_id`.
    pub open spec fn merit_by(self, user_id: i32) -> spec_fn(int) -> bool {
        |k: int| 0 <= k < self.merits.len() && self.merits[k].issuer == user_id
    }

    /// Net points: merits received less the demerits that stand.
    pub open spec fn points(self, user_id: i32) -> int {
        tally(self.merits.len(), self.merit_for(user_id)) - tally(
            self.demerits.len(),
            self.penalty_for(user_id),
        )
    }

    /// The number of demerits that `user_id` has given.
    pub open spec fn bbps_issued(self, user_id: i32) -> nat {
        tally(self.demerits.len(), self.demerit_by(user_id))
    }

    /// The number of merits that `user_id` has given.
    pub open spec fn gbps_issued(self, user_id: i32) -> nat {
        tally(self.merits.len(), self.merit_by(user_id))
    }

    /// The members with more points than `points`.
    pub open spec fn above(self, points: int) -> spec_fn(int) -> bool {
        |j: int| 0 <= j < self.members.len() && self.points(id_of(j)) > points
    }

    /// The rank of one who has `points`: one more than the number of members
    /// with more.  Equal points share a rank, and the rank after a tie skips
    /// by the number tied.
    pub open spec fn rank_with(self, points: int) -> nat {
        1 + tally(self.members.len(), self.above(points))
    }

    /// The rank of `user_id` among the members.
    pub open spec fn rank(self, user_id: i32) -> nat {
        self.rank_with(self.points(user_id))
    }

    /// The member at index `i` with their standing, unranked.
    pub open spec fn profile(self, i: int) -> UserView {
        let m = self.members[i];
        UserView {
            user_id: id_of(i),
            username: None,
            discord_username: Some(m.discord_username),
            discord_mention: Some(mention_text(m.discord_id)),
            discord_id: m.discord_id,
            friendly_name: Some(m.friendly_name),
            points: self.points(id_of(i)) as i32,
            bbps_issued: self.bbps_issued(id_of(i)) as i32,
            gbps_issued: self.gbps_issued(id_of(i)) as i32,
            rank: None,
        }
    }

    /// The member at index `i` with their standing and rank.
    pub open spec fn ranked_profile(self, i: int) -> UserView {
        UserView { rank: Some(self.rank(id_of(i)) as i64), ..self.profile(i) }
    }

    /// The user that carries the external id, with their standing, if there
    /// is one.
    pub open spec fn resolve(self, discord_id: i64) -> Option<UserView> {
        if self.knows(discord_id) {
            Some(self.profile(self.slot(discord_id)))
        } else {
            None
        }
    }

    /// The user that carries the external id, with their standing and rank,
    /// if there is one.
    pub open spec fn resolve_ranked(self, discord_id: i64) -> Option<UserView> {
        if self.knows(discord_id) {
            Some(self.ranked_profile(self.slot(discord_id)))
        } else {
            None
        }
    }

    /// Whether the member at index `i` is the first that is mentioned as
    /// `mention`.
    pub open spec fn is_mention_slot(self, mention: Seq<char>, i: int) -> bool {
        &&& 0 <= i < self.members.len()
        &&& mention_text(self.members[i].discord_id) == mention
        &&& forall|j: int|
            0 <= j < i ==> mention_text((#[trigger] self.members[j]).discord_id) != mention
    }

    /// Whether a member is mentioned as `mention`.
    pub open spec fn knows_mention(self, mention: Seq<char>) -> bool {
        exists|i: int| self.is_mention_slot(mention, i)
    }

    /// The index of the first member that is mentioned as `mention`.
    pub open spec fn mention_slot(self, mention: Seq<char>) -> int {
        choose|i: int| self.is_mention_slot(mention, i)
    }

    /// The first member that is mentioned as `mention` is the one found
    /// under the mention.
    pub proof fn lemma_mention_slot_is(self, mention: Seq<char>, i: int)
        requires
            self.is_mention_slot(mention, i),
        ensures
            self.knows_mention(mention),
            self.mention_slot(mention) == i,
    {
        let c = self.mention_slot(mention);
        assert(self.is_mention_slot(mention, c));
        if c < i {
            assert(mention_text(self.members[c].discord_id) != mention);
        } else if i < c {
            assert(mention_text(self.members[i].discord_id) != mention);
        }
    }

    /// The user that is mentioned as `mention`, with their standing, if
    /// there is one.
    pub open spec fn resolve_mention(self, mention: Seq<char>) -> Option<UserView> {
        if self.knows_mention(mention) {
            Some(self.profile(self.mention_slot(mention)))
        } else {
            None
        }
    }

    /// The user that is mentioned as `mention`, with their standing and
    /// rank, if there is one.
    pub open spec fn resolve_mention_ranked(self, mention: Seq<char>) -> Option<UserView> {
        if self.knows_mention(mention) {
            Some(self.ranked_profile(self.mention_slot(mention)))
        } else {
            None
        }
    }

    /// The leaderboard's line for the member at index `i`.
    pub open spec fn board_row(self, i: int) -> LeaderboardUserView {
        let u = self.profile(i);
        LeaderboardUserView {
            user_id: u.user_id,
            discord_username: u.discord_username,
            discord_mention: u.discord_mention,
            discord_id: u.discord_id,
            friendly_name: u.friendly_name,
            points: u.points,
            bbps_issued: u.bbps_issued,
            gbps_issued: u.gbps_issued,
            rank: self.rank(id_of(i)) as i64,
        }
    }

    /// The points of each member, by index.
    pub open spec fn scores(self) -> Seq<i64> {
        Seq::new(self.members.len(), |j: int| self.points(id_of(j)) as i64)
    }

    /// Every member, as a selection by index.
    pub open spec fn everyone(self) -> Seq<bool> {
        Seq::new(self.members.len(), |j: int| true)
    }

    /// The indices of the first `limit` members by points, highest first;
    /// among equal points the member registered earlier comes first.
    pub open spec fn board_order(self, limit: nat) -> Seq<int> {
        leading(self.scores(), self.everyone(), true, limit)
    }

    /// The leaderboard: the first `limit` members by points, each with their
    /// rank.
    pub open spec fn leaderboard(self, limit: nat) -> Seq<LeaderboardUserView> {
        self.board_order(limit).map_values(|i: int| self.board_row(i))
    }

    /// When each demerit was given, by index.
    pub open spec fn stamps(self) -> Seq<i64> {
        Seq::new(self.demerits.len(), |k: int| self.demerits[k].timestamp)
    }

    /// The demerits given to `user_id`, forgiven or not, as a selection by
    /// index.
    pub open spec fn received(self, user_id: i32) -> Seq<bool> {
        Seq::new(self.demerits.len(), |k: int| self.demerits[k].target == user_id)
    }

    /// The history line for the demerit at index `k`: the issuer's name as it
    /// is now, the reason and the time.
    pub open spec fn history_row(self, k: int) -> HistoryRecordView {
        let d = self.demerits[k];
        HistoryRecordView {
            issuer_friendly_name: self.members[d.issuer - 1].friendly_name,
            description: d.description,
            timestamp: d.timestamp,
        }
    }

    /// The indices of the latest `limit` demerits given to `user_id`, latest
    /// first; of two given at the same time the one written later comes first.
    pub open spec fn history_order(self, user_id: i32, limit: nat) -> Seq<int> {
        leading(self.stamps(), self.received(user_id), false, limit)
    }

    /// The latest `limit` demerits given to `user_id`, latest first.
    pub open spec fn history(self, user_id: i32, limit: nat) -> Seq<HistoryRecordView> {
        self.history_order(user_id, limit).map_values(|k: int| self.history_row(k))
    }

    /// The demerits that `issuer` can forgive `target`: given by the one to
    /// the other and not yet forgiven, as a selection by index.
    pub open spec fn forgivable(self, target: i32, issuer: i32) -> Seq<bool> {
        Seq::new(
            self.demerits.len(),
            |k: int|
                self.demerits[k].issuer == issuer && self.demerits[k].target == target
                    && !self.demerits[k].forgiven,
        )
    }

    /// Whether `issuer` has anything to forgive `target`.
    pub open spec fn can_forgive(self, target: i32, issuer: i32) -> bool {
        eligible_count(self.forgivable(target, issuer)) > 0
    }

    /// The demerit that a forgiveness takes: the latest of those that `issuer`
    /// can forgive `target`; of two given at the same time, the one written
    /// later.
    pub open spec fn latest_forgivable(self, target: i32, issuer: i32) -> int {
        entry_at(self.stamps(), self.forgivable(target, issuer), false, 0)
    }

    /// The book with the demerit at index `k` forgiven.
    pub open spec fn with_forgiven(self, k: int) -> Book {
        Book {
            demerits: self.demerits.update(k, Demerit { forgiven: true, ..self.demerits[k] }),
            ..self
        }
    }

    /// The book after `issuer` forgives `target`: the latest forgivable
    /// demerit is marked, or nothing changes if there is none.
    pub open spec fn forgive(self, target: i32, issuer: i32) -> Book {
        if self.can_forgive(target, issuer) {
            self.with_forgiven(self.latest_forgivable(target, issuer))
        } else {
            self
        }
    }

    /// What a forgiveness answers: the reason of the demerit it takes, if
    /// there is one to take.
    pub open spec fn forgiven_reason(self, target: i32, issuer: i32) -> Option<Seq<char>> {
        if self.can_forgive(target, issuer) {
            Some(self.demerits[self.latest_forgivable(target, issuer)].description)
        } else {
            None
        }
    }

    /// Why a registration under the external id is refused, if it is: the id
    /// is taken, or the members' table is full.
    pub open spec fn registration_refusal(self, discord_id: i64) -> Option<LedgerError> {
        if self.knows(discord_id) {
            Some(LedgerError::AlreadyExists)
        } else if self.members.len() >= capacity() {
            Some(LedgerError::StoreUnavailable)
        } else {
            None
        }
    }

    /// Why an entry between `target` and `issuer` is refused by a table that
    /// holds `rows` rows, if it is: one of the two is no member, or the table
    /// is full.
    pub open spec fn entry_refusal(self, target: i32, issuer: i32, rows: nat) -> Option<
        LedgerError,
    > {
        if !self.has_id(target) || !self.has_id(issuer) {
            Some(LedgerError::NotFound)
        } else if rows >= capacity() {
            Some(LedgerError::StoreUnavailable)
        } else {
            None
        }
    }

    /// The book with one more member.
    pub open spec fn register(
        self,
        discord_id: i64,
        discord_username: Seq<char>,
        friendly_name: Seq<char>,
    ) -> Book {
        Book {
            members: self.members.push(Member { discord_id, discord_username, friendly_name }),
            ..self
        }
    }

    /// The book with one more demerit, not forgiven.
    pub open spec fn record_demerit(
        self,
        target: i32,
        issuer: i32,
        description: Seq<char>,
        timestamp: i64,
    ) -> Book {
        Book {
            demerits: self.demerits.push(
                Demerit { target, issuer, description, timestamp, forgiven: false },
            ),
            ..self
        }
    }

    /// The book with one more merit.
    pub open spec fn record_merit(
        self,
        target: i32,
        issuer: i32,
        description: Seq<char>,
        timestamp: i64,
    ) -> Book {
        Book { merits: self.merits.push(Merit { target, issuer, description, timestamp }), ..self }
    }

    /// In a valid book every figure of a user fits in 32 bits, and every rank
    /// in 64.
    pub proof fn lemma_figures_fit(self, user_id: i32)
        requires
            self.valid(),
        ensures
            -capacity() <= self.points(user_id) <= capacity(),
            self.bbps_issued(user_id) <= capacity(),
            self.gbps_issued(user_id) <= capacity(),
            1 <= self.rank(user_id) <= capacity() + 1,
    {
        lemma_tally_bound(self.merits.len(), self.merit_for(user_id));
        lemma_tally_bound(self.demerits.len(), self.penalty_for(user_id));
        lemma_tally_bound(self.demerits.len(), self.demerit_by(user_id));
        lemma_tally_bound(self.merits.len(), self.merit_by(user_id));
        lemma_tally_bound(self.members.len(), self.above(self.points(user_id)));
    }

    /// A registration that is not refused leaves the book valid.
    pub proof fn lemma_register_valid(
        self,
        discord_id: i64,
        discord_username: Seq<char>,
        friendly_name: Seq<char>,
    )
        requires
            self.valid(),
            self.registration_refusal(discord_id) is None,
        ensures
            self.register(discord_id, discord_username, friendly_name).valid(),
    {
        let after = self.register(discord_id, discord_username, friendly_name);
        assert forall|i: int, j: int|
            0 <= i < j < after.members.len() implies after.members[i].discord_id
            != after.members[j].discord_id by {
            if j == self.members.len() {
                assert(!self.is_slot(discord_id, i));
            }
        }
    }

    /// A demerit that is not refused leaves the book valid.
    pub proof fn lemma_record_demerit_valid(
        self,
        target: i32,
        issuer: i32,
        description: Seq<char>,
        timestamp: i64,
    )
        requires
            self.valid(),
            self.entry_refusal(target, issuer, self.demerits.len()) is None,
        ensures
            self.record_demerit(target, issuer, description, timestamp).valid(),
    {
    }

    /// A merit that is not refused leaves the book valid.
    pub proof fn lemma_record_merit_valid(
        self,
        target: i32,
        issuer: i32,
        description: Seq<char>,
        timestamp: i64,
    )
        requires
            self.valid(),
            self.entry_refusal(target, issuer, self.merits.len()) is None,
        ensures
            self.record_merit(target, issuer, description, timestamp).valid(),
    {
    }

    /// Forgiving a demerit leaves the book valid.
    pub proof fn lemma_with_forgiven_valid(self, k: int)
        requires
            self.valid(),
            0 <= k < self.demerits.len(),
        ensures
            self.with_forgiven(k).valid(),
    {
    }
}

} // verus!
