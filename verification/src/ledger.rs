//! The ledger that holds its tables in memory.

use vstd::prelude::*;
use vstd::string::*;
use crate::book::{capacity, id_of, mention_text, Book, Demerit, Member, Merit};
use crate::clock::now;
use crate::decimal::append_decimal;
use crate::tally::{lemma_tally_bound, tally};
use crate::ranking::{holds_place, select_leading};
use crate::types::{HistoryRecord, LeaderboardUser, LedgerError, User, UserView};

verus! {

/// A row of the members' table.
struct Account {
    discord_id: i64,
    discord_username: String,
    friendly_name: String,
}

/// A row of the demerits' table.
struct Bbp {
    user_id: i32,
    issuer_id: i32,
    description: String,
    timestamp: i64,
    forgiven: bool,
}

/// A row of the merits' table.
struct Gbp {
    user_id: i32,
    issuer_id: i32,
    description: String,
    timestamp: i64,
}

impl View for Account {
    type V = Member;

    closed spec fn view(&self) -> Member {
        Member {
            discord_id: self.discord_id,
            discord_username: self.discord_username@,
            friendly_name: self.friendly_name@,
        }
    }
}

impl View for Bbp {
    type V = Demerit;

    closed spec fn view(&self) -> Demerit {
        Demerit {
            target: self.user_id,
            issuer: self.issuer_id,
            description: self.description@,
            timestamp: self.timestamp,
            forgiven: self.forgiven,
        }
    }
}

impl View for Gbp {
    type V = Merit;

    closed spec fn view(&self) -> Merit {
        Merit {
            target: self.user_id,
            issuer: self.issuer_id,
            description: self.description@,
            timestamp: self.timestamp,
        }
    }
}

/// The three tables.  Their value is a [`Book`], which need not be valid.
struct Tables {
    users: Vec<Account>,
    bbps: Vec<Bbp>,
    gbps: Vec<Gbp>,
}

impl View for Tables {
    type V = Book;

    closed spec fn view(&self) -> Book {
        Book {
            members: Seq::new(self.users.len() as nat, |i: int| self.users[i]@),
            demerits: Seq::new(self.bbps.len() as nat, |k: int| self.bbps[k]@),
            merits: Seq::new(self.gbps.len() as nat, |k: int| self.gbps[k]@),
        }
    }
}

/// How the user that carries the external id is mentioned.
pub fn mention(discord_id: i64) -> (r: String)
    ensures
        r@ == mention_text(discord_id),
{
    let mut out = String::new();
    out.append("<@");
    append_decimal(&mut out, discord_id);
    out.append(">");
    assert(out@ =~= mention_text(discord_id));
    out
}

impl Tables {
    /// The tables with no rows.
    fn new() -> (r: Tables)
        ensures
            r@ == Book::empty(),
            r@.valid(),
    {
        let r = Tables { users: Vec::new(), bbps: Vec::new(), gbps: Vec::new() };
        assert(r@.members =~= Seq::empty());
        assert(r@.demerits =~= Seq::empty());
        assert(r@.merits =~= Seq::empty());
        r
    }

    /// The index of the member that carries the external id.
    fn slot_of(&self, discord_id: i64) -> (r: Option<usize>)
        requires
            self@.valid(),
        ensures
            match r {
                Some(i) => self@.is_slot(discord_id, i as int) && self@.slot(discord_id) == i,
                None => !self@.knows(discord_id),
            },
    {
        let mut i: usize = 0;
        while i < self.users.len()
            invariant
                self@.valid(),
                i <= self.users.len(),
                forall|j: int| 0 <= j < i ==> !self@.is_slot(discord_id, j),
            decreases self.users.len() - i,
        {
            if self.users[i].discord_id == discord_id {
                proof {
                    self@.lemma_slot_is(discord_id, i as int);
                }
                return Some(i);
            }
            i += 1;
        }
        None
    }

    /// Whether a member has the internal id.
    fn holds_id(&self, user_id: i32) -> (r: bool)
        requires
            self@.valid(),
        ensures
            r == self@.has_id(user_id),
    {
        user_id >= 1 && user_id as usize <= self.users.len()
    }

    /// How many merits `user_id` has received, and how many they have given.
    fn gbp_counts(&self, user_id: i32) -> (r: (i32, i32))
        requires
            self@.valid(),
        ensures
            r.0 == tally(self@.merits.len(), self@.merit_for(user_id)),
            r.1 == self@.gbps_issued(user_id),
    {
        let mut received: i32 = 0;
        let mut issued: i32 = 0;
        let mut k: usize = 0;
        while k < self.gbps.len()
            invariant
                k <= self.gbps.len(),
                self.gbps.len() <= capacity(),
                received == tally(k as nat, self@.merit_for(user_id)),
                issued == tally(k as nat, self@.merit_by(user_id)),
                received <= k,
                issued <= k,
            decreases self.gbps.len() - k,
        {
            if self.gbps[k].user_id == user_id {
                received += 1;
            }
            if self.gbps[k].issuer_id == user_id {
                issued += 1;
            }
            k += 1;
        }
        (received, issued)
    }

    /// How many demerits stand against `user_id`, and how many they have
    /// given.
    fn bbp_counts(&self, user_id: i32) -> (r: (i32, i32))
        requires
            self@.valid(),
        ensures
            r.0 == tally(self@.demerits.len(), self@.penalty_for(user_id)),
            r.1 == self@.bbps_issued(user_id),
    {
        let mut standing: i32 = 0;
        let mut issued: i32 = 0;
        let mut k: usize = 0;
        while k < self.bbps.len()
            invariant
                k <= self.bbps.len(),
                self.bbps.len() <= capacity(),
                standing == tally(k as nat, self@.penalty_for(user_id)),
                issued == tally(k as nat, self@.demerit_by(user_id)),
                standing <= k,
                issued <= k,
            decreases self.bbps.len() - k,
        {
            if self.bbps[k].user_id == user_id && !self.bbps[k].forgiven {
                standing += 1;
            }
            if self.bbps[k].issuer_id == user_id {
                issued += 1;
            }
            k += 1;
        }
        (standing, issued)
    }

    /// The net points of `user_id`.
    fn points_of(&self, user_id: i32) -> (r: i32)
        requires
            self@.valid(),
        ensures
            r == self@.points(user_id),
    {
        proof {
            lemma_tally_bound(self@.merits.len(), self@.merit_for(user_id));
            lemma_tally_bound(self@.demerits.len(), self@.penalty_for(user_id));
        }
        let (received, _) = self.gbp_counts(user_id);
        let (standing, _) = self.bbp_counts(user_id);
        received - standing
    }

    /// The points of each member, by index.
    fn scores(&self) -> (r: Vec<i64>)
        requires
            self@.valid(),
        ensures
            r@ == self@.scores(),
    {
        let mut out: Vec<i64> = Vec::new();
        let mut j: usize = 0;
        while j < self.users.len()
            invariant
                self@.valid(),
                j <= self.users.len(),
                out.len() == j,
                forall|i: int| 0 <= i < j ==> out[i] == self@.points(id_of(i)) as i64,
            decreases self.users.len() - j,
        {
            let points = self.points_of((j + 1) as i32);
            out.push(points as i64);
            j += 1;
        }
        assert(out@ =~= self@.scores());
        out
    }

    /// The rank of one who has `points`, given the points of each member.
    fn rank_among(&self, scores: &Vec<i64>, points: i32) -> (r: i64)
        requires
            self@.valid(),
            scores@ == self@.scores(),
        ensures
            r == self@.rank_with(points as int),
    {
        let mut higher: i64 = 0;
        let mut j: usize = 0;
        while j < scores.len()
            invariant
                self@.valid(),
                scores@ == self@.scores(),
                j <= scores.len(),
                higher == tally(j as nat, self@.above(points as int)),
                higher <= j,
            decreases scores.len() - j,
        {
            proof {
                self@.lemma_figures_fit(id_of(j as int));
            }
            if scores[j] > points as i64 {
                higher += 1;
            }
            j += 1;
        }
        higher + 1
    }

    /// The member at index `i` with their standing and the rank given.
    fn profile_at(&self, i: usize, rank: Option<i64>) -> (r: User)
        requires
            self@.valid(),
            i < self@.members.len(),
        ensures
            r@ == (UserView { rank, ..self@.profile(i as int) }),
    {
        proof {
            self@.lemma_figures_fit(id_of(i as int));
        }
        let user_id: i32 = (i + 1) as i32;
        let (received, gbps_issued) = self.gbp_counts(user_id);
        let (standing, bbps_issued) = self.bbp_counts(user_id);
        let account = &self.users[i];
        User {
            user_id,
            username: None,
            discord_username: Some(account.discord_username.clone()),
            discord_mention: Some(self::mention(account.discord_id)),
            discord_id: account.discord_id,
            friendly_name: Some(account.friendly_name.clone()),
            points: received - standing,
            bbps_issued,
            gbps_issued,
            rank,
        }
    }

    /// The user that carries the external id, unranked.
    fn get_user_by_discord_id(&self, discord_id: i64) -> (r: Option<User>)
        requires
            self@.valid(),
        ensures
            r.deep_view() == self@.resolve(discord_id),
    {
        match self.slot_of(discord_id) {
            Some(i) => Some(self.profile_at(i, None)),
            None => None,
        }
    }

    /// The user that carries the external id, ranked.
    fn get_user_by_discord_id_with_rank(&self, discord_id: i64) -> (r: Option<User>)
        requires
            self@.valid(),
        ensures
            r.deep_view() == self@.resolve_ranked(discord_id),
    {
        match self.slot_of(discord_id) {
            Some(i) => {
                let scores = self.scores();
                let points = self.points_of((i + 1) as i32);
                let rank = self.rank_among(&scores, points);
                Some(self.profile_at(i, Some(rank)))
            },
            None => None,
        }
    }

    /// The index of the first member that is mentioned as `mention`.
    fn mention_slot_of(&self, mention: &str) -> (r: Option<usize>)
        requires
            self@.valid(),
        ensures
            match r {
                Some(i) => self@.is_mention_slot(mention@, i as int) && self@.mention_slot(mention@)
                    == i,
                None => !self@.knows_mention(mention@),
            },
    {
        let wanted = mention.to_owned();
        let mut i: usize = 0;
        while i < self.users.len()
            invariant
                wanted@ == mention@,
                i <= self.users.len(),
                forall|j: int|
                    0 <= j < i ==> mention_text((#[trigger] self@.members[j]).discord_id)
                        != mention@,
            decreases self.users.len() - i,
        {
            let written = self::mention(self.users[i].discord_id);
            if written == wanted {
                proof {
                    self@.lemma_mention_slot_is(mention@, i as int);
                }
                return Some(i);
            }
            i += 1;
        }
        None
    }

    /// The first user that is mentioned so, unranked.
    fn get_user_by_discord_mention(&self, discord_mention: &str) -> (r: Option<User>)
        requires
            self@.valid(),
        ensures
            r.deep_view() == self@.resolve_mention(discord_mention@),
    {
        match self.mention_slot_of(discord_mention) {
            Some(i) => Some(self.profile_at(i, None)),
            None => None,
        }
    }

    /// The first user that is mentioned so, ranked.
    fn get_user_by_discord_mention_with_rank(&self, discord_mention: &str) -> (r: Option<User>)
        requires
            self@.valid(),
        ensures
            r.deep_view() == self@.resolve_mention_ranked(discord_mention@),
    {
        match self.mention_slot_of(discord_mention) {
            Some(i) => {
                let scores = self.scores();
                let points = self.points_of((i + 1) as i32);
                let rank = self.rank_among(&scores, points);
                Some(self.profile_at(i, Some(rank)))
            },
            None => None,
        }
    }

    /// Adds a member, unless the id is taken or the table is full.
    fn add_user(
        &mut self,
        discord_id: i64,
        discord_username: &str,
        friendly_name: &str,
    ) -> (r: Result<User, LedgerError>)
        requires
            old(self)@.valid(),
        ensures
            final(self)@.valid(),
            match old(self)@.registration_refusal(discord_id) {
                Some(e) => r == Err::<User, LedgerError>(e) && final(self)@ == old(self)@,
                None => {
                    &&& final(self)@ == old(self)@.register(
                        discord_id,
                        discord_username@,
                        friendly_name@,
                    )
                    &&& r is Ok
                    &&& r->Ok_0@ == final(self)@.profile(old(self)@.members.len() as int)
                },
            },
    {
        if self.slot_of(discord_id).is_some() {
            return Err(LedgerError::AlreadyExists);
        }
        let i: usize = self.users.len();
        if i >= 0x7fff_ffff {
            return Err(LedgerError::StoreUnavailable);
        }
        self.users.push(
            Account {
                discord_id,
                discord_username: discord_username.to_owned(),
                friendly_name: friendly_name.to_owned(),
            },
        );
        proof {
            assert(self@.members =~= old(self)@.members.push(
                Member {
                    discord_id,
                    discord_username: discord_username@,
                    friendly_name: friendly_name@,
                },
            ));
            assert(self@.demerits =~= old(self)@.demerits);
            assert(self@.merits =~= old(self)@.merits);
            old(self)@.lemma_register_valid(discord_id, discord_username@, friendly_name@);
        }
        Ok(self.profile_at(i, None))
    }

    /// Adds a demerit, unless one of the two is no member or the table is
    /// full.
    fn add_bbp_to_user_at(
        &mut self,
        target: &User,
        issuer: &User,
        description: &str,
        timestamp: i64,
    ) -> (r: Result<(), LedgerError>)
        requires
            old(self)@.valid(),
        ensures
            final(self)@.valid(),
            match old(self)@.entry_refusal(
                target.user_id,
                issuer.user_id,
                old(self)@.demerits.len(),
            ) {
                Some(e) => r == Err::<(), LedgerError>(e) && final(self)@ == old(self)@,
                None => r == Ok::<(), LedgerError>(()) && final(self)@ == old(self)@.record_demerit(
                    target.user_id,
                    issuer.user_id,
                    description@,
                    timestamp,
                ),
            },
    {
        if !self.holds_id(target.user_id) || !self.holds_id(issuer.user_id) {
            return Err(LedgerError::NotFound);
        }
        if self.bbps.len() >= 0x7fff_ffff {
            return Err(LedgerError::StoreUnavailable);
        }
        self.bbps.push(
            Bbp {
                user_id: target.user_id,
                issuer_id: issuer.user_id,
                description: description.to_owned(),
                timestamp,
                forgiven: false,
            },
        );
        proof {
            let after = old(self)@.record_demerit(
                target.user_id,
                issuer.user_id,
                description@,
                timestamp,
            );
            assert(self@.members =~= after.members);
            assert(self@.demerits =~= after.demerits);
            assert(self@.merits =~= after.merits);
            old(self)@.lemma_record_demerit_valid(
                target.user_id,
                issuer.user_id,
                description@,
                timestamp,
            );
        }
        Ok(())
    }

    /// Adds a merit, unless one of the two is no member or the table is full.
    fn add_gbp_to_user_at(
        &mut self,
        target: &User,
        issuer: &User,
        description: &str,
        timestamp: i64,
    ) -> (r: Result<(), LedgerError>)
        requires
            old(self)@.valid(),
        ensures
            final(self)@.valid(),
            match old(self)@.entry_refusal(
                target.user_id,
                issuer.user_id,
                old(self)@.merits.len(),
            ) {
                Some(e) => r == Err::<(), LedgerError>(e) && final(self)@ == old(self)@,
                None => r == Ok::<(), LedgerError>(()) && final(self)@ == old(self)@.record_merit(
                    target.user_id,
                    issuer.user_id,
                    description@,
                    timestamp,
                ),
            },
    {
        if !self.holds_id(target.user_id) || !self.holds_id(issuer.user_id) {
            return Err(LedgerError::NotFound);
        }
        if self.gbps.len() >= 0x7fff_ffff {
            return Err(LedgerError::StoreUnavailable);
        }
        self.gbps.push(
            Gbp {
                user_id: target.user_id,
                issuer_id: issuer.user_id,
                description: description.to_owned(),
                timestamp,
            },
        );
        proof {
            let after = old(self)@.record_merit(
                target.user_id,
                issuer.user_id,
                description@,
                timestamp,
            );
            assert(self@.members =~= after.members);
            assert(self@.demerits =~= after.demerits);
            assert(self@.merits =~= after.merits);
            old(self)@.lemma_record_merit_valid(
                target.user_id,
                issuer.user_id,
                description@,
                timestamp,
            );
        }
        Ok(())
    }

    /// When each demerit was given, by index.
    fn stamps(&self) -> (r: Vec<i64>)
        ensures
            r@ == self@.stamps(),
    {
        let mut out: Vec<i64> = Vec::new();
        let mut k: usize = 0;
        while k < self.bbps.len()
            invariant
                k <= self.bbps.len(),
                out.len() == k,
                forall|j: int| 0 <= j < k ==> out[j] == self@.demerits[j].timestamp,
            decreases self.bbps.len() - k,
        {
            out.push(self.bbps[k].timestamp);
            k += 1;
        }
        assert(out@ =~= self@.stamps());
        out
    }

    /// The demerits that `issuer` can forgive `target`, as a selection by
    /// index.
    fn forgivable(&self, target: i32, issuer: i32) -> (r: Vec<bool>)
        ensures
            r@ == self@.forgivable(target, issuer),
    {
        let mut out: Vec<bool> = Vec::new();
        let mut k: usize = 0;
        while k < self.bbps.len()
            invariant
                k <= self.bbps.len(),
                out.len() == k,
                forall|j: int| 0 <= j < k ==> out[j] == self@.forgivable(target, issuer)[j],
            decreases self.bbps.len() - k,
        {
            let entry = &self.bbps[k];
            out.push(entry.issuer_id == issuer && entry.user_id == target && !entry.forgiven);
            k += 1;
        }
        assert(out@ =~= self@.forgivable(target, issuer));
        out
    }

    /// The demerits given to `user_id`, as a selection by index.
    fn received(&self, user_id: i32) -> (r: Vec<bool>)
        ensures
            r@ == self@.received(user_id),
    {
        let mut out: Vec<bool> = Vec::new();
        let mut k: usize = 0;
        while k < self.bbps.len()
            invariant
                k <= self.bbps.len(),
                out.len() == k,
                forall|j: int| 0 <= j < k ==> out[j] == self@.received(user_id)[j],
            decreases self.bbps.len() - k,
        {
            out.push(self.bbps[k].user_id == user_id);
            k += 1;
        }
        assert(out@ =~= self@.received(user_id));
        out
    }

    /// Every member, as a selection by index.
    fn everyone(&self) -> (r: Vec<bool>)
        ensures
            r@ == self@.everyone(),
    {
        let mut out: Vec<bool> = Vec::new();
        while out.len() < self.users.len()
            invariant
                out.len() <= self.users.len(),
                forall|j: int| 0 <= j < out.len() ==> out[j],
            decreases self.users.len() - out.len(),
        {
            out.push(true);
        }
        assert(out@ =~= self@.everyone());
        out
    }

    /// Marks the latest demerit that `issuer` can forgive `target`, if there is
    /// one.
    fn forgive_user(&mut self, target: &User, issuer: &User) -> (r: Option<String>)
        requires
            old(self)@.valid(),
        ensures
            final(self)@.valid(),
            final(self)@ == old(self)@.forgive(target.user_id, issuer.user_id),
            r.deep_view() == old(self)@.forgiven_reason(target.user_id, issuer.user_id),
    {
        let stamps = self.stamps();
        let open = self.forgivable(target.user_id, issuer.user_id);
        let order = select_leading(&stamps, &open, false, 1);
        if order.len() == 0 {
            return None;
        }
        let k: usize = order[0];
        let reason = self.bbps[k].description.clone();
        self.bbps[k].forgiven = true;
        proof {
            let after = old(self)@.with_forgiven(k as int);
            assert(self@.members =~= after.members);
            assert(self@.demerits =~= after.demerits);
            assert(self@.merits =~= after.merits);
            old(self)@.lemma_with_forgiven_valid(k as int);
        }
        Some(reason)
    }

    /// The first `limit` members by points, each with their rank.
    fn get_leaderboard(&self, limit: usize) -> (r: Vec<LeaderboardUser>)
        requires
            self@.valid(),
        ensures
            r.deep_view() == self@.leaderboard(limit as nat),
    {
        let scores = self.scores();
        let everyone = self.everyone();
        let order = select_leading(&scores, &everyone, true, limit);
        let mut rows: Vec<LeaderboardUser> = Vec::new();
        let mut p: usize = 0;
        while p < order.len()
            invariant
                self@.valid(),
                scores@ == self@.scores(),
                p <= order.len(),
                rows.len() == p,
                order@.len() == self@.board_order(limit as nat).len(),
                forall|q: int|
                    0 <= q < order@.len() ==> holds_place(
                        scores@,
                        everyone@,
                        true,
                        q,
                        #[trigger] order@[q] as int,
                    ),
                forall|q: int|
                    0 <= q < order@.len() ==> #[trigger] order@[q] as int == self@.board_order(
                        limit as nat,
                    )[q],
                forall|q: int| 0 <= q < p ==> rows[q]@ == self@.board_row(order@[q] as int),
            decreases order.len() - p,
        {
            let i: usize = order[p];
            assert(holds_place(scores@, everyone@, true, p as int, order@[p as int] as int));
            let user = self.profile_at(i, None);
            let rank = self.rank_among(&scores, user.points);
            proof {
                self@.lemma_figures_fit(id_of(i as int));
            }
            rows.push(
                LeaderboardUser {
                    user_id: user.user_id,
                    discord_username: user.discord_username,
                    discord_mention: user.discord_mention,
                    discord_id: user.discord_id,
                    friendly_name: user.friendly_name,
                    points: user.points,
                    bbps_issued: user.bbps_issued,
                    gbps_issued: user.gbps_issued,
                    rank,
                },
            );
            p += 1;
        }
        assert(rows.deep_view() =~= self@.leaderboard(limit as nat));
        rows
    }

    /// The latest `limit` demerits of the user that carries the external id.
    fn get_user_history(
        &self,
        discord_id: i64,
        limit: usize,
    ) -> (r: Result<Vec<HistoryRecord>, LedgerError>)
        requires
            self@.valid(),
        ensures
            match r {
                Ok(rows) => self@.knows(discord_id) && rows.deep_view() == self@.history(
                    id_of(self@.slot(discord_id)),
                    limit as nat,
                ),
                Err(e) => !self@.knows(discord_id) && e == LedgerError::NotFound,
            },
    {
        let user_id: i32 = match self.slot_of(discord_id) {
            Some(i) => (i + 1) as i32,
            None => {
                return Err(LedgerError::NotFound);
            },
        };
        let stamps = self.stamps();
        let received = self.received(user_id);
        let order = select_leading(&stamps, &received, false, limit);
        let mut rows: Vec<HistoryRecord> = Vec::new();
        let mut p: usize = 0;
        while p < order.len()
            invariant
                self@.valid(),
                p <= order.len(),
                rows.len() == p,
                order@.len() == self@.history_order(user_id, limit as nat).len(),
                forall|q: int|
                    0 <= q < order@.len() ==> holds_place(
                        stamps@,
                        received@,
                        false,
                        q,
                        #[trigger] order@[q] as int,
                    ),
                stamps@.len() == self@.demerits.len(),
                forall|q: int|
                    0 <= q < order@.len() ==> #[trigger] order@[q] as int == self@.history_order(
                        user_id,
                        limit as nat,
                    )[q],
                forall|q: int| 0 <= q < p ==> rows[q]@ == self@.history_row(order@[q] as int),
            decreases order.len() - p,
        {
            let k: usize = order[p];
            assert(holds_place(stamps@, received@, false, p as int, order@[p as int] as int));
            let entry = &self.bbps[k];
            assert(self@.has_id(self@.demerits[k as int].issuer));
            let issuer = &self.users[(entry.issuer_id - 1) as usize];
            rows.push(
                HistoryRecord {
                    issuer_friendly_name: issuer.friendly_name.clone(),
                    description: entry.description.clone(),
                    timestamp: entry.timestamp,
                },
            );
            p += 1;
        }
        assert(rows.deep_view() =~= self@.history(user_id, limit as nat));
        Ok(rows)
    }
}

/// The ledger: members, demerits and merits, kept in memory.
///
/// Its value is a [`Book`], and the book of a ledger is always valid.
pub struct Ledger {
    tables: Tables,
}

impl View for Ledger {
    type V = Book;

    closed spec fn view(&self) -> Book {
        self.tables@
    }
}

impl Ledger {
    /// What holds of every ledger: its book is valid.
    #[verifier::type_invariant]
    pub open spec fn well_formed(self) -> bool {
        self@.valid()
    }

    /// Takes the tables out to change them, leaving tables with no rows.
    fn take(&mut self) -> (tables: Tables)
        ensures
            tables@ == old(self)@,
            tables@.valid(),
    {
        proof {
            use_type_invariant(&*self);
        }
        let mut tables = Tables::new();
        std::mem::swap(&mut self.tables, &mut tables);
        tables
    }

    /// A ledger with nothing in it.
    pub fn new() -> (r: Ledger)
        ensures
            r@ == Book::empty(),
            r@.valid(),
    {
        Ledger { tables: Tables::new() }
    }

    /// Looks a user up by their external id.
    ///
    /// Answers the user with their standing and no rank, or nothing if no
    /// user carries the id.
    pub fn get_user_by_discord_id(&self, discord_id: i64) -> (r: Option<User>)
        ensures
            r.deep_view() == self@.resolve(discord_id),
    {
        proof {
            use_type_invariant(self);
        }
        self.tables.get_user_by_discord_id(discord_id)
    }

    /// Looks a user up by their external id and ranks them among all members.
    ///
    /// Answers the user with their standing and rank, or nothing if no user
    /// carries the id.
    pub fn get_user_by_discord_id_with_rank(&self, discord_id: i64) -> (r: Option<User>)
        ensures
            r.deep_view() == self@.resolve_ranked(discord_id),
    {
        proof {
            use_type_invariant(self);
        }
        self.tables.get_user_by_discord_id_with_rank(discord_id)
    }

    /// Looks a user up by how they are mentioned.
    ///
    /// Answers the user with their standing and no rank, or nothing if no
    /// user is mentioned so.
    pub fn get_user_by_discord_mention(&self, discord_mention: &str) -> (r: Option<User>)
        ensures
            r.deep_view() == self@.resolve_mention(discord_mention@),
    {
        proof {
            use_type_invariant(self);
        }
        self.tables.get_user_by_discord_mention(discord_mention)
    }

    /// Looks a user up by how they are mentioned and ranks them among all
    /// members.
    ///
    /// Answers the user with their standing and rank, or nothing if no user
    /// is mentioned so.
    pub fn get_user_by_discord_mention_with_rank(&self, discord_mention: &str) -> (r: Option<User>)
        ensures
            r.deep_view() == self@.resolve_mention_ranked(discord_mention@),
    {
        proof {
            use_type_invariant(self);
        }
        self.tables.get_user_by_discord_mention_with_rank(discord_mention)
    }

    /// Registers a user under an external id.
    ///
    /// Refuses an id that a user already carries, and a registration that the
    /// members' table has no room for.  Otherwise the new user is the last
    /// member, and is answered with their standing.
    pub fn add_user(
        &mut self,
        discord_id: i64,
        discord_username: &str,
        friendly_name: &str,
    ) -> (r: Result<User, LedgerError>)
        ensures
            final(self)@.valid(),
            match old(self)@.registration_refusal(discord_id) {
                Some(e) => r == Err::<User, LedgerError>(e) && final(self)@ == old(self)@,
                None => {
                    &&& final(self)@ == old(self)@.register(
                        discord_id,
                        discord_username@,
                        friendly_name@,
                    )
                    &&& r is Ok
                    &&& r->Ok_0@ == final(self)@.profile(old(self)@.members.len() as int)
                },
            },
    {
        let mut tables = self.take();
        let r = tables.add_user(discord_id, discord_username, friendly_name);
        self.tables = tables;
        r
    }

    /// Records a demerit against `target`, given by `issuer` at the moment
    /// `timestamp`.
    ///
    /// Only the internal ids of the two users are read; they may be the same
    /// user.  Refuses ids that no member has, and an entry that the demerits'
    /// table has no room for.  Otherwise the demerit is the last of its table
    /// and stands unforgiven.
    pub fn add_bbp_to_user_at(
        &mut self,
        target: &User,
        issuer: &User,
        description: &str,
        timestamp: i64,
    ) -> (r: Result<(), LedgerError>)
        ensures
            final(self)@.valid(),
            match old(self)@.entry_refusal(
                target.user_id,
                issuer.user_id,
                old(self)@.demerits.len(),
            ) {
                Some(e) => r == Err::<(), LedgerError>(e) && final(self)@ == old(self)@,
                None => r == Ok::<(), LedgerError>(()) && final(self)@ == old(self)@.record_demerit(
                    target.user_id,
                    issuer.user_id,
                    description@,
                    timestamp,
                ),
            },
    {
        let mut tables = self.take();
        let r = tables.add_bbp_to_user_at(target, issuer, description, timestamp);
        self.tables = tables;
        r
    }

    /// Records a demerit against `target`, given by `issuer` now.
    ///
    /// As [`Ledger::add_bbp_to_user_at`], at the moment that the clock reads.
    pub fn add_bbp_to_user(
        &mut self,
        target: &User,
        issuer: &User,
        description: &str,
    ) -> (r: Result<(), LedgerError>)
        ensures
            final(self)@.valid(),
            match old(self)@.entry_refusal(
                target.user_id,
                issuer.user_id,
                old(self)@.demerits.len(),
            ) {
                Some(e) => r == Err::<(), LedgerError>(e) && final(self)@ == old(self)@,
                None => r == Ok::<(), LedgerError>(()) && exists|timestamp: i64|
                    final(self)@ == old(self)@.record_demerit(
                        target.user_id,
                        issuer.user_id,
                        description@,
                        timestamp,
                    ),
            },
    {
        let timestamp = now();
        self.add_bbp_to_user_at(target, issuer, description, timestamp)
    }

    /// Records a merit for `target`, given by `issuer` at the moment
    /// `timestamp`.
    ///
    /// Only the internal ids of the two users are read.  Refuses ids that no
    /// member has, and an entry that the merits' table has no room for.
    /// Otherwise the merit is the last of its table.
    pub fn add_gbp_to_user_at(
        &mut self,
        target: &User,
        issuer: &User,
        description: &str,
        timestamp: i64,
    ) -> (r: Result<(), LedgerError>)
        ensures
            final(self)@.valid(),
            match old(self)@.entry_refusal(
                target.user_id,
                issuer.user_id,
                old(self)@.merits.len(),
            ) {
                Some(e) => r == Err::<(), LedgerError>(e) && final(self)@ == old(self)@,
                None => r == Ok::<(), LedgerError>(()) && final(self)@ == old(self)@.record_merit(
                    target.user_id,
                    issuer.user_id,
                    description@,
                    timestamp,
                ),
            },
    {
        let mut tables = self.take();
        let r = tables.add_gbp_to_user_at(target, issuer, description, timestamp);
        self.tables = tables;
        r
    }

    /// Records a merit for `target`, given by `issuer` now.
    ///
    /// As [`Ledger::add_gbp_to_user_at`], at the moment that the clock reads.
    pub fn add_gbp_to_user(
        &mut self,
        target: &User,
        issuer: &User,
        description: &str,
    ) -> (r: Result<(), LedgerError>)
        ensures
            final(self)@.valid(),
            match old(self)@.entry_refusal(
                target.user_id,
                issuer.user_id,
                old(self)@.merits.len(),
            ) {
                Some(e) => r == Err::<(), LedgerError>(e) && final(self)@ == old(self)@,
                None => r == Ok::<(), LedgerError>(()) && exists|timestamp: i64|
                    final(self)@ == old(self)@.record_merit(
                        target.user_id,
                        issuer.user_id,
                        description@,
                        timestamp,
                    ),
            },
    {
        let timestamp = now();
        self.add_gbp_to_user_at(target, issuer, description, timestamp)
    }

    /// Forgives the latest demerit that `issuer` gave `target` and that is not
    /// yet forgiven.
    ///
    /// Only the internal ids of the two users are read.  Of two such demerits
    /// given at the same moment the one recorded later is taken.  Answers the
    /// reason of the demerit forgiven; if there is none to forgive, answers
    /// nothing and changes nothing.  No other entry is touched.
    pub fn forgive_user(&mut self, target: &User, issuer: &User) -> (r: Option<String>)
        ensures
            final(self)@.valid(),
            final(self)@ == old(self)@.forgive(target.user_id, issuer.user_id),
            r.deep_view() == old(self)@.forgiven_reason(target.user_id, issuer.user_id),
    {
        let mut tables = self.take();
        let r = tables.forgive_user(target, issuer);
        self.tables = tables;
        r
    }

    /// The leaderboard: the first `limit` members by points, highest first,
    /// each with their rank.
    ///
    /// Members with equal points share a rank and stand in the order in which
    /// they were registered.  With no members the leaderboard is empty.
    pub fn get_leaderboard(&self, limit: usize) -> (r: Vec<LeaderboardUser>)
        ensures
            r.deep_view() == self@.leaderboard(limit as nat),
    {
        proof {
            use_type_invariant(self);
        }
        self.tables.get_leaderboard(limit)
    }

    /// The latest `limit` demerits given to the user that carries the
    /// external id, latest first, each with the name that its issuer has now.
    ///
    /// Forgiven demerits are listed too.  Of two demerits given at the same
    /// moment the one recorded later comes first.  A user without demerits
    /// has an empty history; an id that no user carries is refused.
    pub fn get_user_history(
        &self,
        discord_id: i64,
        limit: usize,
    ) -> (r: Result<Vec<HistoryRecord>, LedgerError>)
        ensures
            match r {
                Ok(rows) => self@.knows(discord_id) && rows.deep_view() == self@.history(
                    id_of(self@.slot(discord_id)),
                    limit as nat,
                ),
                Err(e) => !self@.knows(discord_id) && e == LedgerError::NotFound,
            },
    {
        proof {
            use_type_invariant(self);
        }
        self.tables.get_user_history(discord_id, limit)
    }
}

} // verus!
