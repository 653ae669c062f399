//! The records that the ledger hands out, and its errors.

use vstd::prelude::*;
use vstd::std_specs::cmp::PartialEqSpecImpl;

verus! {

/// What can go wrong in the ledger or on the way to it.
#[derive(Debug, Clone, Copy, PartialEq, Eq, Structural)]
pub enum LedgerError {
    /// No user is known under the identifier given.
    NotFound,
    /// A user is already registered under the identifier given.
    AlreadyExists,
    /// No unforgiven demerit of the issuer stands against the target.
    NothingToForgive,
    /// Another forgiveness took the entry first.
    Conflict,
    /// The store could not take or answer the request.
    StoreUnavailable,
    /// The store answered with more than it can hold of one thing.
    InvariantViolation,
}

/// The mathematical value of an optional text.
pub open spec fn text_of(s: Option<String>) -> Option<Seq<char>> {
    match s {
        Some(t) => Some(t@),
        None => None,
    }
}

/// A user with the standing derived from the ledger.
#[derive(Debug)]
pub struct User {
    pub user_id: i32,
    pub username: Option<String>,
    pub discord_username: Option<String>,
    pub discord_mention: Option<String>,
    pub discord_id: i64,
    pub friendly_name: Option<String>,
    pub points: i32,
    pub bbps_issued: i32,
    pub gbps_issued: i32,
    pub rank: Option<i64>,
}

/// The mathematical value of a [`User`].
pub struct UserView {
    pub user_id: i32,
    pub username: Option<Seq<char>>,
    pub discord_username: Option<Seq<char>>,
    pub discord_mention: Option<Seq<char>>,
    pub discord_id: i64,
    pub friendly_name: Option<Seq<char>>,
    pub points: i32,
    pub bbps_issued: i32,
    pub gbps_issued: i32,
    pub rank: Option<i64>,
}

impl View for User {
    type V = UserView;

    open spec fn view(&self) -> UserView {
        UserView {
            user_id: self.user_id,
            username: text_of(self.username),
            discord_username: text_of(self.discord_username),
            discord_mention: text_of(self.discord_mention),
            discord_id: self.discord_id,
            friendly_name: text_of(self.friendly_name),
            points: self.points,
            bbps_issued: self.bbps_issued,
            gbps_issued: self.gbps_issued,
            rank: self.rank,
        }
    }
}

impl DeepView for User {
    type V = UserView;

    open spec fn deep_view(&self) -> UserView {
        self@
    }
}

impl Clone for User {
    fn clone(&self) -> (r: Self)
        ensures
            r == *self,
    {
        User {
            user_id: self.user_id,
            username: self.username.clone(),
            discord_username: self.discord_username.clone(),
            discord_mention: self.discord_mention.clone(),
            discord_id: self.discord_id,
            friendly_name: self.friendly_name.clone(),
            points: self.points,
            bbps_issued: self.bbps_issued,
            gbps_issued: self.gbps_issued,
            rank: self.rank,
        }
    }
}

/// Two users are the same user when their internal ids agree.
impl PartialEq for User {
    fn eq(&self, other: &Self) -> (r: bool) {
        self.user_id == other.user_id
    }
}

impl PartialEqSpecImpl for User {
    open spec fn obeys_eq_spec() -> bool {
        true
    }

    open spec fn eq_spec(&self, other: &Self) -> bool {
        self.user_id == other.user_id
    }
}

/// One line of the leaderboard: a user and their rank.
#[derive(Debug)]
pub struct LeaderboardUser {
    pub user_id: i32,
    pub discord_username: Option<String>,
    pub discord_mention: Option<String>,
    pub discord_id: i64,
    pub friendly_name: Option<String>,
    pub points: i32,
    pub bbps_issued: i32,
    pub gbps_issued: i32,
    pub rank: i64,
}

/// The mathematical value of a [`LeaderboardUser`].
pub struct LeaderboardUserView {
    pub user_id: i32,
    pub discord_username: Option<Seq<char>>,
    pub discord_mention: Option<Seq<char>>,
    pub discord_id: i64,
    pub friendly_name: Option<Seq<char>>,
    pub points: i32,
    pub bbps_issued: i32,
    pub gbps_issued: i32,
    pub rank: i64,
}

impl View for LeaderboardUser {
    type V = LeaderboardUserView;

    open spec fn view(&self) -> LeaderboardUserView {
        LeaderboardUserView {
            user_id: self.user_id,
            discord_username: text_of(self.discord_username),
            discord_mention: text_of(self.discord_mention),
            discord_id: self.discord_id,
            friendly_name: text_of(self.friendly_name),
            points: self.points,
            bbps_issued: self.bbps_issued,
            gbps_issued: self.gbps_issued,
            rank: self.rank,
        }
    }
}

impl DeepView for LeaderboardUser {
    type V = LeaderboardUserView;

    open spec fn deep_view(&self) -> LeaderboardUserView {
        self@
    }
}

impl Clone for LeaderboardUser {
    fn clone(&self) -> (r: Self)
        ensures
            r == *self,
    {
        LeaderboardUser {
            user_id: self.user_id,
            discord_username: self.discord_username.clone(),
            discord_mention: self.discord_mention.clone(),
            discord_id: self.discord_id,
            friendly_name: self.friendly_name.clone(),
            points: self.points,
            bbps_issued: self.bbps_issued,
            gbps_issued: self.gbps_issued,
            rank: self.rank,
        }
    }
}

/// One demerit of a user's history: who gave it, why and when.
///
/// The timestamp counts microseconds since 1970-01-01 00:00:00 UTC.
#[derive(Debug)]
pub struct HistoryRecord {
    pub issuer_friendly_name: String,
    pub description: String,
    pub timestamp: i64,
}

/// The mathematical value of a [`HistoryRecord`].
pub struct HistoryRecordView {
    pub issuer_friendly_name: Seq<char>,
    pub description: Seq<char>,
    pub timestamp: i64,
}

impl View for HistoryRecord {
    type V = HistoryRecordView;

    open spec fn view(&self) -> HistoryRecordView {
        HistoryRecordView {
            issuer_friendly_name: self.issuer_friendly_name@,
            description: self.description@,
            timestamp: self.timestamp,
        }
    }
}

impl DeepView for HistoryRecord {
    type V = HistoryRecordView;

    open spec fn deep_view(&self) -> HistoryRecordView {
        self@
    }
}

impl Clone for HistoryRecord {
    fn clone(&self) -> (r: Self)
        ensures
            r == *self,
    {
        HistoryRecord {
            issuer_friendly_name: self.issuer_friendly_name.clone(),
            description: self.description.clone(),
            timestamp: self.timestamp,
        }
    }
}

} // verus!
