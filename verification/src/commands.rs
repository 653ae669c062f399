//! The commands, as conversations with a store.
//!
//! A command does not touch a store itself.  It is a [`Flow`]: started, it
//! asks a first [`Request`]; handed the store's [`Response`], it asks the
//! next, until it has a reply to say or a failure to pass on.  Whoever holds
//! the store carries the requests out, so the same decisions serve a ledger
//! in memory and one that is reached over a network.

use vstd::prelude::*;
use vstd::string::*;
use crate::clock::{calendar_text, format_moment};
use crate::text::{
    added_user_reply, added_user_text, board_named, board_text, forgiven_reply, forgiven_text,
    given_reply, given_text, history_reply, history_text, leaderboard_reply, self_merit_reply,
    self_merit_text, spoken_self_merit_reply, spoken_self_merit_text, standing_reply,
    standing_text,
};
use crate::types::{
    text_of, HistoryRecord, HistoryRecordView, LeaderboardUser, LeaderboardUserView, LedgerError,
    User, UserView,
};

verus! {

/// How many lines a leaderboard or a history has where nothing else is asked.
pub const DEFAULT_LIMIT: usize = 10;

/// The reason recorded against a user who tried to give themselves a merit.
pub open spec fn self_merit_reason() -> Seq<char> {
    "attempted self-merit"@
}

/// How the dates of a history are written.
pub open spec fn date_pattern() -> Seq<char> {
    "%Y-%m-%d"@
}

/// What a user asks for.
#[derive(Debug)]
pub enum Command {
    /// `issuer` gives `target` a demerit.
    Bbp { issuer: i64, target: i64, description: String },
    /// `issuer` gives `target` a merit.
    Gbp { issuer: i64, target: i64, description: String },
    /// `issuer` forgives `target` the latest demerit.
    Forgive { issuer: i64, target: i64 },
    /// A user is registered.
    AddUser { discord_id: i64, discord_username: String, friendly_name: String },
    /// The first `limit` users by points.
    Leaderboard { limit: usize },
    /// The latest `limit` demerits of a user.
    History { discord_id: i64, limit: usize },
    /// A demerit asked for in a text message, both users known by their
    /// mentions.
    TextBbp { issuer_mention: String, target_mention: String, description: String },
    /// A merit asked for in a text message.
    TextGbp { issuer_mention: String, target_mention: String, description: String },
    /// A forgiveness asked for in a text message.
    TextForgive { issuer_mention: String, target_mention: String },
}

/// The mathematical value of a [`Command`].
pub enum CommandView {
    Bbp { issuer: i64, target: i64, description: Seq<char> },
    Gbp { issuer: i64, target: i64, description: Seq<char> },
    Forgive { issuer: i64, target: i64 },
    AddUser { discord_id: i64, discord_username: Seq<char>, friendly_name: Seq<char> },
    Leaderboard { limit: usize },
    History { discord_id: i64, limit: usize },
    TextBbp { issuer_mention: Seq<char>, target_mention: Seq<char>, description: Seq<char> },
    TextGbp { issuer_mention: Seq<char>, target_mention: Seq<char>, description: Seq<char> },
    TextForgive { issuer_mention: Seq<char>, target_mention: Seq<char> },
}

impl View for Command {
    type V = CommandView;

    open spec fn view(&self) -> CommandView {
        match *self {
            Command::Bbp { issuer, target, description } => CommandView::Bbp {
                issuer,
                target,
                description: description@,
            },
            Command::Gbp { issuer, target, description } => CommandView::Gbp {
                issuer,
                target,
                description: description@,
            },
            Command::Forgive { issuer, target } => CommandView::Forgive { issuer, target },
            Command::AddUser { discord_id, discord_username, friendly_name } => {
                CommandView::AddUser {
                    discord_id,
                    discord_username: discord_username@,
                    friendly_name: friendly_name@,
                }
            },
            Command::Leaderboard { limit } => CommandView::Leaderboard { limit },
            Command::History { discord_id, limit } => CommandView::History { discord_id, limit },
            Command::TextBbp { issuer_mention, target_mention, description } => {
                CommandView::TextBbp {
                    issuer_mention: issuer_mention@,
                    target_mention: target_mention@,
                    description: description@,
                }
            },
            Command::TextGbp { issuer_mention, target_mention, description } => {
                CommandView::TextGbp {
                    issuer_mention: issuer_mention@,
                    target_mention: target_mention@,
                    description: description@,
                }
            },
            Command::TextForgive { issuer_mention, target_mention } => CommandView::TextForgive {
                issuer_mention: issuer_mention@,
                target_mention: target_mention@,
            },
        }
    }
}

/// What a flow asks of the store.
#[derive(Debug)]
pub enum Request {
    /// The user that carries an external id.
    GetUser { discord_id: i64 },
    /// The user that carries an external id, with their rank.
    GetRankedUser { discord_id: i64 },
    /// The user that is mentioned so.
    GetUserByMention { mention: String },
    /// The user that is mentioned so, with their rank.
    GetRankedUserByMention { mention: String },
    /// Register a user.
    AddUser { discord_id: i64, discord_username: String, friendly_name: String },
    /// Record a demerit.
    AddBbp { target: User, issuer: User, description: String },
    /// Record a merit.
    AddGbp { target: User, issuer: User, description: String },
    /// Forgive the latest demerit.
    Forgive { target: User, issuer: User },
    /// The leaderboard.
    Leaderboard { limit: usize },
    /// The history of the user that carries an external id.
    History { discord_id: i64, limit: usize },
}

/// The mathematical value of a [`Request`].
pub enum RequestView {
    GetUser { discord_id: i64 },
    GetRankedUser { discord_id: i64 },
    GetUserByMention { mention: Seq<char> },
    GetRankedUserByMention { mention: Seq<char> },
    AddUser { discord_id: i64, discord_username: Seq<char>, friendly_name: Seq<char> },
    AddBbp { target: UserView, issuer: UserView, description: Seq<char> },
    AddGbp { target: UserView, issuer: UserView, description: Seq<char> },
    Forgive { target: UserView, issuer: UserView },
    Leaderboard { limit: usize },
    History { discord_id: i64, limit: usize },
}

impl View for Request {
    type V = RequestView;

    open spec fn view(&self) -> RequestView {
        match *self {
            Request::GetUser { discord_id } => RequestView::GetUser { discord_id },
            Request::GetRankedUser { discord_id } => RequestView::GetRankedUser { discord_id },
            Request::GetUserByMention { mention } => RequestView::GetUserByMention {
                mention: mention@,
            },
            Request::GetRankedUserByMention { mention } => RequestView::GetRankedUserByMention {
                mention: mention@,
            },
            Request::AddUser { discord_id, discord_username, friendly_name } => {
                RequestView::AddUser {
                    discord_id,
                    discord_username: discord_username@,
                    friendly_name: friendly_name@,
                }
            },
            Request::AddBbp { target, issuer, description } => RequestView::AddBbp {
                target: target@,
                issuer: issuer@,
                description: description@,
            },
            Request::AddGbp { target, issuer, description } => RequestView::AddGbp {
                target: target@,
                issuer: issuer@,
                description: description@,
            },
            Request::Forgive { target, issuer } => RequestView::Forgive {
                target: target@,
                issuer: issuer@,
            },
            Request::Leaderboard { limit } => RequestView::Leaderboard { limit },
            Request::History { discord_id, limit } => RequestView::History { discord_id, limit },
        }
    }
}

/// What the store answers.
#[derive(Debug)]
pub enum Response {
    /// To a lookup or a registration: the user, if there is one.
    User(Result<Option<User>, LedgerError>),
    /// To a demerit or a merit: whether it was recorded.
    Written(Result<(), LedgerError>),
    /// To a forgiveness: the reason of the demerit forgiven, if there was one.
    Forgiven(Result<Option<String>, LedgerError>),
    /// The leaderboard.
    Leaderboard(Result<Vec<LeaderboardUser>, LedgerError>),
    /// A history.
    History(Result<Vec<HistoryRecord>, LedgerError>),
}

/// The mathematical value of a [`Response`].
pub enum ResponseView {
    User(Result<Option<UserView>, LedgerError>),
    Written(Result<(), LedgerError>),
    Forgiven(Result<Option<Seq<char>>, LedgerError>),
    Leaderboard(Result<Seq<LeaderboardUserView>, LedgerError>),
    History(Result<Seq<HistoryRecordView>, LedgerError>),
}

impl View for Response {
    type V = ResponseView;

    open spec fn view(&self) -> ResponseView {
        match *self {
            Response::User(Ok(user)) => ResponseView::User(Ok(user.deep_view())),
            Response::User(Err(e)) => ResponseView::User(Err(e)),
            Response::Written(r) => ResponseView::Written(r),
            Response::Forgiven(Ok(reason)) => ResponseView::Forgiven(Ok(text_of(reason))),
            Response::Forgiven(Err(e)) => ResponseView::Forgiven(Err(e)),
            Response::Leaderboard(Ok(rows)) => ResponseView::Leaderboard(Ok(rows.deep_view())),
            Response::Leaderboard(Err(e)) => ResponseView::Leaderboard(Err(e)),
            Response::History(Ok(records)) => ResponseView::History(Ok(records.deep_view())),
            Response::History(Err(e)) => ResponseView::History(Err(e)),
        }
    }
}

/// What a flow does next.
#[derive(Debug)]
pub enum Step {
    /// Asks the store, and waits for its response.
    Ask(Request),
    /// Ends with a reply to the user.
    Say(String),
    /// Ends without a reply.
    End,
    /// Ends with a failure that is passed on unanswered.
    Abort(LedgerError),
}

/// The mathematical value of a [`Step`].
pub enum StepView {
    Ask(RequestView),
    Say(Seq<char>),
    End,
    Abort(LedgerError),
}

impl View for Step {
    type V = StepView;

    open spec fn view(&self) -> StepView {
        match *self {
            Step::Ask(request) => StepView::Ask(request@),
            Step::Say(text) => StepView::Say(text@),
            Step::End => StepView::End,
            Step::Abort(e) => StepView::Abort(e),
        }
    }
}

/// What a flow is waiting for.
#[derive(Debug, Clone, Copy, PartialEq, Eq, Structural)]
pub enum Stage {
    /// The issuer, looked up.
    Issuer,
    /// The target, looked up.
    Target,
    /// Whether the user to register exists already.
    Existing,
    /// The outcome of the write.
    Write,
    /// The target with their rank.
    Rank,
    /// The lines to show.
    Listing,
    /// Nothing: the flow has ended.
    Closed,
}

/// A command under way: what was asked for, what the flow waits for, and
/// what it has learnt so far.
#[derive(Debug)]
pub struct Flow {
    command: Command,
    stage: Stage,
    issuer: Option<User>,
    target: Option<User>,
    reason: Option<String>,
}

/// The mathematical value of a [`Flow`].
pub struct FlowView {
    pub command: CommandView,
    pub stage: Stage,
    pub issuer: Option<UserView>,
    pub target: Option<UserView>,
    pub reason: Option<Seq<char>>,
}

impl View for Flow {
    type V = FlowView;

    closed spec fn view(&self) -> FlowView {
        FlowView {
            command: self.command@,
            stage: self.stage,
            issuer: self.issuer.deep_view(),
            target: self.target.deep_view(),
            reason: text_of(self.reason),
        }
    }
}

/// The conversations between two users.
#[derive(Debug, Clone, Copy, PartialEq, Eq, Structural)]
pub enum Kind {
    /// A demerit.
    Demerit,
    /// A merit that a user tried to give themselves: it becomes a demerit.
    SelfMerit,
    /// A merit.
    Merit,
    /// A forgiveness.
    Forgiveness,
}

/// Which conversation between two users a command holds, if it holds one.  A
/// merit whose issuer is its target is a self-merit, whatever is said about
/// it.
pub open spec fn kind_of(command: CommandView) -> Option<Kind> {
    match command {
        CommandView::Bbp { .. } => Some(Kind::Demerit),
        CommandView::Gbp { issuer, target, .. } => if issuer == target {
            Some(Kind::SelfMerit)
        } else {
            Some(Kind::Merit)
        },
        CommandView::Forgive { .. } => Some(Kind::Forgiveness),
        CommandView::TextBbp { .. } => Some(Kind::Demerit),
        CommandView::TextGbp { issuer_mention, target_mention, .. } => if issuer_mention
            == target_mention {
            Some(Kind::SelfMerit)
        } else {
            Some(Kind::Merit)
        },
        CommandView::TextForgive { .. } => Some(Kind::Forgiveness),
        _ => None,
    }
}

/// Whether a command was asked for in a text message.  Such a command knows
/// its users by their mentions, keeps its failures to itself, and confirms
/// an entry with the target's standing alone.
pub open spec fn spoken(command: CommandView) -> bool {
    command is TextBbp || command is TextGbp || command is TextForgive
}

/// The mention of the issuer of a command asked for in a text message.
pub open spec fn issuer_mention_of(command: CommandView) -> Seq<char> {
    match command {
        CommandView::TextBbp { issuer_mention, .. } => issuer_mention,
        CommandView::TextGbp { issuer_mention, .. } => issuer_mention,
        CommandView::TextForgive { issuer_mention, .. } => issuer_mention,
        _ => Seq::empty(),
    }
}

/// The mention of the target of a command asked for in a text message.
pub open spec fn target_mention_of(command: CommandView) -> Seq<char> {
    match command {
        CommandView::TextBbp { target_mention, .. } => target_mention,
        CommandView::TextGbp { target_mention, .. } => target_mention,
        CommandView::TextForgive { target_mention, .. } => target_mention,
        _ => Seq::empty(),
    }
}

/// How a command looks its issuer up.
pub open spec fn issuer_lookup(command: CommandView) -> RequestView {
    if spoken(command) {
        RequestView::GetUserByMention { mention: issuer_mention_of(command) }
    } else {
        RequestView::GetUser { discord_id: issuer_of(command) }
    }
}

/// How a command looks its target up.
pub open spec fn target_lookup(command: CommandView) -> RequestView {
    if spoken(command) {
        RequestView::GetUserByMention { mention: target_mention_of(command) }
    } else {
        RequestView::GetUser { discord_id: target_of(command) }
    }
}

/// How a command looks its target up once the entry is written.
pub open spec fn rank_lookup(command: CommandView) -> RequestView {
    if spoken(command) {
        RequestView::GetRankedUserByMention { mention: target_mention_of(command) }
    } else {
        RequestView::GetRankedUser { discord_id: target_of(command) }
    }
}

/// The external id of a command's issuer.
pub open spec fn issuer_of(command: CommandView) -> i64 {
    match command {
        CommandView::Bbp { issuer, .. } => issuer,
        CommandView::Gbp { issuer, .. } => issuer,
        CommandView::Forgive { issuer, .. } => issuer,
        _ => 0,
    }
}

/// The external id of a command's target.
pub open spec fn target_of(command: CommandView) -> i64 {
    match command {
        CommandView::Bbp { target, .. } => target,
        CommandView::Gbp { target, .. } => target,
        CommandView::Forgive { target, .. } => target,
        CommandView::History { discord_id, .. } => discord_id,
        _ => 0,
    }
}

/// The reason that a command gives.
pub open spec fn description_of(command: CommandView) -> Seq<char> {
    match command {
        CommandView::Bbp { description, .. } => description,
        CommandView::Gbp { description, .. } => description,
        CommandView::TextBbp { description, .. } => description,
        CommandView::TextGbp { description, .. } => description,
        _ => Seq::empty(),
    }
}

/// What is said when no user is the issuer.
pub open spec fn issuer_missing_text(kind: Kind) -> Seq<char> {
    match kind {
        Kind::Demerit | Kind::Forgiveness => "Issuing user not found"@,
        Kind::SelfMerit | Kind::Merit => "Error adding GBP"@,
    }
}

/// What is said when the issuer could not be looked up.
pub open spec fn issuer_failed_text(kind: Kind) -> Seq<char> {
    match kind {
        Kind::Demerit | Kind::Forgiveness => "Error fetching issuing user"@,
        Kind::SelfMerit | Kind::Merit => "Error adding GBP"@,
    }
}

/// What is said when no user is the target.
pub open spec fn target_missing_text(kind: Kind) -> Seq<char> {
    match kind {
        Kind::Demerit | Kind::Forgiveness => "Target user not found"@,
        Kind::SelfMerit | Kind::Merit => "Error adding GBP"@,
    }
}

/// What is said when the target could not be looked up.
pub open spec fn target_failed_text(kind: Kind) -> Seq<char> {
    match kind {
        Kind::Demerit | Kind::Forgiveness => "Error fetching target user"@,
        Kind::SelfMerit | Kind::Merit => "Error adding GBP"@,
    }
}

/// What is said when the target is gone once the entry is written.
pub open spec fn rank_missing_text(kind: Kind) -> Seq<char> {
    match kind {
        Kind::Demerit | Kind::Forgiveness => "Ranked user not found"@,
        Kind::SelfMerit | Kind::Merit => "Error adding GBP"@,
    }
}

/// What is said when the target could not be ranked.
pub open spec fn rank_failed_text(kind: Kind) -> Seq<char> {
    match kind {
        Kind::Demerit => "Error adding BBP"@,
        Kind::Forgiveness => "Error fetching ranked user"@,
        Kind::SelfMerit | Kind::Merit => "Error adding GBP"@,
    }
}

/// The flow ended with a reply.
pub open spec fn say(flow: FlowView, text: Seq<char>) -> (FlowView, StepView) {
    (FlowView { stage: Stage::Closed, ..flow }, StepView::Say(text))
}

/// The flow ended without a reply.
pub open spec fn end(flow: FlowView) -> (FlowView, StepView) {
    (FlowView { stage: Stage::Closed, ..flow }, StepView::End)
}

/// The flow ended on a failure of which `text` tells: a command asked for in
/// a text message keeps it to itself, any other says it.
pub open spec fn fail(flow: FlowView, text: Seq<char>) -> (FlowView, StepView) {
    if spoken(flow.command) {
        end(flow)
    } else {
        say(flow, text)
    }
}

/// What is said when there is nothing to forgive.
pub open spec fn nothing_to_forgive_text(command: CommandView) -> Seq<char> {
    if spoken(command) {
        "There is nothing to forgive."@
    } else {
        "There is nothing to forgive"@
    }
}

/// The flow ended with a failure passed on.
pub open spec fn abort(flow: FlowView, error: LedgerError) -> (FlowView, StepView) {
    (FlowView { stage: Stage::Closed, ..flow }, StepView::Abort(error))
}

/// The flow ended because the store answered what it cannot have answered.
pub open spec fn broken(flow: FlowView) -> (FlowView, StepView) {
    abort(flow, LedgerError::InvariantViolation)
}

/// The write that a conversation between two users asks for.  One who tried
/// to give themselves a merit gets a demerit, for the fixed reason.
pub open spec fn write_request(
    kind: Kind,
    target: UserView,
    issuer: UserView,
    description: Seq<char>,
) -> RequestView {
    match kind {
        Kind::Demerit => RequestView::AddBbp { target, issuer, description },
        Kind::SelfMerit => RequestView::AddBbp {
            target,
            issuer,
            description: self_merit_reason(),
        },
        Kind::Merit => RequestView::AddGbp { target, issuer, description },
        Kind::Forgiveness => RequestView::Forgive { target, issuer },
    }
}

/// The reply that ends a conversation between two users, given the target
/// with their rank; nothing where a name, a mention or the rank is missing.
pub open spec fn closing_text(flow: FlowView, kind: Kind, ranked: UserView) -> Option<Seq<char>> {
    match (ranked.friendly_name, ranked.rank) {
        (Some(name), Some(rank)) => match kind {
            Kind::Demerit | Kind::Merit => if spoken(flow.command) {
                Some(standing_text(name, rank, ranked.points))
            } else {
                closing_given_text(flow, name, rank, ranked.points)
            },
            Kind::SelfMerit => if spoken(flow.command) {
                Some(spoken_self_merit_text(name, rank, ranked.points))
            } else {
                Some(self_merit_text(name, rank, ranked.points))
            },
            Kind::Forgiveness => match flow.reason {
                Some(reason) => Some(forgiven_text(name, rank, reason, ranked.points)),
                None => None,
            },
        },
        _ => None,
    }
}

/// The confirmation of an entry with all that the flow has learnt; nothing
/// where the issuer's name or the target's mention is missing.
pub open spec fn closing_given_text(flow: FlowView, name: Seq<char>, rank: i64, points: i32)
    -> Option<Seq<char>> {
    match (flow.issuer, flow.target) {
        (Some(issuer), Some(target)) => match (issuer.friendly_name, target.discord_mention) {
            (Some(issuer_name), Some(mention)) => Some(
                given_text(issuer_name, mention, description_of(flow.command), name, rank, points),
            ),
            _ => None,
        },
        _ => None,
    }
}

/// How a conversation between two users goes on, given the store's response.
pub open spec fn next_between(flow: FlowView, kind: Kind, response: ResponseView) -> (
    FlowView,
    StepView,
) {
    match flow.stage {
        Stage::Issuer => match response {
            ResponseView::User(Ok(Some(user))) => (
                FlowView { stage: Stage::Target, issuer: Some(user), ..flow },
                StepView::Ask(target_lookup(flow.command)),
            ),
            ResponseView::User(Ok(None)) => fail(flow, issuer_missing_text(kind)),
            ResponseView::User(Err(_)) => fail(flow, issuer_failed_text(kind)),
            _ => broken(flow),
        },
        Stage::Target => match response {
            ResponseView::User(Ok(Some(user))) => match flow.issuer {
                Some(issuer) => (
                    FlowView { stage: Stage::Write, target: Some(user), ..flow },
                    StepView::Ask(
                        write_request(kind, user, issuer, description_of(flow.command)),
                    ),
                ),
                None => broken(flow),
            },
            ResponseView::User(Ok(None)) => fail(flow, target_missing_text(kind)),
            ResponseView::User(Err(_)) => fail(flow, target_failed_text(kind)),
            _ => broken(flow),
        },
        Stage::Write => {
            let rank = (
                FlowView { stage: Stage::Rank, ..flow },
                StepView::Ask(rank_lookup(flow.command)),
            );
            match kind {
                Kind::Demerit => match response {
                    ResponseView::Written(Ok(_)) => rank,
                    ResponseView::Written(Err(e)) => if spoken(flow.command) {
                        end(flow)
                    } else {
                        abort(flow, e)
                    },
                    _ => broken(flow),
                },
                Kind::SelfMerit | Kind::Merit => match response {
                    ResponseView::Written(Ok(_)) => rank,
                    ResponseView::Written(Err(_)) => fail(flow, "Error adding GBP"@),
                    _ => broken(flow),
                },
                Kind::Forgiveness => match response {
                    ResponseView::Forgiven(Ok(Some(reason))) => (
                        FlowView { reason: Some(reason), ..rank.0 },
                        rank.1,
                    ),
                    ResponseView::Forgiven(Ok(None)) => say(
                        flow,
                        nothing_to_forgive_text(flow.command),
                    ),
                    ResponseView::Forgiven(Err(_)) => fail(flow, "Error forgiving user"@),
                    _ => broken(flow),
                },
            }
        },
        Stage::Rank => match response {
            ResponseView::User(Ok(Some(ranked))) => match closing_text(flow, kind, ranked) {
                Some(text) => say(flow, text),
                None => broken(flow),
            },
            ResponseView::User(Ok(None)) => fail(flow, rank_missing_text(kind)),
            ResponseView::User(Err(_)) => fail(flow, rank_failed_text(kind)),
            _ => broken(flow),
        },
        _ => broken(flow),
    }
}

/// How a registration goes on, given the store's response.  The store is
/// asked first whether the user exists; if it cannot tell, the registration
/// is tried all the same.
pub open spec fn next_add_user(
    flow: FlowView,
    discord_id: i64,
    discord_username: Seq<char>,
    friendly_name: Seq<char>,
    response: ResponseView,
) -> (FlowView, StepView) {
    match flow.stage {
        Stage::Existing => match response {
            ResponseView::User(Ok(Some(_))) => say(flow, "User already exists"@),
            ResponseView::User(_) => (
                FlowView { stage: Stage::Write, ..flow },
                StepView::Ask(RequestView::AddUser { discord_id, discord_username, friendly_name }),
            ),
            _ => broken(flow),
        },
        Stage::Write => match response {
            ResponseView::User(Ok(Some(user))) => match (
                user.friendly_name,
                user.discord_username,
            ) {
                (Some(name), Some(handle)) => say(
                    flow,
                    added_user_text(name, handle, user.user_id),
                ),
                _ => broken(flow),
            },
            ResponseView::User(Ok(None)) => say(flow, "Ranked user not found"@),
            ResponseView::User(Err(LedgerError::AlreadyExists)) => say(
                flow,
                "User already exists"@,
            ),
            ResponseView::User(Err(_)) => say(flow, "Error adding user"@),
            _ => broken(flow),
        },
        _ => broken(flow),
    }
}

/// How a leaderboard goes on, given the store's response.
pub open spec fn next_leaderboard(flow: FlowView, response: ResponseView) -> (FlowView, StepView) {
    match flow.stage {
        Stage::Listing => match response {
            ResponseView::Leaderboard(Ok(rows)) => if board_named(rows) {
                say(flow, board_text(rows))
            } else {
                broken(flow)
            },
            ResponseView::Leaderboard(Err(_)) => say(flow, "Error fetching leaderboard"@),
            _ => broken(flow),
        },
        _ => broken(flow),
    }
}

/// Whether every record of a history has a date that can be written.
pub open spec fn dated(records: Seq<HistoryRecordView>) -> bool {
    forall|k: int|
        0 <= k < records.len() ==> calendar_text(
            (#[trigger] records[k]).timestamp,
            date_pattern(),
        ) is Some
}

/// The dates of the records of a history.
pub open spec fn dates_of(records: Seq<HistoryRecordView>) -> Seq<Seq<char>> {
    Seq::new(
        records.len(),
        |k: int| calendar_text(records[k].timestamp, date_pattern())->Some_0,
    )
}

/// The name over a history: the user's, or `Unknown` where they have none.
pub open spec fn heading_name(user: Option<UserView>) -> Seq<char> {
    match user {
        Some(UserView { friendly_name: Some(name), .. }) => name,
        _ => "Unknown"@,
    }
}

/// How a history goes on, given the store's response.
pub open spec fn next_history(flow: FlowView, discord_id: i64, limit: usize, response: ResponseView)
    -> (FlowView, StepView) {
    match flow.stage {
        Stage::Target => match response {
            ResponseView::User(Ok(Some(user))) => (
                FlowView { stage: Stage::Listing, target: Some(user), ..flow },
                StepView::Ask(RequestView::History { discord_id, limit }),
            ),
            ResponseView::User(Ok(None)) => say(flow, "Target user not found"@),
            ResponseView::User(Err(_)) => say(flow, "Error fetching target user"@),
            _ => broken(flow),
        },
        Stage::Listing => match response {
            ResponseView::History(Ok(records)) => if records.len() == 0 {
                say(flow, "No history found"@)
            } else if dated(records) {
                say(flow, history_text(heading_name(flow.target), records, dates_of(records)))
            } else {
                broken(flow)
            },
            ResponseView::History(Err(_)) => say(flow, "Error fetching user history"@),
            _ => broken(flow),
        },
        _ => broken(flow),
    }
}

/// How a flow goes on, given the store's response: the next request, or the
/// reply or failure that ends it.  A flow that has ended, or that is handed a
/// response to another request than its own, ends as broken.
pub open spec fn next(flow: FlowView, response: ResponseView) -> (FlowView, StepView) {
    match flow.command {
        CommandView::AddUser { discord_id, discord_username, friendly_name } => next_add_user(
            flow,
            discord_id,
            discord_username,
            friendly_name,
            response,
        ),
        CommandView::Leaderboard { .. } => next_leaderboard(flow, response),
        CommandView::History { discord_id, limit } => next_history(
            flow,
            discord_id,
            limit,
            response,
        ),
        _ => next_between(flow, kind_of(flow.command)->Some_0, response),
    }
}

/// How a flow starts: what it waits for and what it asks first.
pub open spec fn first(command: CommandView) -> (FlowView, StepView) {
    let (stage, request) = match command {
        CommandView::AddUser { discord_id, .. } => (
            Stage::Existing,
            RequestView::GetUser { discord_id },
        ),
        CommandView::Leaderboard { limit } => (Stage::Listing, RequestView::Leaderboard { limit }),
        CommandView::History { discord_id, .. } => (
            Stage::Target,
            RequestView::GetUser { discord_id },
        ),
        _ => (Stage::Issuer, issuer_lookup(command)),
    };
    (
        FlowView { command, stage, issuer: None, target: None, reason: None },
        StepView::Ask(request),
    )
}

/// Which conversation between two users a command holds, if it holds one.
fn kind_at(command: &Command) -> (r: Option<Kind>)
    ensures
        r == kind_of(command@),
{
    match command {
        Command::Bbp { .. } => Some(Kind::Demerit),
        Command::Gbp { issuer, target, .. } => if *issuer == *target {
            Some(Kind::SelfMerit)
        } else {
            Some(Kind::Merit)
        },
        Command::Forgive { .. } => Some(Kind::Forgiveness),
        Command::TextBbp { .. } => Some(Kind::Demerit),
        Command::TextGbp { issuer_mention, target_mention, .. } => if *issuer_mention
            == *target_mention {
            Some(Kind::SelfMerit)
        } else {
            Some(Kind::Merit)
        },
        Command::TextForgive { .. } => Some(Kind::Forgiveness),
        _ => None,
    }
}

/// Whether a command was asked for in a text message.
fn spoken_at(command: &Command) -> (r: bool)
    ensures
        r == spoken(command@),
{
    match command {
        Command::TextBbp { .. } => true,
        Command::TextGbp { .. } => true,
        Command::TextForgive { .. } => true,
        _ => false,
    }
}

/// How a command looks its issuer up.
fn issuer_request(command: &Command) -> (r: Request)
    ensures
        r@ == issuer_lookup(command@),
{
    match command {
        Command::TextBbp { issuer_mention, .. } => Request::GetUserByMention {
            mention: issuer_mention.clone(),
        },
        Command::TextGbp { issuer_mention, .. } => Request::GetUserByMention {
            mention: issuer_mention.clone(),
        },
        Command::TextForgive { issuer_mention, .. } => Request::GetUserByMention {
            mention: issuer_mention.clone(),
        },
        _ => Request::GetUser { discord_id: issuer_at(command) },
    }
}

/// How a command looks its target up.
fn target_request(command: &Command) -> (r: Request)
    ensures
        r@ == target_lookup(command@),
{
    match command {
        Command::TextBbp { target_mention, .. } => Request::GetUserByMention {
            mention: target_mention.clone(),
        },
        Command::TextGbp { target_mention, .. } => Request::GetUserByMention {
            mention: target_mention.clone(),
        },
        Command::TextForgive { target_mention, .. } => Request::GetUserByMention {
            mention: target_mention.clone(),
        },
        _ => Request::GetUser { discord_id: target_at(command) },
    }
}

/// How a command looks its target up once the entry is written.
fn rank_request(command: &Command) -> (r: Request)
    ensures
        r@ == rank_lookup(command@),
{
    match command {
        Command::TextBbp { target_mention, .. } => Request::GetRankedUserByMention {
            mention: target_mention.clone(),
        },
        Command::TextGbp { target_mention, .. } => Request::GetRankedUserByMention {
            mention: target_mention.clone(),
        },
        Command::TextForgive { target_mention, .. } => Request::GetRankedUserByMention {
            mention: target_mention.clone(),
        },
        _ => Request::GetRankedUser { discord_id: target_at(command) },
    }
}

/// The external id of a command's issuer.
fn issuer_at(command: &Command) -> (r: i64)
    ensures
        r == issuer_of(command@),
{
    match command {
        Command::Bbp { issuer, .. } => *issuer,
        Command::Gbp { issuer, .. } => *issuer,
        Command::Forgive { issuer, .. } => *issuer,
        _ => 0,
    }
}

/// The external id of a command's target.
fn target_at(command: &Command) -> (r: i64)
    ensures
        r == target_of(command@),
{
    match command {
        Command::Bbp { target, .. } => *target,
        Command::Gbp { target, .. } => *target,
        Command::Forgive { target, .. } => *target,
        Command::History { discord_id, .. } => *discord_id,
        _ => 0,
    }
}

/// The reason that a command gives.
fn description_at(command: &Command) -> (r: String)
    ensures
        r@ == description_of(command@),
{
    match command {
        Command::Bbp { description, .. } => description.clone(),
        Command::Gbp { description, .. } => description.clone(),
        Command::TextBbp { description, .. } => description.clone(),
        Command::TextGbp { description, .. } => description.clone(),
        _ => String::new(),
    }
}

/// What is said when no user is the issuer.
fn issuer_missing(kind: Kind) -> (r: String)
    ensures
        r@ == issuer_missing_text(kind),
{
    match kind {
        Kind::Demerit | Kind::Forgiveness => "Issuing user not found".to_owned(),
        Kind::SelfMerit | Kind::Merit => "Error adding GBP".to_owned(),
    }
}

/// What is said when the issuer could not be looked up.
fn issuer_failed(kind: Kind) -> (r: String)
    ensures
        r@ == issuer_failed_text(kind),
{
    match kind {
        Kind::Demerit | Kind::Forgiveness => "Error fetching issuing user".to_owned(),
        Kind::SelfMerit | Kind::Merit => "Error adding GBP".to_owned(),
    }
}

/// What is said when no user is the target.
fn target_missing(kind: Kind) -> (r: String)
    ensures
        r@ == target_missing_text(kind),
{
    match kind {
        Kind::Demerit | Kind::Forgiveness => "Target user not found".to_owned(),
        Kind::SelfMerit | Kind::Merit => "Error adding GBP".to_owned(),
    }
}

/// What is said when the target could not be looked up.
fn target_failed(kind: Kind) -> (r: String)
    ensures
        r@ == target_failed_text(kind),
{
    match kind {
        Kind::Demerit | Kind::Forgiveness => "Error fetching target user".to_owned(),
        Kind::SelfMerit | Kind::Merit => "Error adding GBP".to_owned(),
    }
}

/// What is said when the target is gone once the entry is written.
fn rank_missing(kind: Kind) -> (r: String)
    ensures
        r@ == rank_missing_text(kind),
{
    match kind {
        Kind::Demerit | Kind::Forgiveness => "Ranked user not found".to_owned(),
        Kind::SelfMerit | Kind::Merit => "Error adding GBP".to_owned(),
    }
}

/// What is said when the target could not be ranked.
fn rank_failed(kind: Kind) -> (r: String)
    ensures
        r@ == rank_failed_text(kind),
{
    match kind {
        Kind::Demerit => "Error adding BBP".to_owned(),
        Kind::Forgiveness => "Error fetching ranked user".to_owned(),
        Kind::SelfMerit | Kind::Merit => "Error adding GBP".to_owned(),
    }
}

/// The dates of the records of a history; nothing where one cannot be
/// written.
pub fn history_dates(records: &Vec<HistoryRecord>) -> (r: Option<Vec<String>>)
    ensures
        match r {
            Some(dates) => dates.len() == records.len() && dated(records.deep_view())
                && dates.deep_view() == dates_of(records.deep_view()),
            None => !dated(records.deep_view()),
        },
{
    let ghost lines = records.deep_view();
    let mut dates: Vec<String> = Vec::new();
    let mut k: usize = 0;
    while k < records.len()
        invariant
            lines == records.deep_view(),
            k <= records.len(),
            dates.len() == k,
            forall|j: int|
                0 <= j < k ==> calendar_text((#[trigger] lines[j]).timestamp, date_pattern())
                    == Some(dates[j]@),
        decreases records.len() - k,
    {
        assert(lines[k as int] == records[k as int]@);
        match format_moment(records[k].timestamp, "%Y-%m-%d") {
            Some(date) => {
                dates.push(date);
            },
            None => {
                return None;
            },
        }
        k += 1;
    }
    assert(dates.deep_view() =~= dates_of(lines));
    Some(dates)
}

impl Flow {
    /// Starts the flow of a command: answers the flow and its first request.
    pub fn begin(command: Command) -> (r: (Flow, Step))
        ensures
            (r.0@, r.1@) == first(command@),
    {
        let (stage, request) = match &command {
            Command::AddUser { discord_id, .. } => (
                Stage::Existing,
                Request::GetUser { discord_id: *discord_id },
            ),
            Command::Leaderboard { limit } => (
                Stage::Listing,
                Request::Leaderboard { limit: *limit },
            ),
            Command::History { discord_id, .. } => (
                Stage::Target,
                Request::GetUser { discord_id: *discord_id },
            ),
            _ => (Stage::Issuer, issuer_request(&command)),
        };
        (Flow { command, stage, issuer: None, target: None, reason: None }, Step::Ask(request))
    }

    /// What the flow is waiting for.
    pub fn stage(&self) -> (r: Stage)
        ensures
            r == self@.stage,
    {
        self.stage
    }

    /// Ends the flow with a reply.
    fn say(self, text: String) -> (r: (Flow, Step))
        ensures
            (r.0@, r.1@) == say(self@, text@),
    {
        let mut flow = self;
        flow.stage = Stage::Closed;
        (flow, Step::Say(text))
    }

    /// Ends the flow without a reply.
    fn end(self) -> (r: (Flow, Step))
        ensures
            (r.0@, r.1@) == end(self@),
    {
        let mut flow = self;
        flow.stage = Stage::Closed;
        (flow, Step::End)
    }

    /// Ends the flow on a failure of which `text` tells.
    fn fail(self, text: String) -> (r: (Flow, Step))
        ensures
            (r.0@, r.1@) == fail(self@, text@),
    {
        if spoken_at(&self.command) {
            self.end()
        } else {
            self.say(text)
        }
    }

    /// Ends the flow with a failure passed on.
    fn abort(self, error: LedgerError) -> (r: (Flow, Step))
        ensures
            (r.0@, r.1@) == abort(self@, error),
    {
        let mut flow = self;
        flow.stage = Stage::Closed;
        (flow, Step::Abort(error))
    }

    /// Ends the flow because the store answered what it cannot have answered.
    fn broken(self) -> (r: (Flow, Step))
        ensures
            (r.0@, r.1@) == broken(self@),
    {
        self.abort(LedgerError::InvariantViolation)
    }

    /// Goes on to ask for the target with their rank.
    fn ask_rank(self) -> (r: (Flow, Step))
        ensures
            r.0@ == (FlowView { stage: Stage::Rank, ..self@ }),
            r.1@ == StepView::Ask(rank_lookup(self@.command)),
    {
        let mut flow = self;
        flow.stage = Stage::Rank;
        let request = rank_request(&flow.command);
        (flow, Step::Ask(request))
    }

    /// The confirmation of an entry with all that the flow has learnt.
    fn closing_given_reply(&self, name: &str, rank: i64, points: i32) -> (r: Option<String>)
        ensures
            r.deep_view() == closing_given_text(self@, name@, rank, points),
    {
        match (&self.issuer, &self.target) {
            (Some(issuer), Some(target)) => match (&issuer.friendly_name, &target.discord_mention) {
                (Some(issuer_name), Some(mention)) => {
                    let description = description_at(&self.command);
                    Some(
                        given_reply(
                            issuer_name.as_str(),
                            mention.as_str(),
                            description.as_str(),
                            name,
                            rank,
                            points,
                        ),
                    )
                },
                _ => None,
            },
            _ => None,
        }
    }

    /// The reply that ends a conversation between two users.
    fn closing_reply(&self, kind: Kind, ranked: &User) -> (r: Option<String>)
        ensures
            r.deep_view() == closing_text(self@, kind, ranked@),
    {
        let (name, rank) = match (&ranked.friendly_name, ranked.rank) {
            (Some(name), Some(rank)) => (name, rank),
            _ => {
                return None;
            },
        };
        let spoken = spoken_at(&self.command);
        match kind {
            Kind::Demerit | Kind::Merit => if spoken {
                Some(standing_reply(name.as_str(), rank, ranked.points))
            } else {
                self.closing_given_reply(name.as_str(), rank, ranked.points)
            },
            Kind::SelfMerit => if spoken {
                Some(spoken_self_merit_reply(name.as_str(), rank, ranked.points))
            } else {
                Some(self_merit_reply(name.as_str(), rank, ranked.points))
            },
            Kind::Forgiveness => match &self.reason {
                Some(reason) => Some(
                    forgiven_reply(name.as_str(), rank, reason.as_str(), ranked.points),
                ),
                None => None,
            },
        }
    }

    /// Goes on with a conversation between two users.
    fn resume_between(self, kind: Kind, response: Response) -> (r: (Flow, Step))
        ensures
            (r.0@, r.1@) == next_between(self@, kind, response@),
    {
        let mut flow = self;
        match flow.stage {
            Stage::Issuer => match response {
                Response::User(Ok(Some(user))) => {
                    flow.stage = Stage::Target;
                    flow.issuer = Some(user);
                    let request = target_request(&flow.command);
                    (flow, Step::Ask(request))
                },
                Response::User(Ok(None)) => flow.fail(issuer_missing(kind)),
                Response::User(Err(_)) => flow.fail(issuer_failed(kind)),
                _ => flow.broken(),
            },
            Stage::Target => match response {
                Response::User(Ok(Some(user))) => {
                    let issuer = match &flow.issuer {
                        Some(issuer) => issuer.clone(),
                        None => {
                            return flow.broken();
                        },
                    };
                    let target = user.clone();
                    let description = description_at(&flow.command);
                    let request = match kind {
                        Kind::Demerit => Request::AddBbp { target, issuer, description },
                        Kind::SelfMerit => Request::AddBbp {
                            target,
                            issuer,
                            description: "attempted self-merit".to_owned(),
                        },
                        Kind::Merit => Request::AddGbp { target, issuer, description },
                        Kind::Forgiveness => Request::Forgive { target, issuer },
                    };
                    flow.stage = Stage::Write;
                    flow.target = Some(user);
                    (flow, Step::Ask(request))
                },
                Response::User(Ok(None)) => flow.fail(target_missing(kind)),
                Response::User(Err(_)) => flow.fail(target_failed(kind)),
                _ => flow.broken(),
            },
            Stage::Write => match kind {
                Kind::Demerit => match response {
                    Response::Written(Ok(_)) => flow.ask_rank(),
                    Response::Written(Err(e)) => if spoken_at(&flow.command) {
                        flow.end()
                    } else {
                        flow.abort(e)
                    },
                    _ => flow.broken(),
                },
                Kind::SelfMerit | Kind::Merit => match response {
                    Response::Written(Ok(_)) => flow.ask_rank(),
                    Response::Written(Err(_)) => flow.fail("Error adding GBP".to_owned()),
                    _ => flow.broken(),
                },
                Kind::Forgiveness => match response {
                    Response::Forgiven(Ok(Some(reason))) => {
                        flow.reason = Some(reason);
                        flow.ask_rank()
                    },
                    Response::Forgiven(Ok(None)) => {
                        let text = if spoken_at(&flow.command) {
                            "There is nothing to forgive.".to_owned()
                        } else {
                            "There is nothing to forgive".to_owned()
                        };
                        flow.say(text)
                    },
                    Response::Forgiven(Err(_)) => flow.fail("Error forgiving user".to_owned()),
                    _ => flow.broken(),
                },
            },
            Stage::Rank => match response {
                Response::User(Ok(Some(ranked))) => match flow.closing_reply(kind, &ranked) {
                    Some(text) => flow.say(text),
                    None => flow.broken(),
                },
                Response::User(Ok(None)) => flow.fail(rank_missing(kind)),
                Response::User(Err(_)) => flow.fail(rank_failed(kind)),
                _ => flow.broken(),
            },
            _ => flow.broken(),
        }
    }

    /// Goes on with a registration.
    fn resume_add_user(self, response: Response) -> (r: (Flow, Step))
        requires
            self@.command is AddUser,
        ensures
            (r.0@, r.1@) == next(self@, response@),
    {
        let mut flow = self;
        match flow.stage {
            Stage::Existing => match response {
                Response::User(Ok(Some(_))) => flow.say("User already exists".to_owned()),
                Response::User(_) => {
                    let request = match &flow.command {
                        Command::AddUser {
                            discord_id,
                            discord_username,
                            friendly_name,
                        } => Request::AddUser {
                            discord_id: *discord_id,
                            discord_username: discord_username.clone(),
                            friendly_name: friendly_name.clone(),
                        },
                        _ => {
                            return flow.broken();
                        },
                    };
                    flow.stage = Stage::Write;
                    (flow, Step::Ask(request))
                },
                _ => flow.broken(),
            },
            Stage::Write => match response {
                Response::User(Ok(Some(user))) => match (
                    &user.friendly_name,
                    &user.discord_username,
                ) {
                    (Some(name), Some(handle)) => {
                        let text = added_user_reply(name.as_str(), handle.as_str(), user.user_id);
                        flow.say(text)
                    },
                    _ => flow.broken(),
                },
                Response::User(Ok(None)) => flow.say("Ranked user not found".to_owned()),
                Response::User(Err(LedgerError::AlreadyExists)) => flow.say(
                    "User already exists".to_owned(),
                ),
                Response::User(Err(_)) => flow.say("Error adding user".to_owned()),
                _ => flow.broken(),
            },
            _ => flow.broken(),
        }
    }

    /// Goes on with a leaderboard.
    fn resume_leaderboard(self, response: Response) -> (r: (Flow, Step))
        requires
            self@.command is Leaderboard,
        ensures
            (r.0@, r.1@) == next(self@, response@),
    {
        let flow = self;
        match flow.stage {
            Stage::Listing => match response {
                Response::Leaderboard(Ok(rows)) => match leaderboard_reply(&rows) {
                    Some(text) => flow.say(text),
                    None => flow.broken(),
                },
                Response::Leaderboard(Err(_)) => flow.say("Error fetching leaderboard".to_owned()),
                _ => flow.broken(),
            },
            _ => flow.broken(),
        }
    }

    /// The name over a history.
    fn heading(&self) -> (r: String)
        ensures
            r@ == heading_name(self@.target),
    {
        match &self.target {
            Some(user) => match &user.friendly_name {
                Some(name) => name.clone(),
                None => "Unknown".to_owned(),
            },
            None => "Unknown".to_owned(),
        }
    }

    /// Goes on with a history.
    fn resume_history(self, response: Response) -> (r: (Flow, Step))
        requires
            self@.command is History,
        ensures
            (r.0@, r.1@) == next(self@, response@),
    {
        let mut flow = self;
        match flow.stage {
            Stage::Target => match response {
                Response::User(Ok(Some(user))) => {
                    let request = match &flow.command {
                        Command::History { discord_id, limit } => Request::History {
                            discord_id: *discord_id,
                            limit: *limit,
                        },
                        _ => {
                            return flow.broken();
                        },
                    };
                    flow.stage = Stage::Listing;
                    flow.target = Some(user);
                    (flow, Step::Ask(request))
                },
                Response::User(Ok(None)) => flow.say("Target user not found".to_owned()),
                Response::User(Err(_)) => flow.say("Error fetching target user".to_owned()),
                _ => flow.broken(),
            },
            Stage::Listing => match response {
                Response::History(Ok(records)) => {
                    if records.len() == 0 {
                        return flow.say("No history found".to_owned());
                    }
                    match history_dates(&records) {
                        Some(dates) => {
                            let name = flow.heading();
                            let text = history_reply(name.as_str(), &records, &dates);
                            flow.say(text)
                        },
                        None => flow.broken(),
                    }
                },
                Response::History(Err(_)) => flow.say("Error fetching user history".to_owned()),
                _ => flow.broken(),
            },
            _ => flow.broken(),
        }
    }

    /// Hands the flow the store's response to its request: answers the flow
    /// and what it does next.
    pub fn resume(self, response: Response) -> (r: (Flow, Step))
        ensures
            (r.0@, r.1@) == next(self@, response@),
    {
        match kind_at(&self.command) {
            Some(kind) => self.resume_between(kind, response),
            None => match &self.command {
                Command::AddUser { .. } => self.resume_add_user(response),
                Command::Leaderboard { .. } => self.resume_leaderboard(response),
                _ => self.resume_history(response),
            },
        }
    }
}

/// A demerit from `issuer` to `target`, both known by their external ids.
pub fn bbp_add_command(issuer: i64, target: i64, description: String) -> (r: (Flow, Step))
    ensures
        (r.0@, r.1@) == first(CommandView::Bbp { issuer, target, description: description@ }),
{
    Flow::begin(Command::Bbp { issuer, target, description })
}

/// A merit from `issuer` to `target`, both known by their external ids.  One
/// who names themselves gets a demerit instead.
pub fn gbp_add_command(issuer: i64, target: i64, description: String) -> (r: (Flow, Step))
    ensures
        (r.0@, r.1@) == first(CommandView::Gbp { issuer, target, description: description@ }),
{
    Flow::begin(Command::Gbp { issuer, target, description })
}

/// `issuer` forgives `target` the latest demerit.
pub fn bbp_forgive_command(issuer: i64, target: i64) -> (r: (Flow, Step))
    ensures
        (r.0@, r.1@) == first(CommandView::Forgive { issuer, target }),
{
    Flow::begin(Command::Forgive { issuer, target })
}

/// The registration of a user.
pub fn add_user_command(
    discord_id: i64,
    discord_username: String,
    friendly_name: String,
) -> (r: (Flow, Step))
    ensures
        (r.0@, r.1@) == first(
            CommandView::AddUser {
                discord_id,
                discord_username: discord_username@,
                friendly_name: friendly_name@,
            },
        ),
{
    Flow::begin(Command::AddUser { discord_id, discord_username, friendly_name })
}

/// The leaderboard, at its usual length.
pub fn leaderboard_command() -> (r: (Flow, Step))
    ensures
        (r.0@, r.1@) == first(CommandView::Leaderboard { limit: DEFAULT_LIMIT }),
{
    Flow::begin(Command::Leaderboard { limit: DEFAULT_LIMIT })
}

/// The history of `user`, or of the author where no user is named, at its
/// usual length.
pub fn history_command(author: i64, user: Option<i64>) -> (r: (Flow, Step))
    ensures
        (r.0@, r.1@) == first(
            CommandView::History {
                discord_id: match user {
                    Some(named) => named,
                    None => author,
                },
                limit: DEFAULT_LIMIT,
            },
        ),
{
    let discord_id = match user {
        Some(named) => named,
        None => author,
    };
    Flow::begin(Command::History { discord_id, limit: DEFAULT_LIMIT })
}

} // verus!
