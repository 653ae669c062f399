use point_ledger::commands::{
    add_user_command, bbp_add_command, bbp_forgive_command, gbp_add_command, history_command,
    leaderboard_command, Command, Flow, Request, Response, Stage, Step, DEFAULT_LIMIT,
};
use point_ledger::types::{HistoryRecord, LeaderboardUser, LedgerError, User};

fn user(user_id: i32, discord_id: i64, name: &str, points: i32, rank: Option<i64>) -> User {
    User {
        user_id,
        username: None,
        discord_username: Some(format!("{}#1", name.to_lowercase())),
        discord_mention: Some(format!("<@{}>", discord_id)),
        discord_id,
        friendly_name: Some(name.to_string()),
        points,
        bbps_issued: 0,
        gbps_issued: 0,
        rank,
    }
}

fn found(u: User) -> Response {
    Response::User(Ok(Some(u)))
}

fn asked(step: Step) -> Request {
    match step {
        Step::Ask(request) => request,
        other => panic!("expected a request, got {:?}", other),
    }
}

fn said(step: Step) -> String {
    match step {
        Step::Say(text) => text,
        other => panic!("expected a reply, got {:?}", other),
    }
}

fn aborted(step: Step) -> LedgerError {
    match step {
        Step::Abort(e) => e,
        other => panic!("expected a failure, got {:?}", other),
    }
}

#[test]
fn default_limit_is_ten() {
    assert_eq!(DEFAULT_LIMIT, 10);
}

#[test]
fn demerit_flow_asks_in_order_and_confirms() {
    let (flow, step) = bbp_add_command(20, 10, "late again".to_string());
    assert_eq!(flow.stage(), Stage::Issuer);
    assert!(matches!(asked(step), Request::GetUser { discord_id: 20 }));
    let (flow, step) = flow.resume(found(user(2, 20, "Bob", 0, None)));
    assert_eq!(flow.stage(), Stage::Target);
    assert!(matches!(asked(step), Request::GetUser { discord_id: 10 }));
    let (flow, step) = flow.resume(found(user(1, 10, "Ann", 0, None)));
    assert_eq!(flow.stage(), Stage::Write);
    match asked(step) {
        Request::AddBbp { target, issuer, description } => {
            assert_eq!(target.user_id, 1);
            assert_eq!(issuer.user_id, 2);
            assert_eq!(description, "late again");
        },
        other => panic!("unexpected request {:?}", other),
    }
    let (flow, step) = flow.resume(Response::Written(Ok(())));
    assert_eq!(flow.stage(), Stage::Rank);
    assert!(matches!(asked(step), Request::GetRankedUser { discord_id: 10 }));
    let (flow, step) = flow.resume(found(user(1, 10, "Ann", -1, Some(2))));
    assert_eq!(flow.stage(), Stage::Closed);
    assert_eq!(said(step), "Bob has given <@10> a bbp.\n\nlate again\n\nAnn(#2) now has -1 bbps.");
}

#[test]
fn demerit_flow_reports_each_failure() {
    let start = || bbp_add_command(20, 10, "x".to_string()).0;
    let (flow, step) = start().resume(Response::User(Ok(None)));
    assert_eq!(flow.stage(), Stage::Closed);
    assert_eq!(said(step), "Issuing user not found");
    let (_, step) = start().resume(Response::User(Err(LedgerError::StoreUnavailable)));
    assert_eq!(said(step), "Error fetching issuing user");

    let at_target = || start().resume(found(user(2, 20, "Bob", 0, None))).0;
    let (_, step) = at_target().resume(Response::User(Ok(None)));
    assert_eq!(said(step), "Target user not found");
    let (_, step) = at_target().resume(Response::User(Err(LedgerError::StoreUnavailable)));
    assert_eq!(said(step), "Error fetching target user");

    let at_write = || at_target().resume(found(user(1, 10, "Ann", 0, None))).0;
    let (flow, step) = at_write().resume(Response::Written(Err(LedgerError::StoreUnavailable)));
    assert_eq!(flow.stage(), Stage::Closed);
    assert_eq!(aborted(step), LedgerError::StoreUnavailable);

    let at_rank = || at_write().resume(Response::Written(Ok(()))).0;
    let (_, step) = at_rank().resume(Response::User(Ok(None)));
    assert_eq!(said(step), "Ranked user not found");
    let (_, step) = at_rank().resume(Response::User(Err(LedgerError::Conflict)));
    assert_eq!(said(step), "Error adding BBP");
}

#[test]
fn flow_handed_an_answer_to_another_question_breaks() {
    let (flow, _) = bbp_add_command(20, 10, "x".to_string());
    let (flow, step) = flow.resume(Response::Written(Ok(())));
    assert_eq!(aborted(step), LedgerError::InvariantViolation);
    assert_eq!(flow.stage(), Stage::Closed);
    // A flow that has ended stays ended.
    let (_, step) = flow.resume(found(user(1, 10, "Ann", 0, None)));
    assert_eq!(aborted(step), LedgerError::InvariantViolation);
    let (flow, _) = leaderboard_command();
    let (_, step) = flow.resume(Response::History(Ok(vec![])));
    assert_eq!(aborted(step), LedgerError::InvariantViolation);
}

#[test]
fn confirmation_without_a_name_or_rank_breaks() {
    let at_rank = || {
        let (flow, _) = bbp_add_command(20, 10, "x".to_string());
        let (flow, _) = flow.resume(found(user(2, 20, "Bob", 0, None)));
        let (flow, _) = flow.resume(found(user(1, 10, "Ann", 0, None)));
        flow.resume(Response::Written(Ok(()))).0
    };
    let (_, step) = at_rank().resume(found(user(1, 10, "Ann", -1, None)));
    assert_eq!(aborted(step), LedgerError::InvariantViolation);
    let mut nameless = user(1, 10, "Ann", -1, Some(1));
    nameless.friendly_name = None;
    let (_, step) = at_rank().resume(found(nameless));
    assert_eq!(aborted(step), LedgerError::InvariantViolation);
}

#[test]
fn merit_flow_records_a_merit_between_two_users() {
    let (flow, step) = gbp_add_command(20, 10, "helped".to_string());
    assert!(matches!(asked(step), Request::GetUser { discord_id: 20 }));
    let (flow, step) = flow.resume(found(user(2, 20, "Bob", 0, None)));
    assert!(matches!(asked(step), Request::GetUser { discord_id: 10 }));
    let (flow, step) = flow.resume(found(user(1, 10, "Ann", 0, None)));
    match asked(step) {
        Request::AddGbp { target, issuer, description } => {
            assert_eq!(target.user_id, 1);
            assert_eq!(issuer.user_id, 2);
            assert_eq!(description, "helped");
        },
        other => panic!("unexpected request {:?}", other),
    }
    let (flow, step) = flow.resume(Response::Written(Ok(())));
    assert!(matches!(asked(step), Request::GetRankedUser { discord_id: 10 }));
    let (_, step) = flow.resume(found(user(1, 10, "Ann", 1, Some(1))));
    assert_eq!(said(step), "Bob has given <@10> a bbp.\n\nhelped\n\nAnn(#1) now has 1 bbps.");
}

#[test]
fn self_merit_flow_records_a_demerit_with_the_fixed_reason() {
    let (flow, step) = gbp_add_command(10, 10, "I am great".to_string());
    assert!(matches!(asked(step), Request::GetUser { discord_id: 10 }));
    let (flow, step) = flow.resume(found(user(1, 10, "Ann", 0, None)));
    assert!(matches!(asked(step), Request::GetUser { discord_id: 10 }));
    let (flow, step) = flow.resume(found(user(1, 10, "Ann", 0, None)));
    match asked(step) {
        Request::AddBbp { target, issuer, description } => {
            assert_eq!(target.user_id, 1);
            assert_eq!(issuer.user_id, 1);
            assert_eq!(description, "attempted self-merit");
        },
        other => panic!("unexpected request {:?}", other),
    }
    let (flow, step) = flow.resume(Response::Written(Ok(())));
    assert!(matches!(asked(step), Request::GetRankedUser { discord_id: 10 }));
    let (_, step) = flow.resume(found(user(1, 10, "Ann", -1, Some(3))));
    assert_eq!(
        said(step),
        "😡 trying to give yourself a gbp? That's a bbp for you. Ann(#3) now has -1 bbps."
    );
}

#[test]
fn merit_flow_reports_every_failure_alike() {
    for (issuer, target) in [(20, 10), (10, 10)] {
        let start = || gbp_add_command(issuer, target, "x".to_string()).0;
        let (_, step) = start().resume(Response::User(Ok(None)));
        assert_eq!(said(step), "Error adding GBP");
        let (_, step) = start().resume(Response::User(Err(LedgerError::StoreUnavailable)));
        assert_eq!(said(step), "Error adding GBP");
        let at_target = || start().resume(found(user(2, issuer, "Bob", 0, None))).0;
        let (_, step) = at_target().resume(Response::User(Ok(None)));
        assert_eq!(said(step), "Error adding GBP");
        let at_write = || at_target().resume(found(user(1, target, "Ann", 0, None))).0;
        let (_, step) = at_write().resume(Response::Written(Err(LedgerError::StoreUnavailable)));
        assert_eq!(said(step), "Error adding GBP");
        let at_rank = || at_write().resume(Response::Written(Ok(()))).0;
        let (_, step) = at_rank().resume(Response::User(Ok(None)));
        assert_eq!(said(step), "Error adding GBP");
        let (_, step) = at_rank().resume(Response::User(Err(LedgerError::StoreUnavailable)));
        assert_eq!(said(step), "Error adding GBP");
    }
}

#[test]
fn forgive_flow_confirms_with_the_reason() {
    let (flow, step) = bbp_forgive_command(20, 10);
    assert!(matches!(asked(step), Request::GetUser { discord_id: 20 }));
    let (flow, step) = flow.resume(found(user(2, 20, "Bob", 0, None)));
    assert!(matches!(asked(step), Request::GetUser { discord_id: 10 }));
    let (flow, step) = flow.resume(found(user(1, 10, "Ann", -2, None)));
    match asked(step) {
        Request::Forgive { target, issuer } => {
            assert_eq!(target.user_id, 1);
            assert_eq!(issuer.user_id, 2);
        },
        other => panic!("unexpected request {:?}", other),
    }
    let (flow, step) = flow.resume(Response::Forgiven(Ok(Some("late again".to_string()))));
    assert!(matches!(asked(step), Request::GetRankedUser { discord_id: 10 }));
    let (_, step) = flow.resume(found(user(1, 10, "Ann", -1, Some(2))));
    assert_eq!(said(step), "Ann(#2) was forgiven for 'late again' and now only has -1 bbps.");
}

#[test]
fn forgive_flow_reports_each_failure() {
    let start = || bbp_forgive_command(20, 10).0;
    let (_, step) = start().resume(Response::User(Ok(None)));
    assert_eq!(said(step), "Issuing user not found");
    let (_, step) = start().resume(Response::User(Err(LedgerError::StoreUnavailable)));
    assert_eq!(said(step), "Error fetching issuing user");
    let at_target = || start().resume(found(user(2, 20, "Bob", 0, None))).0;
    let (_, step) = at_target().resume(Response::User(Ok(None)));
    assert_eq!(said(step), "Target user not found");
    let (_, step) = at_target().resume(Response::User(Err(LedgerError::StoreUnavailable)));
    assert_eq!(said(step), "Error fetching target user");
    let at_write = || at_target().resume(found(user(1, 10, "Ann", 0, None))).0;
    let (_, step) = at_write().resume(Response::Forgiven(Ok(None)));
    assert_eq!(said(step), "There is nothing to forgive");
    let (_, step) = at_write().resume(Response::Forgiven(Err(LedgerError::NothingToForgive)));
    assert_eq!(said(step), "Error forgiving user");
    let (_, step) = at_write().resume(Response::Forgiven(Err(LedgerError::Conflict)));
    assert_eq!(said(step), "Error forgiving user");
    let at_rank = || at_write().resume(Response::Forgiven(Ok(Some("r".to_string())))).0;
    let (_, step) = at_rank().resume(Response::User(Ok(None)));
    assert_eq!(said(step), "Ranked user not found");
    let (_, step) = at_rank().resume(Response::User(Err(LedgerError::StoreUnavailable)));
    assert_eq!(said(step), "Error fetching ranked user");
}

#[test]
fn add_user_flow_registers_a_new_user() {
    let (flow, step) = add_user_command(10, "ann#1".to_string(), "Ann".to_string());
    assert_eq!(flow.stage(), Stage::Existing);
    assert!(matches!(asked(step), Request::GetUser { discord_id: 10 }));
    let (flow, step) = flow.resume(Response::User(Ok(None)));
    assert_eq!(flow.stage(), Stage::Write);
    match asked(step) {
        Request::AddUser { discord_id, discord_username, friendly_name } => {
            assert_eq!(discord_id, 10);
            assert_eq!(discord_username, "ann#1");
            assert_eq!(friendly_name, "Ann");
        },
        other => panic!("unexpected request {:?}", other),
    }
    let mut added = user(7, 10, "Ann", 0, None);
    added.discord_username = Some("ann#1".to_string());
    let (_, step) = flow.resume(found(added));
    assert_eq!(said(step), "Added user 'Ann'(ann#1/7)");
}

#[test]
fn add_user_flow_reports_collisions_and_failures() {
    let start = || add_user_command(10, "ann#1".to_string(), "Ann".to_string()).0;
    let (_, step) = start().resume(found(user(1, 10, "Ann", 0, None)));
    assert_eq!(said(step), "User already exists");
    // A lookup that fails does not stop the registration.
    let (flow, step) = start().resume(Response::User(Err(LedgerError::StoreUnavailable)));
    assert!(matches!(asked(step), Request::AddUser { .. }));
    let (_, step) = flow.resume(Response::User(Err(LedgerError::AlreadyExists)));
    assert_eq!(said(step), "User already exists");
    let at_write = || start().resume(Response::User(Ok(None))).0;
    let (_, step) = at_write().resume(Response::User(Err(LedgerError::StoreUnavailable)));
    assert_eq!(said(step), "Error adding user");
    let (_, step) = at_write().resume(Response::User(Ok(None)));
    assert_eq!(said(step), "Ranked user not found");
    let mut nameless = user(1, 10, "Ann", 0, None);
    nameless.discord_username = None;
    let (_, step) = at_write().resume(found(nameless));
    assert_eq!(aborted(step), LedgerError::InvariantViolation);
}

fn line(rank: i64, name: &str, points: i32, bbps: i32, gbps: i32) -> LeaderboardUser {
    LeaderboardUser {
        user_id: 1,
        discord_username: None,
        discord_mention: None,
        discord_id: 1,
        friendly_name: Some(name.to_string()),
        points,
        bbps_issued: bbps,
        gbps_issued: gbps,
        rank,
    }
}

#[test]
fn leaderboard_flow_lists_every_line() {
    let (flow, step) = leaderboard_command();
    assert_eq!(flow.stage(), Stage::Listing);
    assert!(matches!(asked(step), Request::Leaderboard { limit: 10 }));
    let rows = vec![line(1, "Ann", 10, 0, 3), line(2, "Bob", 7, 12, 0), line(2, "Cat", 7, 1, 1)];
    let (flow, step) = flow.resume(Response::Leaderboard(Ok(rows)));
    assert_eq!(flow.stage(), Stage::Closed);
    assert_eq!(
        said(step),
        "1. Ann (10 points, 0 bbps given, 3 gbps given)\n\
         2. Bob (7 points, 12 bbps given, 0 gbps given)\n\
         2. Cat (7 points, 1 bbps given, 1 gbps given)\n"
    );
}

#[test]
fn leaderboard_flow_handles_empty_failed_and_nameless() {
    let (flow, _) = leaderboard_command();
    let (_, step) = flow.resume(Response::Leaderboard(Ok(vec![])));
    assert_eq!(said(step), "");
    let (flow, _) = leaderboard_command();
    let (_, step) = flow.resume(Response::Leaderboard(Err(LedgerError::StoreUnavailable)));
    assert_eq!(said(step), "Error fetching leaderboard");
    let mut nameless = line(1, "Ann", 0, 0, 0);
    nameless.friendly_name = None;
    let (flow, _) = leaderboard_command();
    let (_, step) = flow.resume(Response::Leaderboard(Ok(vec![nameless])));
    assert_eq!(aborted(step), LedgerError::InvariantViolation);
}

#[test]
fn leaderboard_of_another_length_can_be_asked_for() {
    let (_, step) = Flow::begin(Command::Leaderboard { limit: 3 });
    assert!(matches!(asked(step), Request::Leaderboard { limit: 3 }));
    let (_, step) = Flow::begin(Command::History { discord_id: 5, limit: 2 });
    assert!(matches!(asked(step), Request::GetUser { discord_id: 5 }));
}

fn record(issuer: &str, description: &str, timestamp: i64) -> HistoryRecord {
    HistoryRecord {
        issuer_friendly_name: issuer.to_string(),
        description: description.to_string(),
        timestamp,
    }
}

#[test]
fn history_flow_is_about_the_author_unless_a_user_is_named() {
    let (_, step) = history_command(10, None);
    assert!(matches!(asked(step), Request::GetUser { discord_id: 10 }));
    let (flow, step) = history_command(10, Some(20));
    assert_eq!(flow.stage(), Stage::Target);
    assert!(matches!(asked(step), Request::GetUser { discord_id: 20 }));
    let (flow, step) = flow.resume(found(user(2, 20, "Bob", 0, None)));
    assert_eq!(flow.stage(), Stage::Listing);
    assert!(matches!(asked(step), Request::History { discord_id: 20, limit: 10 }));
}

#[test]
fn history_flow_writes_each_record_with_its_date() {
    let (flow, _) = history_command(10, None);
    let (flow, _) = flow.resume(found(user(1, 10, "Ann", 0, None)));
    let records = vec![
        record("Bob", "late again", 1_704_153_600_000_000),
        record("Cat", "spilled coffee", 1_704_153_599_999_999),
        record("Bob", "first", 0),
        record("Bob", "before the epoch", -1),
    ];
    let (_, step) = flow.resume(Response::History(Ok(records)));
    assert_eq!(
        said(step),
        "History for Ann\n\n\
         Bob -> late again (2024-01-02)\n\
         Cat -> spilled coffee (2024-01-01)\n\
         Bob -> first (1970-01-01)\n\
         Bob -> before the epoch (1969-12-31)\n"
    );
}

#[test]
fn history_flow_handles_empty_failed_and_unknown() {
    let start = || history_command(10, None).0;
    let (_, step) = start().resume(Response::User(Ok(None)));
    assert_eq!(said(step), "Target user not found");
    let (_, step) = start().resume(Response::User(Err(LedgerError::StoreUnavailable)));
    assert_eq!(said(step), "Error fetching target user");
    let listing = || start().resume(found(user(1, 10, "Ann", 0, None))).0;
    let (_, step) = listing().resume(Response::History(Ok(vec![])));
    assert_eq!(said(step), "No history found");
    let (_, step) = listing().resume(Response::History(Err(LedgerError::NotFound)));
    assert_eq!(said(step), "Error fetching user history");
    // A moment that no calendar date can hold.
    let (_, step) = listing().resume(Response::History(Ok(vec![record("Bob", "x", i64::MAX)])));
    assert_eq!(aborted(step), LedgerError::InvariantViolation);
}

#[test]
fn history_of_a_user_without_a_name_is_headed_unknown() {
    let mut nameless = user(1, 10, "Ann", 0, None);
    nameless.friendly_name = None;
    let (flow, _) = history_command(10, None);
    let (flow, _) = flow.resume(found(nameless));
    let (_, step) = flow.resume(Response::History(Ok(vec![record("Bob", "x", 0)])));
    assert_eq!(said(step), "History for Unknown\n\nBob -> x (1970-01-01)\n");
}
