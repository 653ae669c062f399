use point_ledger::commands::{
    add_user_command, bbp_add_command, bbp_forgive_command, gbp_add_command, history_command,
    leaderboard_command, Request, Response,
};
use point_ledger::ledger::Ledger;
use point_ledger::session::{serve_at, settle, settle_at};
use point_ledger::types::LedgerError;

fn ledger_of(names: &[(i64, &str)]) -> Ledger {
    let mut ledger = Ledger::new();
    for (discord_id, name) in names {
        ledger.add_user(*discord_id, &format!("{}#1", name.to_lowercase()), name).unwrap();
    }
    ledger
}

fn reply(r: Result<Option<String>, LedgerError>) -> String {
    r.unwrap().unwrap()
}

#[test]
fn bbp_command_records_one_demerit() {
    let mut ledger = ledger_of(&[(10, "Ann"), (20, "Bob")]);
    let (flow, step) = bbp_add_command(20, 10, "late again".to_string());
    let text = reply(settle_at(&mut ledger, flow, step, 5));
    assert_eq!(text, "Bob has given <@10> a bbp.\n\nlate again\n\nAnn(#2) now has -1 bbps.");
    let ann = ledger.get_user_by_discord_id_with_rank(10).unwrap();
    assert_eq!(ann.points, -1);
    assert_eq!(ann.rank, Some(2));
    let history = ledger.get_user_history(10, 10).unwrap();
    assert_eq!(history.len(), 1);
    assert_eq!(history[0].timestamp, 5);
    assert_eq!(history[0].issuer_friendly_name, "Bob");
}

#[test]
fn bbp_command_from_or_to_a_stranger_changes_nothing() {
    let mut ledger = ledger_of(&[(10, "Ann")]);
    let (flow, step) = bbp_add_command(99, 10, "x".to_string());
    assert_eq!(reply(settle_at(&mut ledger, flow, step, 5)), "Issuing user not found");
    let (flow, step) = bbp_add_command(10, 99, "x".to_string());
    assert_eq!(reply(settle_at(&mut ledger, flow, step, 5)), "Target user not found");
    assert_eq!(ledger.get_user_by_discord_id(10).unwrap().points, 0);
    assert_eq!(ledger.get_user_by_discord_id(10).unwrap().bbps_issued, 0);
}

#[test]
fn gbp_command_records_one_merit() {
    let mut ledger = ledger_of(&[(10, "Ann"), (20, "Bob")]);
    let (flow, step) = gbp_add_command(20, 10, "helped".to_string());
    let text = reply(settle_at(&mut ledger, flow, step, 5));
    assert_eq!(text, "Bob has given <@10> a bbp.\n\nhelped\n\nAnn(#1) now has 1 bbps.");
    assert_eq!(ledger.get_user_by_discord_id(10).unwrap().points, 1);
    assert_eq!(ledger.get_user_by_discord_id(20).unwrap().gbps_issued, 1);
    assert!(ledger.get_user_history(10, 10).unwrap().is_empty());
}

#[test]
fn self_merit_costs_a_point_and_is_stored_as_a_demerit() {
    let mut ledger = ledger_of(&[(10, "Ann"), (20, "Bob")]);
    let (flow, step) = gbp_add_command(10, 10, "I am great".to_string());
    let text = reply(settle_at(&mut ledger, flow, step, 7));
    assert_eq!(
        text,
        "😡 trying to give yourself a gbp? That's a bbp for you. Ann(#2) now has -1 bbps."
    );
    let ann = ledger.get_user_by_discord_id(10).unwrap();
    assert_eq!(ann.points, -1);
    assert_eq!(ann.gbps_issued, 0);
    assert_eq!(ann.bbps_issued, 1);
    let history = ledger.get_user_history(10, 10).unwrap();
    assert_eq!(history.len(), 1);
    assert_eq!(history[0].description, "attempted self-merit");
    assert_eq!(history[0].issuer_friendly_name, "Ann");
    assert_eq!(history[0].timestamp, 7);
}

#[test]
fn gbp_command_with_a_stranger_fails_without_a_trace() {
    let mut ledger = ledger_of(&[(10, "Ann")]);
    let (flow, step) = gbp_add_command(99, 10, "x".to_string());
    assert_eq!(reply(settle_at(&mut ledger, flow, step, 5)), "Error adding GBP");
    let (flow, step) = gbp_add_command(10, 99, "x".to_string());
    assert_eq!(reply(settle_at(&mut ledger, flow, step, 5)), "Error adding GBP");
    let (flow, step) = gbp_add_command(99, 99, "x".to_string());
    assert_eq!(reply(settle_at(&mut ledger, flow, step, 5)), "Error adding GBP");
    assert_eq!(ledger.get_user_by_discord_id(10).unwrap().points, 0);
}

#[test]
fn forgive_command_retracts_the_latest_demerit() {
    let mut ledger = ledger_of(&[(10, "Ann"), (20, "Bob")]);
    for (reason, at) in [("one", 1), ("two", 2)] {
        let (flow, step) = bbp_add_command(20, 10, reason.to_string());
        settle_at(&mut ledger, flow, step, at).unwrap();
    }
    let (flow, step) = bbp_forgive_command(20, 10);
    let text = reply(settle_at(&mut ledger, flow, step, 9));
    assert_eq!(text, "Ann(#2) was forgiven for 'two' and now only has -1 bbps.");
    let (flow, step) = bbp_forgive_command(20, 10);
    let text = reply(settle_at(&mut ledger, flow, step, 9));
    assert_eq!(text, "Ann(#1) was forgiven for 'one' and now only has 0 bbps.");
    let (flow, step) = bbp_forgive_command(20, 10);
    assert_eq!(reply(settle_at(&mut ledger, flow, step, 9)), "There is nothing to forgive");
    // Ann has nothing of hers to forgive Bob.
    let (flow, step) = bbp_forgive_command(10, 20);
    assert_eq!(reply(settle_at(&mut ledger, flow, step, 9)), "There is nothing to forgive");
}

#[test]
fn add_user_command_registers_once() {
    let mut ledger = Ledger::new();
    let (flow, step) = add_user_command(10, "ann#1".to_string(), "Ann".to_string());
    assert_eq!(reply(settle_at(&mut ledger, flow, step, 0)), "Added user 'Ann'(ann#1/1)");
    let (flow, step) = add_user_command(10, "ann#2".to_string(), "Other".to_string());
    assert_eq!(reply(settle_at(&mut ledger, flow, step, 0)), "User already exists");
    let (flow, step) = add_user_command(20, "bob#1".to_string(), "Bob".to_string());
    assert_eq!(reply(settle_at(&mut ledger, flow, step, 0)), "Added user 'Bob'(bob#1/2)");
    assert_eq!(ledger.get_leaderboard(10).len(), 2);
    assert_eq!(
        ledger.get_user_by_discord_id(10).unwrap().friendly_name.as_deref(),
        Some("Ann")
    );
}

#[test]
fn leaderboard_command_shows_ranks_with_ties() {
    let mut ledger = ledger_of(&[(10, "Ann"), (20, "Bob"), (30, "Cat")]);
    let (flow, step) = bbp_add_command(20, 10, "x".to_string());
    settle_at(&mut ledger, flow, step, 1).unwrap();
    let (flow, step) = leaderboard_command();
    let text = reply(settle_at(&mut ledger, flow, step, 2));
    assert_eq!(
        text,
        "1. Bob (0 points, 1 bbps given, 0 gbps given)\n\
         1. Cat (0 points, 0 bbps given, 0 gbps given)\n\
         3. Ann (-1 points, 0 bbps given, 0 gbps given)\n"
    );
    let mut empty = Ledger::new();
    let (flow, step) = leaderboard_command();
    assert_eq!(reply(settle_at(&mut empty, flow, step, 2)), "");
}

#[test]
fn history_command_lists_the_latest_first() {
    let mut ledger = ledger_of(&[(10, "Ann"), (20, "Bob"), (30, "Cat")]);
    let day: i64 = 86_400_000_000;
    for (issuer, reason, at) in [(20, "t1", day), (30, "t3", 3 * day), (20, "t2", 2 * day)] {
        let (flow, step) = bbp_add_command(issuer, 10, reason.to_string());
        settle_at(&mut ledger, flow, step, at).unwrap();
    }
    let (flow, step) = history_command(20, Some(10));
    let text = reply(settle_at(&mut ledger, flow, step, 0));
    assert_eq!(
        text,
        "History for Ann\n\n\
         Cat -> t3 (1970-01-04)\n\
         Bob -> t2 (1970-01-03)\n\
         Bob -> t1 (1970-01-02)\n"
    );
    let (flow, step) = history_command(20, None);
    assert_eq!(reply(settle_at(&mut ledger, flow, step, 0)), "No history found");
    let (flow, step) = history_command(99, None);
    assert_eq!(reply(settle_at(&mut ledger, flow, step, 0)), "Target user not found");
}

#[test]
fn history_with_a_date_out_of_range_is_a_failure() {
    let mut ledger = ledger_of(&[(10, "Ann"), (20, "Bob")]);
    let (flow, step) = bbp_add_command(20, 10, "x".to_string());
    settle_at(&mut ledger, flow, step, i64::MIN).unwrap();
    let (flow, step) = history_command(10, None);
    assert_eq!(settle_at(&mut ledger, flow, step, 0), Err(LedgerError::InvariantViolation));
}

#[test]
fn commands_settled_now_take_the_clock() {
    let mut ledger = ledger_of(&[(10, "Ann"), (20, "Bob")]);
    let (flow, step) = bbp_add_command(20, 10, "now".to_string());
    let text = reply(settle(&mut ledger, flow, step));
    assert_eq!(text, "Bob has given <@10> a bbp.\n\nnow\n\nAnn(#2) now has -1 bbps.");
    let history = ledger.get_user_history(10, 10).unwrap();
    assert!(history[0].timestamp > 1_577_836_800_000_000);
}

#[test]
fn requests_are_served_from_the_ledger() {
    let mut ledger = ledger_of(&[(10, "Ann")]);
    let ann = ledger.get_user_by_discord_id(10).unwrap();
    match serve_at(&mut ledger, &Request::GetUser { discord_id: 10 }, 0) {
        Response::User(Ok(Some(u))) => assert_eq!(u.rank, None),
        other => panic!("unexpected response {:?}", other),
    }
    match serve_at(&mut ledger, &Request::GetRankedUser { discord_id: 10 }, 0) {
        Response::User(Ok(Some(u))) => assert_eq!(u.rank, Some(1)),
        other => panic!("unexpected response {:?}", other),
    }
    match serve_at(&mut ledger, &Request::GetUserByMention { mention: "<@10>".to_string() }, 0) {
        Response::User(Ok(Some(u))) => assert_eq!(u.user_id, 1),
        other => panic!("unexpected response {:?}", other),
    }
    match serve_at(&mut ledger, &Request::GetUser { discord_id: 11 }, 0) {
        Response::User(Ok(None)) => {},
        other => panic!("unexpected response {:?}", other),
    }
    let add = Request::AddUser {
        discord_id: 10,
        discord_username: "x".to_string(),
        friendly_name: "X".to_string(),
    };
    match serve_at(&mut ledger, &add, 0) {
        Response::User(Err(LedgerError::AlreadyExists)) => {},
        other => panic!("unexpected response {:?}", other),
    }
    let mut stranger = ann.clone();
    stranger.user_id = 9;
    let write = Request::AddBbp {
        target: stranger,
        issuer: ann.clone(),
        description: "x".to_string(),
    };
    match serve_at(&mut ledger, &write, 0) {
        Response::Written(Err(LedgerError::NotFound)) => {},
        other => panic!("unexpected response {:?}", other),
    }
    let forgive = Request::Forgive { target: ann.clone(), issuer: ann.clone() };
    match serve_at(&mut ledger, &forgive, 0) {
        Response::Forgiven(Ok(None)) => {},
        other => panic!("unexpected response {:?}", other),
    }
    match serve_at(&mut ledger, &Request::History { discord_id: 11, limit: 10 }, 0) {
        Response::History(Err(LedgerError::NotFound)) => {},
        other => panic!("unexpected response {:?}", other),
    }
    match serve_at(&mut ledger, &Request::Leaderboard { limit: 10 }, 0) {
        Response::Leaderboard(Ok(rows)) => assert_eq!(rows.len(), 1),
        other => panic!("unexpected response {:?}", other),
    }
}
