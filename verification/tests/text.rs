use point_ledger::commands::history_dates;
use point_ledger::decimal::{append_decimal, decimal};
use point_ledger::text::{
    added_user_reply, forgiven_reply, given_reply, history_reply, leaderboard_reply,
    self_merit_reply, spoken_self_merit_reply, standing_reply,
};
use point_ledger::types::{HistoryRecord, LeaderboardUser};

#[test]
fn integers_are_written_in_decimal() {
    assert_eq!(decimal(0), "0");
    assert_eq!(decimal(9), "9");
    assert_eq!(decimal(10), "10");
    assert_eq!(decimal(1234567890), "1234567890");
    assert_eq!(decimal(-1), "-1");
    assert_eq!(decimal(-100), "-100");
    assert_eq!(decimal(i64::MAX), "9223372036854775807");
    assert_eq!(decimal(i64::MIN), "-9223372036854775808");
    for n in [-1000i64, -11, 5, 99, 101, 65536] {
        assert_eq!(decimal(n), n.to_string());
    }
    let mut out = String::from("n=");
    append_decimal(&mut out, 42);
    append_decimal(&mut out, -7);
    assert_eq!(out, "n=42-7");
}

#[test]
fn replies_are_written_in_full() {
    assert_eq!(standing_reply("Ann", 3, -12), "Ann(#3) now has -12 bbps.");
    assert_eq!(
        given_reply("Bob", "<@10>", "late", "Ann", 3, -12),
        "Bob has given <@10> a bbp.\n\nlate\n\nAnn(#3) now has -12 bbps."
    );
    assert_eq!(
        given_reply("", "", "", "", 0, 0),
        " has given  a bbp.\n\n\n\n(#0) now has 0 bbps."
    );
    assert_eq!(
        self_merit_reply("Ann", 1, 0),
        "😡 trying to give yourself a gbp? That's a bbp for you. Ann(#1) now has 0 bbps."
    );
    assert_eq!(
        spoken_self_merit_reply("Ann", 1, 0),
        "😡 trying to give yourself a gbp? Thats a bbp for you. Ann(#1) now has 0 bbps."
    );
    assert_eq!(
        forgiven_reply("Ann", 2, "it's fine", 4),
        "Ann(#2) was forgiven for 'it's fine' and now only has 4 bbps."
    );
    assert_eq!(added_user_reply("Ann", "ann#1", 12), "Added user 'Ann'(ann#1/12)");
}

fn line(rank: i64, name: Option<&str>, points: i32) -> LeaderboardUser {
    LeaderboardUser {
        user_id: 1,
        discord_username: None,
        discord_mention: None,
        discord_id: 1,
        friendly_name: name.map(|n| n.to_string()),
        points,
        bbps_issued: 2,
        gbps_issued: 3,
        rank,
    }
}

#[test]
fn leaderboard_is_written_line_by_line() {
    assert_eq!(leaderboard_reply(&vec![]).as_deref(), Some(""));
    assert_eq!(
        leaderboard_reply(&vec![line(1, Some("Ann"), 5), line(2, Some("Bob"), -5)]).as_deref(),
        Some(
            "1. Ann (5 points, 2 bbps given, 3 gbps given)\n\
             2. Bob (-5 points, 2 bbps given, 3 gbps given)\n"
        )
    );
    assert_eq!(leaderboard_reply(&vec![line(1, Some("Ann"), 5), line(2, None, 0)]), None);
}

fn record(issuer: &str, description: &str, timestamp: i64) -> HistoryRecord {
    HistoryRecord {
        issuer_friendly_name: issuer.to_string(),
        description: description.to_string(),
        timestamp,
    }
}

#[test]
fn history_is_written_under_its_heading() {
    let records = vec![record("Bob", "late", 2), record("Cat", "rude", 1)];
    let dates = vec!["2024-05-06".to_string(), "2024-05-05".to_string()];
    assert_eq!(
        history_reply("Ann", &records, &dates),
        "History for Ann\n\nBob -> late (2024-05-06)\nCat -> rude (2024-05-05)\n"
    );
    assert_eq!(history_reply("Ann", &vec![], &vec![]), "History for Ann\n\n");
}

#[test]
fn dates_are_those_of_the_calendar() {
    let records = vec![
        record("a", "b", 0),
        record("a", "b", 951_782_400_000_000),
        record("a", "b", 951_868_799_999_999),
        record("a", "b", 1_735_689_600_000_000),
        record("a", "b", -86_400_000_001),
    ];
    assert_eq!(
        history_dates(&records),
        Some(vec![
            "1970-01-01".to_string(),
            "2000-02-29".to_string(),
            "2000-02-29".to_string(),
            "2025-01-01".to_string(),
            "1969-12-30".to_string(),
        ])
    );
    assert_eq!(history_dates(&vec![]), Some(vec![]));
    assert_eq!(history_dates(&vec![record("a", "b", 0), record("a", "b", i64::MAX)]), None);
    assert_eq!(history_dates(&vec![record("a", "b", i64::MIN)]), None);
}
