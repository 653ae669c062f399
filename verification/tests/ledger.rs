use point_ledger::ledger::Ledger;
use point_ledger::types::{LedgerError, User};

fn member(ledger: &mut Ledger, discord_id: i64, name: &str) -> User {
    ledger.add_user(discord_id, &format!("{}#0001", name), name).unwrap()
}

fn points(ledger: &Ledger, discord_id: i64) -> i32 {
    ledger.get_user_by_discord_id(discord_id).unwrap().points
}

#[test]
fn new_ledger_is_empty() {
    let ledger = Ledger::new();
    assert!(ledger.get_user_by_discord_id(1).is_none());
    assert!(ledger.get_user_by_discord_id_with_rank(1).is_none());
    assert!(ledger.get_leaderboard(10).is_empty());
    assert_eq!(ledger.get_user_history(1, 10).unwrap_err(), LedgerError::NotFound);
}

#[test]
fn registration_answers_a_user_with_zero_points() {
    let mut ledger = Ledger::new();
    let ann = ledger.add_user(4200, "ann#1", "Ann").unwrap();
    assert_eq!(ann.user_id, 1);
    assert_eq!(ann.username, None);
    assert_eq!(ann.discord_username.as_deref(), Some("ann#1"));
    assert_eq!(ann.discord_mention.as_deref(), Some("<@4200>"));
    assert_eq!(ann.discord_id, 4200);
    assert_eq!(ann.friendly_name.as_deref(), Some("Ann"));
    assert_eq!(ann.points, 0);
    assert_eq!(ann.bbps_issued, 0);
    assert_eq!(ann.gbps_issued, 0);
    assert_eq!(ann.rank, None);
    let bob = ledger.add_user(-7, "bob#2", "Bob").unwrap();
    assert_eq!(bob.user_id, 2);
    assert_eq!(bob.discord_mention.as_deref(), Some("<@-7>"));
}

#[test]
fn registration_collision_is_refused_and_leaves_one_record() {
    let mut ledger = Ledger::new();
    member(&mut ledger, 10, "Ann");
    let second = ledger.add_user(10, "other#9", "Other");
    assert_eq!(second.unwrap_err(), LedgerError::AlreadyExists);
    let found = ledger.get_user_by_discord_id(10).unwrap();
    assert_eq!(found.user_id, 1);
    assert_eq!(found.friendly_name.as_deref(), Some("Ann"));
    assert_eq!(ledger.get_leaderboard(10).len(), 1);
}

#[test]
fn lookup_of_an_unknown_id_answers_nothing() {
    let mut ledger = Ledger::new();
    member(&mut ledger, 10, "Ann");
    assert!(ledger.get_user_by_discord_id(11).is_none());
    assert!(ledger.get_user_by_discord_id_with_rank(11).is_none());
}

#[test]
fn users_are_equal_by_internal_id() {
    let mut ledger = Ledger::new();
    let ann = member(&mut ledger, 10, "Ann");
    let bob = member(&mut ledger, 20, "Bob");
    ledger.add_bbp_to_user_at(&ann, &bob, "late", 1).unwrap();
    let later = ledger.get_user_by_discord_id(10).unwrap();
    assert_eq!(later.points, -1);
    assert!(later == ann);
    assert!(ann != bob);
    assert!(ann.clone() == ann);
}

#[test]
fn each_demerit_costs_exactly_one_point() {
    let mut ledger = Ledger::new();
    let ann = member(&mut ledger, 10, "Ann");
    let bob = member(&mut ledger, 20, "Bob");
    for n in 1..=5 {
        ledger.add_bbp_to_user_at(&ann, &bob, "again", n as i64).unwrap();
        assert_eq!(points(&ledger, 10), -n);
        assert_eq!(points(&ledger, 20), 0);
    }
    assert_eq!(ledger.get_user_by_discord_id(20).unwrap().bbps_issued, 5);
    assert_eq!(ledger.get_user_by_discord_id(10).unwrap().bbps_issued, 0);
}

#[test]
fn forgiven_demerits_do_not_count() {
    let mut ledger = Ledger::new();
    let ann = member(&mut ledger, 10, "Ann");
    let bob = member(&mut ledger, 20, "Bob");
    ledger.add_bbp_to_user_at(&ann, &bob, "one", 1).unwrap();
    ledger.add_bbp_to_user_at(&ann, &bob, "two", 2).unwrap();
    ledger.add_bbp_to_user_at(&ann, &bob, "three", 3).unwrap();
    assert_eq!(points(&ledger, 10), -3);
    assert_eq!(ledger.forgive_user(&ann, &bob).as_deref(), Some("three"));
    assert_eq!(points(&ledger, 10), -2);
    ledger.add_bbp_to_user_at(&ann, &bob, "four", 4).unwrap();
    assert_eq!(points(&ledger, 10), -3);
    assert_eq!(ledger.get_user_by_discord_id(20).unwrap().bbps_issued, 4);
}

#[test]
fn merits_earn_one_point_each() {
    let mut ledger = Ledger::new();
    let ann = member(&mut ledger, 10, "Ann");
    let bob = member(&mut ledger, 20, "Bob");
    ledger.add_gbp_to_user_at(&ann, &bob, "kind", 1).unwrap();
    ledger.add_gbp_to_user_at(&ann, &bob, "kind again", 2).unwrap();
    ledger.add_bbp_to_user_at(&ann, &bob, "rude", 3).unwrap();
    let ann_now = ledger.get_user_by_discord_id(10).unwrap();
    assert_eq!(ann_now.points, 1);
    let bob_now = ledger.get_user_by_discord_id(20).unwrap();
    assert_eq!(bob_now.points, 0);
    assert_eq!(bob_now.gbps_issued, 2);
    assert_eq!(bob_now.bbps_issued, 1);
}

#[test]
fn a_user_may_give_themselves_a_demerit() {
    let mut ledger = Ledger::new();
    let ann = member(&mut ledger, 10, "Ann");
    ledger.add_bbp_to_user_at(&ann, &ann, "my bad", 1).unwrap();
    let ann_now = ledger.get_user_by_discord_id(10).unwrap();
    assert_eq!(ann_now.points, -1);
    assert_eq!(ann_now.bbps_issued, 1);
}

#[test]
fn empty_description_is_accepted() {
    let mut ledger = Ledger::new();
    let ann = member(&mut ledger, 10, "Ann");
    let bob = member(&mut ledger, 20, "Bob");
    ledger.add_bbp_to_user_at(&ann, &bob, "", 1).unwrap();
    ledger.add_gbp_to_user_at(&bob, &ann, "", 2).unwrap();
    assert_eq!(ledger.forgive_user(&ann, &bob).as_deref(), Some(""));
}

#[test]
fn entries_between_unknown_users_are_refused() {
    let mut ledger = Ledger::new();
    let ann = member(&mut ledger, 10, "Ann");
    let mut ghost = ann.clone();
    ghost.user_id = 2;
    assert_eq!(ledger.add_bbp_to_user_at(&ghost, &ann, "x", 1), Err(LedgerError::NotFound));
    assert_eq!(ledger.add_bbp_to_user_at(&ann, &ghost, "x", 1), Err(LedgerError::NotFound));
    assert_eq!(ledger.add_gbp_to_user_at(&ghost, &ann, "x", 1), Err(LedgerError::NotFound));
    ghost.user_id = 0;
    assert_eq!(ledger.add_gbp_to_user_at(&ann, &ghost, "x", 1), Err(LedgerError::NotFound));
    ghost.user_id = -1;
    assert_eq!(ledger.add_bbp_to_user(&ann, &ghost, "x"), Err(LedgerError::NotFound));
    assert_eq!(points(&ledger, 10), 0);
    assert!(ledger.get_user_history(10, 10).unwrap().is_empty());
}

#[test]
fn entries_recorded_now_are_kept() {
    let mut ledger = Ledger::new();
    let ann = member(&mut ledger, 10, "Ann");
    let bob = member(&mut ledger, 20, "Bob");
    ledger.add_bbp_to_user(&ann, &bob, "now").unwrap();
    ledger.add_gbp_to_user(&bob, &ann, "now too").unwrap();
    assert_eq!(points(&ledger, 10), -1);
    assert_eq!(points(&ledger, 20), 1);
    let history = ledger.get_user_history(10, 10).unwrap();
    assert_eq!(history.len(), 1);
    assert_eq!(history[0].description, "now");
    // The clock reads a moment after the year 2020.
    assert!(history[0].timestamp > 1_577_836_800_000_000);
}

#[test]
fn forgiveness_takes_the_latest_first() {
    let mut ledger = Ledger::new();
    let ann = member(&mut ledger, 10, "Ann");
    let bob = member(&mut ledger, 20, "Bob");
    ledger.add_bbp_to_user_at(&ann, &bob, "t2", 200).unwrap();
    ledger.add_bbp_to_user_at(&ann, &bob, "t3", 300).unwrap();
    ledger.add_bbp_to_user_at(&ann, &bob, "t1", 100).unwrap();
    assert_eq!(ledger.forgive_user(&ann, &bob).as_deref(), Some("t3"));
    assert_eq!(ledger.forgive_user(&ann, &bob).as_deref(), Some("t2"));
    assert_eq!(points(&ledger, 10), -1);
    assert_eq!(ledger.forgive_user(&ann, &bob).as_deref(), Some("t1"));
    assert_eq!(ledger.forgive_user(&ann, &bob), None);
    assert_eq!(points(&ledger, 10), 0);
}

#[test]
fn forgiveness_breaks_ties_by_the_later_entry() {
    let mut ledger = Ledger::new();
    let ann = member(&mut ledger, 10, "Ann");
    let bob = member(&mut ledger, 20, "Bob");
    ledger.add_bbp_to_user_at(&ann, &bob, "first", 5).unwrap();
    ledger.add_bbp_to_user_at(&ann, &bob, "second", 5).unwrap();
    assert_eq!(ledger.forgive_user(&ann, &bob).as_deref(), Some("second"));
    assert_eq!(ledger.forgive_user(&ann, &bob).as_deref(), Some("first"));
}

#[test]
fn second_forgiveness_finds_nothing() {
    let mut ledger = Ledger::new();
    let ann = member(&mut ledger, 10, "Ann");
    let bob = member(&mut ledger, 20, "Bob");
    ledger.add_bbp_to_user_at(&ann, &bob, "only", 1).unwrap();
    assert_eq!(ledger.forgive_user(&ann, &bob).as_deref(), Some("only"));
    assert_eq!(ledger.forgive_user(&ann, &bob), None);
    assert_eq!(ledger.forgive_user(&ann, &bob), None);
    assert_eq!(points(&ledger, 10), 0);
    // The entry is still on record.
    assert_eq!(ledger.get_user_history(10, 10).unwrap().len(), 1);
}

#[test]
fn forgiveness_is_between_one_issuer_and_one_target() {
    let mut ledger = Ledger::new();
    let ann = member(&mut ledger, 10, "Ann");
    let bob = member(&mut ledger, 20, "Bob");
    let cat = member(&mut ledger, 30, "Cat");
    ledger.add_bbp_to_user_at(&ann, &bob, "from bob", 1).unwrap();
    ledger.add_bbp_to_user_at(&ann, &cat, "from cat", 2).unwrap();
    ledger.add_bbp_to_user_at(&bob, &cat, "at bob", 3).unwrap();
    // Nothing that Ann gave Bob.
    assert_eq!(ledger.forgive_user(&bob, &ann), None);
    assert_eq!(ledger.forgive_user(&ann, &bob).as_deref(), Some("from bob"));
    assert_eq!(points(&ledger, 10), -1);
    assert_eq!(points(&ledger, 20), -1);
    assert_eq!(ledger.forgive_user(&ann, &cat).as_deref(), Some("from cat"));
    assert_eq!(points(&ledger, 10), 0);
    assert_eq!(points(&ledger, 20), -1);
}

#[test]
fn merits_cannot_be_forgiven() {
    let mut ledger = Ledger::new();
    let ann = member(&mut ledger, 10, "Ann");
    let bob = member(&mut ledger, 20, "Bob");
    ledger.add_gbp_to_user_at(&ann, &bob, "kind", 1).unwrap();
    assert_eq!(ledger.forgive_user(&ann, &bob), None);
    assert_eq!(points(&ledger, 10), 1);
}

fn with_points(ledger: &mut Ledger, user: &User, giver: &User, points: i32) {
    for n in 0..points {
        ledger.add_gbp_to_user_at(user, giver, "+1", n as i64).unwrap();
    }
}

#[test]
fn tied_users_share_a_rank_and_the_next_rank_skips() {
    let mut ledger = Ledger::new();
    let giver = member(&mut ledger, 1, "Giver");
    let a = member(&mut ledger, 10, "A");
    let b = member(&mut ledger, 20, "B");
    let c = member(&mut ledger, 30, "C");
    with_points(&mut ledger, &a, &giver, 10);
    with_points(&mut ledger, &b, &giver, 7);
    with_points(&mut ledger, &c, &giver, 7);
    let top = ledger.get_leaderboard(3);
    let ranks: Vec<i64> = top.iter().map(|u| u.rank).collect();
    let scores: Vec<i32> = top.iter().map(|u| u.points).collect();
    let names: Vec<&str> = top.iter().map(|u| u.friendly_name.as_deref().unwrap()).collect();
    assert_eq!(ranks, vec![1, 2, 2]);
    assert_eq!(scores, vec![10, 7, 7]);
    assert_eq!(names, vec!["A", "B", "C"]);
    let d = member(&mut ledger, 40, "D");
    with_points(&mut ledger, &d, &giver, 5);
    let ranked = ledger.get_user_by_discord_id_with_rank(40).unwrap();
    assert_eq!(ranked.rank, Some(4));
    assert_eq!(ranked.points, 5);
    // The giver has no points and comes last of the five.
    assert_eq!(ledger.get_user_by_discord_id_with_rank(1).unwrap().rank, Some(5));
    let all = ledger.get_leaderboard(10);
    let ranks: Vec<i64> = all.iter().map(|u| u.rank).collect();
    assert_eq!(ranks, vec![1, 2, 2, 4, 5]);
    assert_eq!(all[4].gbps_issued, 29);
}

#[test]
fn leaderboard_keeps_the_first_n() {
    let mut ledger = Ledger::new();
    let giver = member(&mut ledger, 1, "Giver");
    for n in 0..12 {
        let user = member(&mut ledger, 100 + n, &format!("U{}", n));
        with_points(&mut ledger, &user, &giver, (n % 4) as i32 + 1);
    }
    let top = ledger.get_leaderboard(10);
    assert_eq!(top.len(), 10);
    let names: Vec<&str> = top.iter().map(|u| u.friendly_name.as_deref().unwrap()).collect();
    assert_eq!(names, vec!["U3", "U7", "U11", "U2", "U6", "U10", "U1", "U5", "U9", "U0"]);
    let ranks: Vec<i64> = top.iter().map(|u| u.rank).collect();
    assert_eq!(ranks, vec![1, 1, 1, 4, 4, 4, 7, 7, 7, 10]);
    assert!(ledger.get_leaderboard(0).is_empty());
    assert_eq!(ledger.get_leaderboard(100).len(), 13);
}

#[test]
fn leaderboard_orders_negative_points_last() {
    let mut ledger = Ledger::new();
    let ann = member(&mut ledger, 10, "Ann");
    let bob = member(&mut ledger, 20, "Bob");
    let cat = member(&mut ledger, 30, "Cat");
    ledger.add_bbp_to_user_at(&ann, &bob, "a", 1).unwrap();
    ledger.add_bbp_to_user_at(&ann, &bob, "b", 2).unwrap();
    ledger.add_bbp_to_user_at(&cat, &bob, "c", 3).unwrap();
    let board = ledger.get_leaderboard(10);
    let names: Vec<&str> = board.iter().map(|u| u.friendly_name.as_deref().unwrap()).collect();
    assert_eq!(names, vec!["Bob", "Cat", "Ann"]);
    assert_eq!(board[0].rank, 1);
    assert_eq!(board[0].bbps_issued, 3);
    assert_eq!(board[1].rank, 2);
    assert_eq!(board[2].rank, 3);
    assert_eq!(board[2].points, -2);
    assert_eq!(board[2].discord_mention.as_deref(), Some("<@10>"));
    assert_eq!(board[2].discord_username.as_deref(), Some("Ann#0001"));
    assert_eq!(board[2].user_id, 1);
    assert_eq!(board[2].discord_id, 10);
}

#[test]
fn history_lists_the_latest_first() {
    let mut ledger = Ledger::new();
    let ann = member(&mut ledger, 10, "Ann");
    let bob = member(&mut ledger, 20, "Bob");
    let cat = member(&mut ledger, 30, "Cat");
    ledger.add_bbp_to_user_at(&ann, &bob, "t1", 100).unwrap();
    ledger.add_bbp_to_user_at(&ann, &cat, "t3", 300).unwrap();
    ledger.add_bbp_to_user_at(&ann, &bob, "t2", 200).unwrap();
    ledger.add_bbp_to_user_at(&bob, &ann, "not hers", 400).unwrap();
    ledger.add_gbp_to_user_at(&ann, &bob, "a merit", 500).unwrap();
    let two = ledger.get_user_history(10, 2).unwrap();
    assert_eq!(two.len(), 2);
    assert_eq!(two[0].timestamp, 300);
    assert_eq!(two[0].description, "t3");
    assert_eq!(two[0].issuer_friendly_name, "Cat");
    assert_eq!(two[1].timestamp, 200);
    assert_eq!(two[1].description, "t2");
    assert_eq!(two[1].issuer_friendly_name, "Bob");
    let all = ledger.get_user_history(10, 10).unwrap();
    let stamps: Vec<i64> = all.iter().map(|r| r.timestamp).collect();
    assert_eq!(stamps, vec![300, 200, 100]);
    assert!(ledger.get_user_history(10, 0).unwrap().is_empty());
}

#[test]
fn history_keeps_forgiven_demerits() {
    let mut ledger = Ledger::new();
    let ann = member(&mut ledger, 10, "Ann");
    let bob = member(&mut ledger, 20, "Bob");
    ledger.add_bbp_to_user_at(&ann, &bob, "old", 1).unwrap();
    ledger.add_bbp_to_user_at(&ann, &bob, "new", 2).unwrap();
    ledger.forgive_user(&ann, &bob).unwrap();
    let all = ledger.get_user_history(10, 10).unwrap();
    let reasons: Vec<&str> = all.iter().map(|r| r.description.as_str()).collect();
    assert_eq!(reasons, vec!["new", "old"]);
}

#[test]
fn history_of_a_user_without_demerits_is_empty() {
    let mut ledger = Ledger::new();
    member(&mut ledger, 10, "Ann");
    assert!(ledger.get_user_history(10, 10).unwrap().is_empty());
}

#[test]
fn history_of_an_unknown_user_is_refused() {
    let mut ledger = Ledger::new();
    member(&mut ledger, 10, "Ann");
    assert_eq!(ledger.get_user_history(11, 10).unwrap_err(), LedgerError::NotFound);
}
