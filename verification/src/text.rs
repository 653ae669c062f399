//! The replies in words.
//!
//! Each reply is stated as a text and built by a function that is proved to
//! build exactly that text.

use vstd::prelude::*;
use vstd::string::*;
use crate::decimal::{append_decimal, decimal_text};
use crate::types::{HistoryRecord, HistoryRecordView, LeaderboardUser, LeaderboardUserView};

verus! {

/// Where a user stands: `name(#rank) now has points bbps.`
pub open spec fn standing_text(name: Seq<char>, rank: i64, points: i32) -> Seq<char> {
    name + "(#"@ + decimal_text(rank as int) + ") now has "@ + decimal_text(points as int)
        + " bbps."@
}

/// The confirmation of an entry: who gave whom what, the reason, and where
/// the target stands now.
pub open spec fn given_text(
    issuer_name: Seq<char>,
    target_mention: Seq<char>,
    description: Seq<char>,
    name: Seq<char>,
    rank: i64,
    points: i32,
) -> Seq<char> {
    issuer_name + " has given "@ + target_mention + " a bbp.\n\n"@ + description + "\n\n"@
        + standing_text(name, rank, points)
}

/// The reply to one who tried to give themselves a merit.
pub open spec fn self_merit_text(name: Seq<char>, rank: i64, points: i32) -> Seq<char> {
    "😡 trying to give yourself a gbp? That's a bbp for you. "@ + standing_text(
        name,
        rank,
        points,
    )
}

/// The reply to one who tried to give themselves a merit in a text message.
pub open spec fn spoken_self_merit_text(name: Seq<char>, rank: i64, points: i32) -> Seq<char> {
    "😡 trying to give yourself a gbp? Thats a bbp for you. "@ + standing_text(
        name,
        rank,
        points,
    )
}

/// The confirmation of a forgiveness.
pub open spec fn forgiven_text(name: Seq<char>, rank: i64, description: Seq<char>, points: i32)
    -> Seq<char> {
    name + "(#"@ + decimal_text(rank as int) + ") was forgiven for '"@ + description
        + "' and now only has "@ + decimal_text(points as int) + " bbps."@
}

/// The confirmation of a registration.
pub open spec fn added_user_text(
    friendly_name: Seq<char>,
    discord_username: Seq<char>,
    user_id: i32,
) -> Seq<char> {
    "Added user '"@ + friendly_name + "'("@ + discord_username + "/"@ + decimal_text(
        user_id as int,
    ) + ")"@
}

/// The name on a line of the leaderboard; empty where the line has none.
pub open spec fn board_name(row: LeaderboardUserView) -> Seq<char> {
    match row.friendly_name {
        Some(name) => name,
        None => Seq::empty(),
    }
}

/// One line of the leaderboard.
pub open spec fn board_line(row: LeaderboardUserView) -> Seq<char> {
    decimal_text(row.rank as int) + ". "@ + board_name(row) + " ("@ + decimal_text(
        row.points as int,
    ) + " points, "@ + decimal_text(row.bbps_issued as int) + " bbps given, "@ + decimal_text(
        row.gbps_issued as int,
    ) + " gbps given)\n"@
}

/// The lines of the leaderboard, one after the other.
pub open spec fn board_text(rows: Seq<LeaderboardUserView>) -> Seq<char>
    decreases rows.len(),
{
    if rows.len() == 0 {
        Seq::empty()
    } else {
        board_text(rows.drop_last()) + board_line(rows.last())
    }
}

/// Whether every line of the leaderboard has a name.
pub open spec fn board_named(rows: Seq<LeaderboardUserView>) -> bool {
    forall|k: int| 0 <= k < rows.len() ==> (#[trigger] rows[k]).friendly_name is Some
}

/// One line of a history: `issuer -> reason (date)`.
pub open spec fn history_line(record: HistoryRecordView, date: Seq<char>) -> Seq<char> {
    record.issuer_friendly_name + " -> "@ + record.description + " ("@ + date + ")\n"@
}

/// The lines of a history, one after the other, each with its date.
pub open spec fn history_lines(records: Seq<HistoryRecordView>, dates: Seq<Seq<char>>) -> Seq<char>
    decreases records.len(),
{
    if records.len() == 0 || dates.len() == 0 {
        Seq::empty()
    } else {
        history_lines(records.drop_last(), dates.drop_last()) + history_line(
            records.last(),
            dates.last(),
        )
    }
}

/// A user's history under its heading.
pub open spec fn history_text(
    name: Seq<char>,
    records: Seq<HistoryRecordView>,
    dates: Seq<Seq<char>>,
) -> Seq<char> {
    "History for "@ + name + "\n\n"@ + history_lines(records, dates)
}

/// Appends where a user stands.
fn append_standing(out: &mut String, name: &str, rank: i64, points: i32)
    ensures
        final(out)@ == old(out)@ + standing_text(name@, rank, points),
{
    out.append(name);
    out.append("(#");
    append_decimal(out, rank);
    out.append(") now has ");
    append_decimal(out, points as i64);
    out.append(" bbps.");
    assert(out@ =~= old(out)@ + standing_text(name@, rank, points));
}

/// Where a user stands, in words.
pub fn standing_reply(name: &str, rank: i64, points: i32) -> (r: String)
    ensures
        r@ == standing_text(name@, rank, points),
{
    let mut out = String::new();
    append_standing(&mut out, name, rank, points);
    assert(out@ =~= standing_text(name@, rank, points));
    out
}

/// The confirmation of an entry, in words.
pub fn given_reply(
    issuer_name: &str,
    target_mention: &str,
    description: &str,
    name: &str,
    rank: i64,
    points: i32,
) -> (r: String)
    ensures
        r@ == given_text(issuer_name@, target_mention@, description@, name@, rank, points),
{
    let mut out = String::new();
    out.append(issuer_name);
    out.append(" has given ");
    out.append(target_mention);
    out.append(" a bbp.\n\n");
    out.append(description);
    out.append("\n\n");
    append_standing(&mut out, name, rank, points);
    assert(out@ =~= given_text(issuer_name@, target_mention@, description@, name@, rank, points));
    out
}

/// The reply to one who tried to give themselves a merit, in words.
pub fn self_merit_reply(name: &str, rank: i64, points: i32) -> (r: String)
    ensures
        r@ == self_merit_text(name@, rank, points),
{
    let mut out = String::new();
    out.append("😡 trying to give yourself a gbp? That's a bbp for you. ");
    append_standing(&mut out, name, rank, points);
    assert(out@ =~= self_merit_text(name@, rank, points));
    out
}

/// The reply to one who tried to give themselves a merit in a text message,
/// in words.
pub fn spoken_self_merit_reply(name: &str, rank: i64, points: i32) -> (r: String)
    ensures
        r@ == spoken_self_merit_text(name@, rank, points),
{
    let mut out = String::new();
    out.append("😡 trying to give yourself a gbp? Thats a bbp for you. ");
    append_standing(&mut out, name, rank, points);
    assert(out@ =~= spoken_self_merit_text(name@, rank, points));
    out
}

/// The confirmation of a forgiveness, in words.
pub fn forgiven_reply(name: &str, rank: i64, description: &str, points: i32) -> (r: String)
    ensures
        r@ == forgiven_text(name@, rank, description@, points),
{
    let mut out = String::new();
    out.append(name);
    out.append("(#");
    append_decimal(&mut out, rank);
    out.append(") was forgiven for '");
    out.append(description);
    out.append("' and now only has ");
    append_decimal(&mut out, points as i64);
    out.append(" bbps.");
    assert(out@ =~= forgiven_text(name@, rank, description@, points));
    out
}

/// The confirmation of a registration, in words.
pub fn added_user_reply(friendly_name: &str, discord_username: &str, user_id: i32) -> (r: String)
    ensures
        r@ == added_user_text(friendly_name@, discord_username@, user_id),
{
    let mut out = String::new();
    out.append("Added user '");
    out.append(friendly_name);
    out.append("'(");
    out.append(discord_username);
    out.append("/");
    append_decimal(&mut out, user_id as i64);
    out.append(")");
    assert(out@ =~= added_user_text(friendly_name@, discord_username@, user_id));
    out
}

/// The leaderboard in words, a line for each row; nothing where a row has no
/// name.
pub fn leaderboard_reply(rows: &Vec<LeaderboardUser>) -> (r: Option<String>)
    ensures
        r.deep_view() == if board_named(rows.deep_view()) {
            Some(board_text(rows.deep_view()))
        } else {
            None
        },
{
    let ghost lines = rows.deep_view();
    let mut out = String::new();
    let mut k: usize = 0;
    assert(lines.take(0) =~= Seq::empty());
    while k < rows.len()
        invariant
            lines == rows.deep_view(),
            k <= rows.len(),
            out@ == board_text(lines.take(k as int)),
            forall|j: int| 0 <= j < k ==> (#[trigger] lines[j]).friendly_name is Some,
        decreases rows.len() - k,
    {
        let row = &rows[k];
        assert(lines[k as int] == row@);
        let ghost before = out@;
        match &row.friendly_name {
            Some(name) => {
                append_decimal(&mut out, row.rank);
                out.append(". ");
                out.append(name.as_str());
                out.append(" (");
                append_decimal(&mut out, row.points as i64);
                out.append(" points, ");
                append_decimal(&mut out, row.bbps_issued as i64);
                out.append(" bbps given, ");
                append_decimal(&mut out, row.gbps_issued as i64);
                out.append(" gbps given)\n");
            },
            None => {
                return None;
            },
        }
        proof {
            assert(out@ =~= before + board_line(row@));
            assert(lines.take(k + 1).drop_last() =~= lines.take(k as int));
        }
        k += 1;
    }
    assert(lines.take(k as int) =~= lines);
    Some(out)
}

/// A user's history in words: the heading, then a line for each record with
/// its date.
pub fn history_reply(name: &str, records: &Vec<HistoryRecord>, dates: &Vec<String>) -> (r: String)
    requires
        dates.len() == records.len(),
    ensures
        r@ == history_text(name@, records.deep_view(), dates.deep_view()),
{
    let ghost lines = records.deep_view();
    let ghost days = dates.deep_view();
    let mut out = String::new();
    out.append("History for ");
    out.append(name);
    out.append("\n\n");
    let ghost heading = out@;
    assert(heading =~= "History for "@ + name@ + "\n\n"@);
    let mut k: usize = 0;
    assert(lines.take(0) =~= Seq::empty());
    while k < records.len()
        invariant
            lines == records.deep_view(),
            days == dates.deep_view(),
            dates.len() == records.len(),
            k <= records.len(),
            out@ == heading + history_lines(lines.take(k as int), days.take(k as int)),
        decreases records.len() - k,
    {
        let record = &records[k];
        let ghost before = out@;
        out.append(record.issuer_friendly_name.as_str());
        out.append(" -> ");
        out.append(record.description.as_str());
        out.append(" (");
        out.append(dates[k].as_str());
        out.append(")\n");
        proof {
            assert(lines[k as int] == record@);
            assert(days[k as int] == dates[k as int]@);
            assert(out@ =~= before + history_line(record@, dates[k as int]@));
            assert(lines.take(k + 1).drop_last() =~= lines.take(k as int));
            assert(days.take(k + 1).drop_last() =~= days.take(k as int));
        }
        k += 1;
    }
    assert(lines.take(k as int) =~= lines);
    assert(days.take(k as int) =~= days);
    out
}

} // verus!
