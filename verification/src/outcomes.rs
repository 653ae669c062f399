//! What each command comes to on a ledger in memory.
//!
//! A flow is a conversation of several steps.  Here each command is given
//! the book and the reply that it ends with, stated at once, and the flow is
//! proved to end so.

use vstd::prelude::*;
use crate::book::{capacity, id_of, mention_text, Book};
use crate::commands::{
    dated, dates_of, first, issuer_missing_text, issuer_of, kind_of, self_merit_reason, spoken,
    target_missing_text, target_of, CommandView,
};
use crate::laws::{lemma_demerit_costs_one_point, lemma_forgiveness_takes_latest};
use crate::session::settled;
use crate::text::{
    added_user_text, board_text, forgiven_text, given_text, history_text, self_merit_text,
    spoken_self_merit_text, standing_text,
};
use crate::types::LedgerError;

verus! {

/// How a command ends on a ledger that holds `book`, at the moment
/// `timestamp`.
pub open spec fn outcome(book: Book, command: CommandView, timestamp: i64) -> (
    Book,
    Result<Option<Seq<char>>, LedgerError>,
) {
    let (flow, step) = first(command);
    settled(book, flow, step, timestamp)
}

/// A flow that ended with the reply `text`.
pub open spec fn said(text: Seq<char>) -> Result<Option<Seq<char>>, LedgerError> {
    Ok(Some(text))
}

/// Where the member at index `i` stands in `book`, as the replies show it:
/// their name, rank and points.
pub open spec fn standing(book: Book, i: int) -> (Seq<char>, i64, i32) {
    (
        book.members[i].friendly_name,
        book.rank(id_of(i)) as i64,
        book.points(id_of(i)) as i32,
    )
}

/// A member of a book is the same member of a later book with the same
/// members.
proof fn lemma_still_known(before: Book, after: Book, discord_id: i64)
    requires
        before.valid(),
        after.valid(),
        after.members == before.members,
        before.knows(discord_id),
    ensures
        after.knows(discord_id),
        after.slot(discord_id) == before.slot(discord_id),
{
    let i = before.slot(discord_id);
    assert(before.is_slot(discord_id, i));
    assert(after.is_slot(discord_id, i));
    after.lemma_slot_is(discord_id, i);
}

/// A command whose issuer is no member changes nothing and says so.
pub proof fn lemma_unknown_issuer(book: Book, command: CommandView, timestamp: i64)
    requires
        kind_of(command) is Some,
        !spoken(command),
        !book.knows(issuer_of(command)),
    ensures
        outcome(book, command, timestamp) == (
            book,
            said(issuer_missing_text(kind_of(command)->Some_0)),
        ),
{
    reveal_with_fuel(settled, 3);
}

/// A command whose issuer is a member and whose target is none changes
/// nothing and says so.
pub proof fn lemma_unknown_target(book: Book, command: CommandView, timestamp: i64)
    requires
        kind_of(command) is Some,
        !spoken(command),
        book.knows(issuer_of(command)),
        !book.knows(target_of(command)),
    ensures
        outcome(book, command, timestamp) == (
            book,
            said(target_missing_text(kind_of(command)->Some_0)),
        ),
{
    reveal_with_fuel(settled, 4);
}

/// A demerit between two members is recorded once, and the reply confirms it
/// with the target's new standing.  Where the demerits' table is full nothing
/// is recorded and the failure is passed on.
pub proof fn lemma_demerit_outcome(
    book: Book,
    issuer: i64,
    target: i64,
    description: Seq<char>,
    timestamp: i64,
)
    requires
        book.valid(),
        book.knows(issuer),
        book.knows(target),
    ensures
        ({
            let command = CommandView::Bbp { issuer, target, description };
            let i = book.slot(issuer);
            let t = book.slot(target);
            let after = book.record_demerit(id_of(t), id_of(i), description, timestamp);
            let (name, rank, points) = standing(after, t);
            outcome(book, command, timestamp) == if book.demerits.len() >= capacity() {
                (book, Err::<Option<Seq<char>>, LedgerError>(LedgerError::StoreUnavailable))
            } else {
                (
                    after,
                    said(
                        given_text(
                            book.members[i].friendly_name,
                            mention_text(target),
                            description,
                            name,
                            rank,
                            points,
                        ),
                    ),
                )
            }
        }),
{
    let i = book.slot(issuer);
    let t = book.slot(target);
    assert(book.is_slot(issuer, i));
    assert(book.is_slot(target, t));
    let after = book.record_demerit(id_of(t), id_of(i), description, timestamp);
    if book.demerits.len() < capacity() {
        book.lemma_record_demerit_valid(id_of(t), id_of(i), description, timestamp);
        lemma_still_known(book, after, target);
    }
    reveal_with_fuel(settled, 5);
}

/// A merit between two different members is recorded once, and the reply
/// confirms it with the target's new standing.  Where the merits' table is
/// full nothing is recorded and the reply says that the merit failed.
pub proof fn lemma_merit_outcome(
    book: Book,
    issuer: i64,
    target: i64,
    description: Seq<char>,
    timestamp: i64,
)
    requires
        book.valid(),
        book.knows(issuer),
        book.knows(target),
        issuer != target,
    ensures
        ({
            let command = CommandView::Gbp { issuer, target, description };
            let i = book.slot(issuer);
            let t = book.slot(target);
            let after = book.record_merit(id_of(t), id_of(i), description, timestamp);
            let (name, rank, points) = standing(after, t);
            outcome(book, command, timestamp) == if book.merits.len() >= capacity() {
                (book, said("Error adding GBP"@))
            } else {
                (
                    after,
                    said(
                        given_text(
                            book.members[i].friendly_name,
                            mention_text(target),
                            description,
                            name,
                            rank,
                            points,
                        ),
                    ),
                )
            }
        }),
{
    let i = book.slot(issuer);
    let t = book.slot(target);
    assert(book.is_slot(issuer, i));
    assert(book.is_slot(target, t));
    let after = book.record_merit(id_of(t), id_of(i), description, timestamp);
    if book.merits.len() < capacity() {
        book.lemma_record_merit_valid(id_of(t), id_of(i), description, timestamp);
        lemma_still_known(book, after, target);
    }
    reveal_with_fuel(settled, 5);
}

/// A merit that a member gives themselves is not recorded.  A demerit against
/// them is, given by themselves for the fixed reason, whatever reason they
/// gave: it costs them one point, no merit is added, and the reply says what
/// happened.  Where the demerits' table is full nothing is recorded and the
/// reply says that the merit failed.
pub proof fn lemma_self_merit_becomes_demerit(
    book: Book,
    user: i64,
    description: Seq<char>,
    timestamp: i64,
)
    requires
        book.valid(),
        book.knows(user),
    ensures
        ({
            let command = CommandView::Gbp { issuer: user, target: user, description };
            let u = book.slot(user);
            let after = book.record_demerit(id_of(u), id_of(u), self_merit_reason(), timestamp);
            let (name, rank, points) = standing(after, u);
            &&& outcome(book, command, timestamp) == if book.demerits.len() >= capacity() {
                (book, said("Error adding GBP"@))
            } else {
                (after, said(self_merit_text(name, rank, points)))
            }
            &&& after.points(id_of(u)) == book.points(id_of(u)) - 1
            &&& after.merits == book.merits
            &&& after.demerits.last().description == self_merit_reason()
            &&& after.demerits.last().target == id_of(u)
            &&& !after.demerits.last().forgiven
        }),
{
    let u = book.slot(user);
    assert(book.is_slot(user, u));
    let after = book.record_demerit(id_of(u), id_of(u), self_merit_reason(), timestamp);
    lemma_demerit_costs_one_point(
        book,
        id_of(u),
        id_of(u),
        self_merit_reason(),
        timestamp,
        id_of(u),
    );
    if book.demerits.len() < capacity() {
        book.lemma_record_demerit_valid(id_of(u), id_of(u), self_merit_reason(), timestamp);
        lemma_still_known(book, after, user);
    }
    reveal_with_fuel(settled, 5);
}

/// A forgiveness between two members takes the latest demerit that the
/// issuer can forgive the target, and the reply confirms it with the reason
/// and the target's new standing.  Where there is none nothing changes and
/// the reply says so.
pub proof fn lemma_forgiveness_outcome(book: Book, issuer: i64, target: i64, timestamp: i64)
    requires
        book.valid(),
        book.knows(issuer),
        book.knows(target),
    ensures
        ({
            let command = CommandView::Forgive { issuer, target };
            let i = book.slot(issuer);
            let t = book.slot(target);
            let after = book.forgive(id_of(t), id_of(i));
            let (name, rank, points) = standing(after, t);
            outcome(book, command, timestamp) == if book.can_forgive(id_of(t), id_of(i)) {
                (
                    after,
                    said(
                        forgiven_text(
                            name,
                            rank,
                            book.forgiven_reason(id_of(t), id_of(i))->Some_0,
                            points,
                        ),
                    ),
                )
            } else {
                (book, said("There is nothing to forgive"@))
            }
        }),
{
    let i = book.slot(issuer);
    let t = book.slot(target);
    assert(book.is_slot(issuer, i));
    assert(book.is_slot(target, t));
    let after = book.forgive(id_of(t), id_of(i));
    if book.can_forgive(id_of(t), id_of(i)) {
        lemma_forgiveness_takes_latest(book, id_of(t), id_of(i));
        book.lemma_with_forgiven_valid(book.latest_forgivable(id_of(t), id_of(i)));
        lemma_still_known(book, after, target);
    }
    reveal_with_fuel(settled, 5);
}

/// A registration under an id that no member carries adds the member and
/// confirms it; under an id that is taken it changes nothing and says so.
/// Where the members' table is full nothing is added and the reply says that
/// the registration failed.
pub proof fn lemma_registration_outcome(
    book: Book,
    discord_id: i64,
    discord_username: Seq<char>,
    friendly_name: Seq<char>,
    timestamp: i64,
)
    requires
        book.valid(),
    ensures
        ({
            let command = CommandView::AddUser { discord_id, discord_username, friendly_name };
            outcome(book, command, timestamp) == if book.knows(discord_id) {
                (book, said("User already exists"@))
            } else if book.members.len() >= capacity() {
                (book, said("Error adding user"@))
            } else {
                (
                    book.register(discord_id, discord_username, friendly_name),
                    said(
                        added_user_text(
                            friendly_name,
                            discord_username,
                            id_of(book.members.len() as int),
                        ),
                    ),
                )
            }
        }),
{
    reveal_with_fuel(settled, 4);
}

/// The leaderboard command changes nothing and replies with the lines of the
/// leaderboard.
pub proof fn lemma_leaderboard_outcome(book: Book, limit: usize, timestamp: i64)
    ensures
        outcome(book, CommandView::Leaderboard { limit }, timestamp) == (
            book,
            said(board_text(book.leaderboard(limit as nat))),
        ),
{
    reveal_with_fuel(settled, 3);
    let rows = book.leaderboard(limit as nat);
    assert forall|k: int| 0 <= k < rows.len() implies (#[trigger] rows[k]).friendly_name
        is Some by {}
}

/// The history command changes nothing.  For a member with demerits it
/// replies with their history, so long as every date can be written; for a
/// member without, that there is no history; for an id that no member
/// carries, that the user was not found.
pub proof fn lemma_history_outcome(book: Book, discord_id: i64, limit: usize, timestamp: i64)
    requires
        book.valid(),
    ensures
        ({
            let command = CommandView::History { discord_id, limit };
            let u = book.slot(discord_id);
            let records = book.history(id_of(u), limit as nat);
            outcome(book, command, timestamp) == (
                book,
                if !book.knows(discord_id) {
                    said("Target user not found"@)
                } else if records.len() == 0 {
                    said("No history found"@)
                } else if dated(records) {
                    said(history_text(book.members[u].friendly_name, records, dates_of(records)))
                } else {
                    Err(LedgerError::InvariantViolation)
                },
            )
        }),
{
    reveal_with_fuel(settled, 4);
}

/// A member that a mention finds in a book is found by it in a later book
/// with the same members.
proof fn lemma_still_mentioned(before: Book, after: Book, mention: Seq<char>)
    requires
        after.members == before.members,
        before.knows_mention(mention),
    ensures
        after.knows_mention(mention),
        after.mention_slot(mention) == before.mention_slot(mention),
{
    let i = before.mention_slot(mention);
    assert(before.is_mention_slot(mention, i));
    assert(after.is_mention_slot(mention, i));
    after.lemma_mention_slot_is(mention, i);
}

/// A demerit asked for in a text message is recorded once where both
/// mentions find a member, and the reply is the target's new standing.
/// Otherwise, and where the demerits' table is full, nothing is recorded and
/// nothing is said.
pub proof fn lemma_spoken_demerit_outcome(
    book: Book,
    issuer: Seq<char>,
    target: Seq<char>,
    description: Seq<char>,
    timestamp: i64,
)
    requires
        book.valid(),
    ensures
        ({
            let command = CommandView::TextBbp {
                issuer_mention: issuer,
                target_mention: target,
                description,
            };
            let i = book.mention_slot(issuer);
            let t = book.mention_slot(target);
            let after = book.record_demerit(id_of(t), id_of(i), description, timestamp);
            let (name, rank, points) = standing(after, t);
            outcome(book, command, timestamp) == if !book.knows_mention(issuer)
                || !book.knows_mention(target) || book.demerits.len() >= capacity() {
                (book, Ok::<Option<Seq<char>>, LedgerError>(None))
            } else {
                (after, said(standing_text(name, rank, points)))
            }
        }),
{
    let i = book.mention_slot(issuer);
    let t = book.mention_slot(target);
    let after = book.record_demerit(id_of(t), id_of(i), description, timestamp);
    if book.knows_mention(issuer) && book.knows_mention(target) {
        assert(book.is_mention_slot(issuer, i));
        assert(book.is_mention_slot(target, t));
        if book.demerits.len() < capacity() {
            book.lemma_record_demerit_valid(id_of(t), id_of(i), description, timestamp);
            lemma_still_mentioned(book, after, target);
        }
    }
    reveal_with_fuel(settled, 5);
}

/// A merit asked for in a text message by one who mentions themselves is not
/// recorded.  A demerit against them is, given by themselves for the fixed
/// reason: it costs them one point, and the reply says what happened.  Where
/// the mention finds no member, and where the demerits' table is full,
/// nothing is recorded and nothing is said.
pub proof fn lemma_spoken_self_merit_becomes_demerit(
    book: Book,
    user: Seq<char>,
    description: Seq<char>,
    timestamp: i64,
)
    requires
        book.valid(),
    ensures
        ({
            let command = CommandView::TextGbp {
                issuer_mention: user,
                target_mention: user,
                description,
            };
            let u = book.mention_slot(user);
            let after = book.record_demerit(id_of(u), id_of(u), self_merit_reason(), timestamp);
            let (name, rank, points) = standing(after, u);
            &&& outcome(book, command, timestamp) == if !book.knows_mention(user)
                || book.demerits.len() >= capacity() {
                (book, Ok::<Option<Seq<char>>, LedgerError>(None))
            } else {
                (after, said(spoken_self_merit_text(name, rank, points)))
            }
            &&& after.points(id_of(u)) == book.points(id_of(u)) - 1
            &&& after.merits == book.merits
        }),
{
    let u = book.mention_slot(user);
    let after = book.record_demerit(id_of(u), id_of(u), self_merit_reason(), timestamp);
    lemma_demerit_costs_one_point(
        book,
        id_of(u),
        id_of(u),
        self_merit_reason(),
        timestamp,
        id_of(u),
    );
    if book.knows_mention(user) {
        assert(book.is_mention_slot(user, u));
        if book.demerits.len() < capacity() {
            book.lemma_record_demerit_valid(id_of(u), id_of(u), self_merit_reason(), timestamp);
            lemma_still_mentioned(book, after, user);
        }
    }
    reveal_with_fuel(settled, 5);
}

/// A merit asked for in a text message is recorded once where the two
/// mentions differ and both find a member, and the reply is the target's new
/// standing.  Where a mention finds no member, and where the merits' table is
/// full, nothing is recorded and nothing is said.
pub proof fn lemma_spoken_merit_outcome(
    book: Book,
    issuer: Seq<char>,
    target: Seq<char>,
    description: Seq<char>,
    timestamp: i64,
)
    requires
        book.valid(),
        issuer != target,
    ensures
        ({
            let command = CommandView::TextGbp {
                issuer_mention: issuer,
                target_mention: target,
                description,
            };
            let i = book.mention_slot(issuer);
            let t = book.mention_slot(target);
            let after = book.record_merit(id_of(t), id_of(i), description, timestamp);
            let (name, rank, points) = standing(after, t);
            outcome(book, command, timestamp) == if !book.knows_mention(issuer)
                || !book.knows_mention(target) || book.merits.len() >= capacity() {
                (book, Ok::<Option<Seq<char>>, LedgerError>(None))
            } else {
                (after, said(standing_text(name, rank, points)))
            }
        }),
{
    let i = book.mention_slot(issuer);
    let t = book.mention_slot(target);
    let after = book.record_merit(id_of(t), id_of(i), description, timestamp);
    if book.knows_mention(issuer) && book.knows_mention(target) {
        assert(book.is_mention_slot(issuer, i));
        assert(book.is_mention_slot(target, t));
        if book.merits.len() < capacity() {
            book.lemma_record_merit_valid(id_of(t), id_of(i), description, timestamp);
            lemma_still_mentioned(book, after, target);
        }
    }
    reveal_with_fuel(settled, 5);
}

/// A forgiveness asked for in a text message takes the latest demerit that
/// the issuer can forgive the target, and the reply confirms it.  Where there
/// is none the reply says so; where a mention finds no member nothing is
/// said.  In neither case does anything change.
pub proof fn lemma_spoken_forgiveness_outcome(
    book: Book,
    issuer: Seq<char>,
    target: Seq<char>,
    timestamp: i64,
)
    requires
        book.valid(),
    ensures
        ({
            let command = CommandView::TextForgive {
                issuer_mention: issuer,
                target_mention: target,
            };
            let i = book.mention_slot(issuer);
            let t = book.mention_slot(target);
            let after = book.forgive(id_of(t), id_of(i));
            let (name, rank, points) = standing(after, t);
            outcome(book, command, timestamp) == if !book.knows_mention(issuer)
                || !book.knows_mention(target) {
                (book, Ok::<Option<Seq<char>>, LedgerError>(None))
            } else if book.can_forgive(id_of(t), id_of(i)) {
                (
                    after,
                    said(
                        forgiven_text(
                            name,
                            rank,
                            book.forgiven_reason(id_of(t), id_of(i))->Some_0,
                            points,
                        ),
                    ),
                )
            } else {
                (book, said("There is nothing to forgive."@))
            }
        }),
{
    let i = book.mention_slot(issuer);
    let t = book.mention_slot(target);
    let after = book.forgive(id_of(t), id_of(i));
    if book.knows_mention(issuer) && book.knows_mention(target) {
        assert(book.is_mention_slot(issuer, i));
        assert(book.is_mention_slot(target, t));
        if book.can_forgive(id_of(t), id_of(i)) {
            lemma_forgiveness_takes_latest(book, id_of(t), id_of(i));
            book.lemma_with_forgiven_valid(book.latest_forgivable(id_of(t), id_of(i)));
            lemma_still_mentioned(book, after, target);
        }
    }
    reveal_with_fuel(settled, 5);
}

} // verus!
