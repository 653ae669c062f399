//! Commands carried out on a ledger in memory.
//!
//! [`serve_at`] answers one request of a flow from the ledger, and
//! [`settle_at`] carries a flow through to its reply.

use vstd::prelude::*;
use crate::book::{id_of, Book};
use crate::clock::now;
use crate::commands::{
    next, Flow, FlowView, Request, RequestView, Response, ResponseView, Stage, Step, StepView,
};
use crate::ledger::Ledger;
use crate::types::{text_of, LedgerError};

verus! {

/// What a ledger that holds `book` answers to `request` at the moment
/// `timestamp`, and the book that it holds then.
pub open spec fn served(book: Book, request: RequestView, timestamp: i64) -> (Book, ResponseView) {
    match request {
        RequestView::GetUser { discord_id } => (
            book,
            ResponseView::User(Ok(book.resolve(discord_id))),
        ),
        RequestView::GetRankedUser { discord_id } => (
            book,
            ResponseView::User(Ok(book.resolve_ranked(discord_id))),
        ),
        RequestView::GetUserByMention { mention } => (
            book,
            ResponseView::User(Ok(book.resolve_mention(mention))),
        ),
        RequestView::GetRankedUserByMention { mention } => (
            book,
            ResponseView::User(Ok(book.resolve_mention_ranked(mention))),
        ),
        RequestView::AddUser {
            discord_id,
            discord_username,
            friendly_name,
        } => match book.registration_refusal(discord_id) {
            Some(e) => (book, ResponseView::User(Err(e))),
            None => {
                let after = book.register(discord_id, discord_username, friendly_name);
                (after, ResponseView::User(Ok(Some(after.profile(book.members.len() as int)))))
            },
        },
        RequestView::AddBbp { target, issuer, description } => match book.entry_refusal(
            target.user_id,
            issuer.user_id,
            book.demerits.len(),
        ) {
            Some(e) => (book, ResponseView::Written(Err(e))),
            None => (
                book.record_demerit(target.user_id, issuer.user_id, description, timestamp),
                ResponseView::Written(Ok(())),
            ),
        },
        RequestView::AddGbp { target, issuer, description } => match book.entry_refusal(
            target.user_id,
            issuer.user_id,
            book.merits.len(),
        ) {
            Some(e) => (book, ResponseView::Written(Err(e))),
            None => (
                book.record_merit(target.user_id, issuer.user_id, description, timestamp),
                ResponseView::Written(Ok(())),
            ),
        },
        RequestView::Forgive { target, issuer } => (
            book.forgive(target.user_id, issuer.user_id),
            ResponseView::Forgiven(Ok(book.forgiven_reason(target.user_id, issuer.user_id))),
        ),
        RequestView::Leaderboard { limit } => (
            book,
            ResponseView::Leaderboard(Ok(book.leaderboard(limit as nat))),
        ),
        RequestView::History { discord_id, limit } => (
            book,
            ResponseView::History(
                if book.knows(discord_id) {
                    Ok(book.history(id_of(book.slot(discord_id)), limit as nat))
                } else {
                    Err(LedgerError::NotFound)
                },
            ),
        ),
    }
}

/// Answers one request from the ledger, at the moment `timestamp`.
pub fn serve_at(ledger: &mut Ledger, request: &Request, timestamp: i64) -> (r: Response)
    ensures
        final(ledger)@.valid(),
        (final(ledger)@, r@) == served(old(ledger)@, request@, timestamp),
{
    proof {
        use_type_invariant(&*ledger);
    }
    match request {
        Request::GetUser { discord_id } => Response::User(
            Ok(ledger.get_user_by_discord_id(*discord_id)),
        ),
        Request::GetRankedUser { discord_id } => Response::User(
            Ok(ledger.get_user_by_discord_id_with_rank(*discord_id)),
        ),
        Request::GetUserByMention { mention } => Response::User(
            Ok(ledger.get_user_by_discord_mention(mention.as_str())),
        ),
        Request::GetRankedUserByMention { mention } => Response::User(
            Ok(ledger.get_user_by_discord_mention_with_rank(mention.as_str())),
        ),
        Request::AddUser { discord_id, discord_username, friendly_name } => {
            match ledger.add_user(*discord_id, discord_username.as_str(), friendly_name.as_str()) {
                Ok(user) => Response::User(Ok(Some(user))),
                Err(e) => Response::User(Err(e)),
            }
        },
        Request::AddBbp { target, issuer, description } => Response::Written(
            ledger.add_bbp_to_user_at(target, issuer, description.as_str(), timestamp),
        ),
        Request::AddGbp { target, issuer, description } => Response::Written(
            ledger.add_gbp_to_user_at(target, issuer, description.as_str(), timestamp),
        ),
        Request::Forgive { target, issuer } => Response::Forgiven(
            Ok(ledger.forgive_user(target, issuer)),
        ),
        Request::Leaderboard { limit } => Response::Leaderboard(Ok(ledger.get_leaderboard(*limit))),
        Request::History { discord_id, limit } => Response::History(
            ledger.get_user_history(*discord_id, *limit),
        ),
    }
}

/// How many requests a flow may still make, by what it waits for.
pub open spec fn rounds_left(stage: Stage) -> nat {
    match stage {
        Stage::Issuer => 4,
        Stage::Target => 3,
        Stage::Existing => 3,
        Stage::Write => 2,
        Stage::Rank => 1,
        Stage::Listing => 1,
        Stage::Closed => 0,
    }
}

/// How a flow ends on a ledger that holds `book`, every request of it served
/// at the moment `timestamp`: the book that the ledger holds then, and the
/// reply, if it has one, or the failure.
pub open spec fn settled(book: Book, flow: FlowView, step: StepView, timestamp: i64) -> (
    Book,
    Result<Option<Seq<char>>, LedgerError>,
)
    decreases rounds_left(flow.stage),
{
    match step {
        StepView::Say(text) => (book, Ok(Some(text))),
        StepView::End => (book, Ok(None)),
        StepView::Abort(e) => (book, Err(e)),
        StepView::Ask(request) => {
            let (after, response) = served(book, request, timestamp);
            let (flow_after, step_after) = next(flow, response);
            if rounds_left(flow_after.stage) < rounds_left(flow.stage) {
                settled(after, flow_after, step_after, timestamp)
            } else {
                (after, Err(LedgerError::InvariantViolation))
            }
        },
    }
}

/// How many requests a flow may still make, by what it waits for.
fn rounds_at(stage: Stage) -> (r: u8)
    ensures
        r == rounds_left(stage),
{
    match stage {
        Stage::Issuer => 4,
        Stage::Target => 3,
        Stage::Existing => 3,
        Stage::Write => 2,
        Stage::Rank => 1,
        Stage::Listing => 1,
        Stage::Closed => 0,
    }
}

/// Carries a flow through on the ledger, every request of it served at the
/// moment `timestamp`: answers the flow's reply, if it has one, or the
/// failure that it passes on.
pub fn settle_at(
    ledger: &mut Ledger,
    flow: Flow,
    step: Step,
    timestamp: i64,
) -> (r: Result<Option<String>, LedgerError>)
    ensures
        final(ledger)@.valid(),
        final(ledger)@ == settled(old(ledger)@, flow@, step@, timestamp).0,
        match r {
            Ok(text) => settled(old(ledger)@, flow@, step@, timestamp).1 == Ok::<
                Option<Seq<char>>,
                LedgerError,
            >(text_of(text)),
            Err(e) => settled(old(ledger)@, flow@, step@, timestamp).1 == Err::<
                Option<Seq<char>>,
                LedgerError,
            >(e),
        },
    decreases rounds_left(flow@.stage),
{
    proof {
        use_type_invariant(&*ledger);
    }
    match step {
        Step::Say(text) => Ok(Some(text)),
        Step::End => Ok(None),
        Step::Abort(e) => Err(e),
        Step::Ask(request) => {
            let response = serve_at(ledger, &request, timestamp);
            let before = rounds_at(flow.stage());
            let (flow_after, step_after) = flow.resume(response);
            if rounds_at(flow_after.stage()) >= before {
                return Err(LedgerError::InvariantViolation);
            }
            settle_at(ledger, flow_after, step_after, timestamp)
        },
    }
}

/// Carries a flow through on the ledger now.
///
/// As [`settle_at`], at the moment that the clock reads.
pub fn settle(
    ledger: &mut Ledger,
    flow: Flow,
    step: Step,
) -> (r: Result<Option<String>, LedgerError>)
    ensures
        final(ledger)@.valid(),
        exists|timestamp: i64|
            {
                &&& final(ledger)@ == settled(old(ledger)@, flow@, step@, timestamp).0
                &&& match r {
                    Ok(text) => #[trigger] settled(old(ledger)@, flow@, step@, timestamp).1 == Ok::<
                        Option<Seq<char>>,
                        LedgerError,
                    >(text_of(text)),
                    Err(e) => settled(old(ledger)@, flow@, step@, timestamp).1 == Err::<
                        Option<Seq<char>>,
                        LedgerError,
                    >(e),
                }
            },
{
    let timestamp = now();
    settle_at(ledger, flow, step, timestamp)
}

} // verus!
