//! Reading what a store of tables answers.
//!
//! A store that keeps the ledger in tables answers a question with rows.  The
//! questions of the ledger expect at most one: none means that there is no
//! such thing, and more than one that the tables are broken.

use vstd::prelude::*;
use crate::types::{LedgerError, User};

verus! {

/// The user that a lookup found: none where no row came back, the user of
/// the row where one did, and a failure where several did.
pub fn handle_query_result(rows: &Vec<User>) -> (r: Result<Option<User>, LedgerError>)
    ensures
        rows.len() == 0 ==> r == Ok::<Option<User>, LedgerError>(None),
        rows.len() == 1 ==> r == Ok::<Option<User>, LedgerError>(Some(rows[0])),
        rows.len() > 1 ==> r == Err::<Option<User>, LedgerError>(LedgerError::InvariantViolation),
{
    if rows.len() == 0 {
        Ok(None)
    } else if rows.len() == 1 {
        Ok(Some(rows[0].clone()))
    } else {
        Err(LedgerError::InvariantViolation)
    }
}

/// The reason of the demerit that a forgiveness took, given for each row
/// that it changed the reason read from it or why none could be read:
/// nothing where no row was changed, what was read where one was, and a
/// failure where several were.
pub fn handle_forgive_result(
    rows: &Vec<Result<Option<String>, LedgerError>>,
) -> (r: Result<Option<String>, LedgerError>)
    ensures
        rows.len() == 0 ==> r == Ok::<Option<String>, LedgerError>(None),
        rows.len() == 1 ==> r == rows[0],
        rows.len() > 1 ==> r == Err::<Option<String>, LedgerError>(
            LedgerError::InvariantViolation,
        ),
{
    if rows.len() == 0 {
        Ok(None)
    } else if rows.len() == 1 {
        match &rows[0] {
            Ok(reason) => Ok(reason.clone()),
            Err(e) => Err(*e),
        }
    } else {
        Err(LedgerError::InvariantViolation)
    }
}

} // verus!
