//! A point ledger and ranking engine.
//!
//! Users issue demerits ("bbp") and merits ("gbp") against one another.  The
//! ledger keeps every event, lets an issuer forgive the latest demerit they
//! gave a target, and derives standings, a leaderboard and per-user history
//! from the events alone.
//!
//! The ledger is specified as a mathematical value, the [`book::Book`]:
//! three tables and what is derived from them.  [`ledger::Ledger`] keeps a
//! book in memory and is proved to answer as the book says; [`laws`] holds
//! what follows for every book.
//!
//! The commands that users give are conversations with a store
//! ([`commands`], [`spoken`]): a flow asks, the store answers, and the flow
//! decides what to ask or say next.  [`session`] carries a flow through on a
//! ledger in memory, and [`outcomes`] proves what each command comes to
//! there.  A program that keeps the ledger elsewhere runs the same flows and
//! carries their requests out itself.
//!
//! Three functions are taken on trust, each a call into another crate: the
//! clock and the writing of dates in [`clock`], and the pattern matcher in
//! [`mention`].  Everything else is verified.

pub mod book;
pub mod clock;
pub mod commands;
pub mod decimal;
pub mod laws;
pub mod ledger;
pub mod mention;
pub mod outcomes;
pub mod ranking;
pub mod rows;
pub mod session;
pub mod spoken;
pub mod tally;
pub mod text;
pub mod types;
