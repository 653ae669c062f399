//! The commands that are asked for in text messages.
//!
//! A text command names its target by a mention.  A word that is no mention
//! starts no flow; what happens then depends on the command.

use vstd::prelude::*;
use vstd::string::*;
use crate::commands::{first, Command, CommandView, Flow, FlowView, Step, StepView};
use crate::mention::{
    mention_error_text, parse_command_mention_and_description, parse_command_mention_only,
    target_verdict,
};
use crate::types::text_of;

verus! {

/// How a forgiveness ends that was asked for with a word that is no mention:
/// with a reply to the author, and with an error that is passed on.
#[derive(Debug)]
pub struct Refusal {
    pub reply: String,
    pub error: String,
}

/// The mathematical value of a [`Refusal`].
pub struct RefusalView {
    pub reply: Seq<char>,
    pub error: Seq<char>,
}

impl View for Refusal {
    type V = RefusalView;

    open spec fn view(&self) -> RefusalView {
        RefusalView { reply: self.reply@, error: self.error@ }
    }
}

/// The mathematical value of a flow and its first step.
pub open spec fn started(r: (Flow, Step)) -> (FlowView, StepView) {
    (r.0@, r.1@)
}

/// The help: which text commands there are.
pub open spec fn commands_text() -> Seq<char> {
    "Available !bbp commands:\n"@ + "- !bbp add [@mention] [description]\n"@
        + "   - Adds the a bbp for the mentioned with the provided description.\n"@
        + "- !gbp add [@mention] [description]\n"@
        + "   - Adds the a gbp for the mentioned with the provided description.\n"@
        + "- !bbp add [@mention]\n"@
        + "   - Forgives the mentioned user for their last transgression against you.\n"@
}

/// The help, in words.
pub fn commands_command() -> (r: String)
    ensures
        r@ == commands_text(),
{
    let mut out = "Available !bbp commands:\n".to_owned();
    out.append("- !bbp add [@mention] [description]\n");
    out.append("   - Adds the a bbp for the mentioned with the provided description.\n");
    out.append("- !gbp add [@mention] [description]\n");
    out.append("   - Adds the a gbp for the mentioned with the provided description.\n");
    out.append("- !bbp add [@mention]\n");
    out.append("   - Forgives the mentioned user for their last transgression against you.\n");
    out
}

/// A demerit from the author to the user that the word `target` mentions.
///
/// Starts nothing where the word is no mention.
pub fn bbpadd_command(
    issuer: String,
    target: Option<String>,
    rest: String,
) -> (r: Option<(Flow, Step)>)
    ensures
        match target_verdict(text_of(target)) {
            Ok(_) => r is Some && started(r->Some_0) == first(
                CommandView::TextBbp {
                    issuer_mention: issuer@,
                    target_mention: target->Some_0@,
                    description: rest@,
                },
            ),
            Err(_) => r is None,
        },
{
    match parse_command_mention_and_description(issuer, target, rest) {
        Ok((issuer, target, description)) => Some(
            Flow::begin(
                Command::TextBbp { issuer_mention: issuer, target_mention: target, description },
            ),
        ),
        Err(_) => None,
    }
}

/// A demerit, under the command's other name.
///
/// As [`bbpadd_command`].
pub fn bbpadduser_command(
    issuer: String,
    target: Option<String>,
    rest: String,
) -> (r: Option<(Flow, Step)>)
    ensures
        match target_verdict(text_of(target)) {
            Ok(_) => r is Some && started(r->Some_0) == first(
                CommandView::TextBbp {
                    issuer_mention: issuer@,
                    target_mention: target->Some_0@,
                    description: rest@,
                },
            ),
            Err(_) => r is None,
        },
{
    bbpadd_command(issuer, target, rest)
}

/// A merit from the author to the user that the word `target` mentions.  An
/// author who mentions themselves gets a demerit instead.
///
/// Starts nothing where the word is no mention.
pub fn gbpadd_command(
    issuer: String,
    target: Option<String>,
    rest: String,
) -> (r: Option<(Flow, Step)>)
    ensures
        match target_verdict(text_of(target)) {
            Ok(_) => r is Some && started(r->Some_0) == first(
                CommandView::TextGbp {
                    issuer_mention: issuer@,
                    target_mention: target->Some_0@,
                    description: rest@,
                },
            ),
            Err(_) => r is None,
        },
{
    match parse_command_mention_and_description(issuer, target, rest) {
        Ok((issuer, target, description)) => Some(
            Flow::begin(
                Command::TextGbp { issuer_mention: issuer, target_mention: target, description },
            ),
        ),
        Err(_) => None,
    }
}

/// What the author of a forgiveness is told where the word given is no
/// mention.
pub open spec fn forgive_refusal_text() -> Seq<char> {
    "TODO WHAT IS WRONG HERE"@
}

/// The author forgives the user that the word `target` mentions.
///
/// Where the word is no mention the author is told so, and why is passed on
/// as an error.
pub fn forgive(issuer: String, target: Option<String>) -> (r: Result<(Flow, Step), Refusal>)
    ensures
        match target_verdict(text_of(target)) {
            Ok(_) => r is Ok && started(r->Ok_0) == first(
                CommandView::TextForgive {
                    issuer_mention: issuer@,
                    target_mention: target->Some_0@,
                },
            ),
            Err(e) => r is Err && r->Err_0@ == (RefusalView {
                reply: forgive_refusal_text(),
                error: mention_error_text(
                    e,
                    match target {
                        Some(word) => word@,
                        None => Seq::empty(),
                    },
                ),
            }),
        },
{
    let word = match &target {
        Some(word) => word.clone(),
        None => String::new(),
    };
    match parse_command_mention_only(issuer, target) {
        Ok((issuer, target)) => Ok(
            Flow::begin(Command::TextForgive { issuer_mention: issuer, target_mention: target }),
        ),
        Err(e) => Err(
            Refusal {
                reply: "TODO WHAT IS WRONG HERE".to_owned(),
                error: e.message(word.as_str()),
            },
        ),
    }
}

} // verus!
