//! Telling a mention of a user from other words.
//!
//! A text command names its target by a mention, `<@` digits `>`.  What a
//! digit is, the pattern matcher decides; what to answer to a word that is no
//! mention is decided here.

use vstd::prelude::*;
use vstd::string::*;
use crate::types::text_of;

verus! {

/// Whether `pattern`, a regular expression, matches somewhere in `text`;
/// nothing where the pattern is not a regular expression.
pub uninterp spec fn pattern_found(pattern: Seq<char>, text: Seq<char>) -> Option<bool>;

/// Looks for a match of `pattern` in `text`.
///
/// Calls `regex::Regex::new`, which refuses a pattern that is not a regular
/// expression or that compiles to more than its size limit, and then
/// `regex::Regex::is_match`, which answers whether the expression matches
/// anywhere in the text.  The answer depends on the two texts alone; the
/// contract gives it its name and claims no more.
#[verifier::external_body]
fn find_pattern(pattern: &str, text: &str) -> (r: Option<bool>)
    ensures
        r == pattern_found(pattern@, text@),
{
    match regex::Regex::new(pattern) {
        Ok(expression) => Some(expression.is_match(text)),
        Err(_) => None,
    }
}

/// The pattern of a mention: `<@`, one or more digits, `>`, and nothing
/// before or after.
pub open spec fn mention_pattern() -> Seq<char> {
    "^<@\\d+>$"@
}

/// Why a word was not taken for a mention.
#[derive(Debug, Clone, Copy, PartialEq, Eq, Structural)]
pub enum MentionError {
    /// No word was given.
    Missing,
    /// The word starts with `@` but is no mention: it was typed, not picked.
    Mistyped,
    /// The word is nothing like a mention.
    Unrecognized,
}

/// What a word is taken for, given what the pattern matcher found in it: a
/// mention where the pattern matched; otherwise a mistyped mention where the
/// word starts with `@`, and unrecognized where it does not.
pub open spec fn mention_verdict(target: Seq<char>, found: Option<bool>) -> Result<
    (),
    MentionError,
> {
    if found == Some(true) {
        Ok(())
    } else if target.len() > 0 && target[0] == '@' {
        Err(MentionError::Mistyped)
    } else {
        Err(MentionError::Unrecognized)
    }
}

/// What to tell the author of a word that was not taken for a mention.
pub open spec fn mention_error_text(error: MentionError, target: Seq<char>) -> Seq<char> {
    match error {
        MentionError::Missing => "ArgError(\"end of string\")"@,
        MentionError::Mistyped => "It looks like you didn't mention "@ + target
            + " correctly, FIX IT, PRESS TAB."@,
        MentionError::Unrecognized => "Idk what that means... thats a bbp for you."@,
    }
}

impl MentionError {
    /// What to tell the author of the word `target`.
    pub fn message(&self, target: &str) -> (r: String)
        ensures
            r@ == mention_error_text(*self, target@),
    {
        match self {
            MentionError::Missing => "ArgError(\"end of string\")".to_owned(),
            MentionError::Mistyped => {
                let mut out = String::new();
                out.append("It looks like you didn't mention ");
                out.append(target);
                out.append(" correctly, FIX IT, PRESS TAB.");
                assert(out@ =~= mention_error_text(*self, target@));
                out
            },
            MentionError::Unrecognized => "Idk what that means... thats a bbp for you.".to_owned(),
        }
    }
}

/// Decides what a word is taken for, given what the pattern matcher found in
/// it.
pub fn check_mention(target: &str, found: Option<bool>) -> (r: Result<(), MentionError>)
    ensures
        r == mention_verdict(target@, found),
{
    match found {
        Some(true) => Ok(()),
        _ => {
            if target.unicode_len() > 0 && target.get_char(0) == '@' {
                Err(MentionError::Mistyped)
            } else {
                Err(MentionError::Unrecognized)
            }
        },
    }
}

/// What the word given for a target is taken for: nothing can be taken for
/// a mention where no word is given.
pub open spec fn target_verdict(target: Option<Seq<char>>) -> Result<(), MentionError> {
    match target {
        Some(word) => mention_verdict(word, pattern_found(mention_pattern(), word)),
        None => Err(MentionError::Missing),
    }
}

/// Reads the target of a command that takes a mention and nothing else.
///
/// Answers the author's own mention and the target's, or why the word given
/// for the target is no mention.
pub fn parse_command_mention_only(
    issuer: String,
    target: Option<String>,
) -> (r: Result<(String, String), MentionError>)
    ensures
        match target_verdict(text_of(target)) {
            Ok(_) => r == Ok::<(String, String), MentionError>((issuer, target->Some_0)),
            Err(e) => r == Err::<(String, String), MentionError>(e),
        },
{
    let word = match target {
        Some(word) => word,
        None => {
            return Err(MentionError::Missing);
        },
    };
    let found = find_pattern("^<@\\d+>$", word.as_str());
    match check_mention(word.as_str(), found) {
        Ok(_) => Ok((issuer, word)),
        Err(e) => Err(e),
    }
}

/// Reads the target and the reason of a command that takes a mention and a
/// description.
///
/// Answers the author's own mention, the target's and the description, or
/// why the word given for the target is no mention.
pub fn parse_command_mention_and_description(
    issuer: String,
    target: Option<String>,
    rest: String,
) -> (r: Result<(String, String, String), MentionError>)
    ensures
        match target_verdict(text_of(target)) {
            Ok(_) => r == Ok::<(String, String, String), MentionError>(
                (issuer, target->Some_0, rest),
            ),
            Err(e) => r == Err::<(String, String, String), MentionError>(e),
        },
{
    match parse_command_mention_only(issuer, target) {
        Ok((issuer, target)) => Ok((issuer, target, rest)),
        Err(e) => Err(e),
    }
}

} // verus!
