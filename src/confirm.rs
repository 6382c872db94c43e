//! The decision taken on a reply to the continue/abort confirmation.

use vstd::prelude::*;
use vstd::string::StrSliceExecFns;

verus! {

/// What a reply to the confirmation asks for.
#[derive(Debug, Clone, Copy, PartialEq, Eq, Structural)]
pub enum Answer {
    /// Go on with the generation.
    Continue,
    /// Stop without touching the output file.
    Quit,
    /// Not a recognised reply: ask again.
    Invalid,
}

/// `s` without its leading and trailing whitespace.
pub uninterp spec fn trimmed_of(s: Seq<char>) -> Seq<char>;

/// The lowercase mapping of `s`.
pub uninterp spec fn lowercase_of(s: Seq<char>) -> Seq<char>;

/// Relies on `str::trim`: leading and trailing whitespace removed, which
/// depends on the characters of `s` alone.
#[verifier::external_body]
fn trim_whitespace(s: &str) -> (r: &str)
    ensures
        r@ == trimmed_of(s@),
{
    s.trim()
}

/// Relies on `str::to_lowercase`: the lowercase mapping, which depends on
/// the characters of `s` alone.
#[verifier::external_body]
fn lowercase(s: &str) -> (r: String)
    ensures
        r@ == lowercase_of(s@),
{
    s.to_lowercase()
}

/// The answer that an already trimmed and lowercased reply stands for:
/// `y` continues, `n` or nothing quits, anything else is invalid.
pub open spec fn answer_for(s: Seq<char>) -> Answer {
    if s.len() == 1 && s[0] == 'y' {
        Answer::Continue
    } else if s.len() == 0 || (s.len() == 1 && s[0] == 'n') {
        Answer::Quit
    } else {
        Answer::Invalid
    }
}

/// The answer for a trimmed and lowercased reply.
pub fn answer_of(normalized: &str) -> (r: Answer)
    ensures
        r == answer_for(normalized@),
{
    let n = normalized.unicode_len();
    if n == 0 {
        Answer::Quit
    } else if n == 1 {
        let c = normalized.get_char(0);
        if c == 'y' {
            Answer::Continue
        } else if c == 'n' {
            Answer::Quit
        } else {
            Answer::Invalid
        }
    } else {
        Answer::Invalid
    }
}

/// The answer for a raw reply line, once trimmed and lowercased.
pub fn confirm_answer(reply: &str) -> (r: Answer)
    ensures
        r == answer_for(lowercase_of(trimmed_of(reply@))),
{
    let t = trim_whitespace(reply);
    let l = lowercase(t);
    answer_of(l.as_str())
}

} // verus!
