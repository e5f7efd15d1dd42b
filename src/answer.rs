//! Reading a yes/no reply typed at a confirmation prompt.

use vstd::prelude::*;

verus! {

/// What `str::trim` returns for a string: it depends on the characters alone.
pub uninterp spec fn trimmed_of(s: Seq<char>) -> Seq<char>;

/// What `str::to_lowercase` returns for a string: it depends on the
/// characters alone.
pub uninterp spec fn lower_of(s: Seq<char>) -> Seq<char>;

/// The meaning of a reply that has already been trimmed and lowercased:
/// `Some(true)` for "y" or "yes", `Some(false)` for "n" or "no", and `None`
/// for anything else, which asks for the question to be repeated.
pub open spec fn answer_spec(s: Seq<char>) -> Option<bool> {
    if s == seq!['y'] || s == seq!['y', 'e', 's'] {
        Some(true)
    } else if s == seq!['n'] || s == seq!['n', 'o'] {
        Some(false)
    } else {
        None
    }
}

/// The meaning of a raw line typed at the prompt: surrounding whitespace is
/// dropped and letters are compared without regard to case.
pub open spec fn reply_spec(line: Seq<char>) -> Option<bool> {
    answer_spec(lower_of(trimmed_of(line)))
}

/// Relies on `str::trim`: leading and trailing whitespace removed.
#[verifier::external_body]
fn trim_reply(s: &str) -> (r: &str)
    ensures
        r@ == trimmed_of(s@),
{
    s.trim()
}

/// Relies on `str::to_lowercase`: every character mapped to its lowercase.
#[verifier::external_body]
fn lowercase_reply(s: &str) -> (r: String)
    ensures
        r@ == lower_of(s@),
{
    s.to_lowercase()
}

/// Classifies a reply that has already been trimmed and lowercased.
pub fn answer_of(normalized: &str) -> (r: Option<bool>)
    ensures
        r == answer_spec(normalized@),
{
    let n = normalized.unicode_len();
    if n == 1 {
        let c = normalized.get_char(0);
        assert(normalized@ == seq![c]);
        if c == 'y' {
            Some(true)
        } else if c == 'n' {
            Some(false)
        } else {
            None
        }
    } else if n == 2 {
        let c0 = normalized.get_char(0);
        let c1 = normalized.get_char(1);
        assert(normalized@ == seq![c0, c1]);
        if c0 == 'n' && c1 == 'o' {
            Some(false)
        } else {
            None
        }
    } else if n == 3 {
        let c0 = normalized.get_char(0);
        let c1 = normalized.get_char(1);
        let c2 = normalized.get_char(2);
        assert(normalized@ == seq![c0, c1, c2]);
        if c0 == 'y' && c1 == 'e' && c2 == 's' {
            Some(true)
        } else {
            None
        }
    } else {
        None
    }
}

/// Classifies a raw line typed at the confirmation prompt.
pub fn parse_answer(line: &str) -> (r: Option<bool>)
    ensures
        r == reply_spec(line@),
{
    let trimmed = trim_reply(line);
    let lowered = lowercase_reply(trimmed);
    answer_of(lowered.as_str())
}

} // verus!
