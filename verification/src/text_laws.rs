//! What holds of texts: letter case, search, numerals and messages.

use crate::error::{CockpitError, ErrorModel};
use crate::text::{decimal, has_substring, lowercase, lowercase_option, unicode_lowercase};
use vstd::prelude::*;
use vstd::utf8::is_ascii_chars;

verus! {

/// Whether a text has `part` in it, with any text before it and any text behind it.
pub open spec fn occurs_in(part: Seq<char>, whole: Seq<char>) -> bool {
    exists|before: Seq<char>, after: Seq<char>| whole == #[trigger] (before + part + after)
}

/// A text is found at any position of another, and nothing is found that does not stand there.
pub proof fn law_search_is_by_occurrence(whole: Seq<char>, part: Seq<char>)
    ensures
        has_substring(whole, part) <==> occurs_in(part, whole),
{
    if has_substring(whole, part) {
        let i = choose|i: int|
            0 <= i <= whole.len() - part.len() && #[trigger] whole.subrange(i, i + part.len())
                == part;
        assert(whole == whole.take(i) + part + whole.skip(i + part.len()));
    }
    if occurs_in(part, whole) {
        let (before, after) = choose|before: Seq<char>, after: Seq<char>|
            whole == #[trigger] (before + part + after);
        let i = before.len() as int;
        assert(whole.subrange(i, i + part.len()) == part);
    }
}

/// Whatever stands before and behind a text, it is found.
pub proof fn law_search_finds_any_position(before: Seq<char>, part: Seq<char>, after: Seq<char>)
    ensures
        has_substring(before + part + after, part),
{
    assert(occurs_in(part, before + part + after));
    law_search_is_by_occurrence(before + part + after, part);
}

/// In an ASCII text, lowercasing moves the capital letters, and them alone, by the distance of the
/// two cases; done twice it is as done once. Of any other text it is the Unicode mapping.
pub proof fn law_lowercase(text: Seq<char>)
    ensures
        is_ascii_chars(text) ==> {
            &&& lowercase(text).len() == text.len()
            &&& is_ascii_chars(lowercase(text))
            &&& lowercase(lowercase(text)) == lowercase(text)
            &&& forall|i: int|
                0 <= i < text.len() ==> (#[trigger] lowercase(text)[i]) as int - text[i] as int == (
                if 65 <= text[i] as int <= 90 {
                    32int
                } else {
                    0
                })
        },
        !is_ascii_chars(text) ==> lowercase(text) == unicode_lowercase(text),
        lowercase_option(Some(text)) == Some(lowercase(text)),
        lowercase_option(None) is None,
{
    if is_ascii_chars(text) {
        let low = lowercase(text);
        assert(is_ascii_chars(low));
        assert(lowercase(low) == low);
    }
}

/// A numeral grows by one digit where its number grows by one decimal place.
pub proof fn law_decimal(n: nat, d: nat)
    requires
        d < 10,
    ensures
        decimal(d) == seq![((48 + d) as u32) as char],
        n > 0 ==> decimal(10 * n + d) == decimal(n).push(((48 + d) as u32) as char),
{
    if n > 0 {
        assert((10 * n + d) / 10 == n);
        assert((10 * n + d) % 10 == d);
    }
}

/// Different numbers have different numerals.
pub proof fn law_numerals_differ(a: nat, b: nat)
    requires
        decimal(a) == decimal(b),
    ensures
        a == b,
    decreases a,
{
    lemma_numeral(a);
    lemma_numeral(b);
    if a >= 10 && b >= 10 {
        assert(decimal(a).drop_last() == decimal(a / 10));
        assert(decimal(b).drop_last() == decimal(b / 10));
        law_numerals_differ(a / 10, b / 10);
    }
    assert(decimal(a).last() == decimal(b).last());
}

proof fn lemma_numeral(n: nat)
    ensures
        decimal(n).len() >= 1,
        n >= 10 ==> decimal(n).len() >= 2,
        n < 10 ==> decimal(n).len() == 1,
        decimal(n).last() as int == 48 + n % 10,
    decreases n,
{
    if n >= 10 {
        lemma_numeral(n / 10);
    }
}

/// A message says what went wrong, and then carries the text of the error or the id of the
/// process, whole and at its end.
pub proof fn law_messages(text: Seq<char>, pid: u32)
    ensures
        ErrorModel::Io(text).message() == "I/O error: "@ + text,
        ErrorModel::Json(text).message() == "JSON error: "@ + text,
        ErrorModel::ProcessNotFound(pid).message() == "Process not found: PID "@ + decimal(
            pid as nat,
        ),
        ErrorModel::KillFailed(pid).message() == "Failed to terminate process: PID "@ + decimal(
            pid as nat,
        ),
{
}

/// The model of an error is of its kind, with its text or its process id.
pub proof fn law_errors_show_what_they_carry(error: CockpitError)
    ensures
        match error {
            CockpitError::Io(text) => error@ == ErrorModel::Io(text@),
            CockpitError::Json(text) => error@ == ErrorModel::Json(text@),
            CockpitError::ProcessNotFound(pid) => error@ == ErrorModel::ProcessNotFound(pid),
            CockpitError::KillFailed(pid) => error@ == ErrorModel::KillFailed(pid),
        },
{
}

} // verus!
