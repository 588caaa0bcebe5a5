//! Text operations: case folding, substring search, trimming and decimal numerals.

use vstd::prelude::*;
use vstd::utf8::is_ascii_chars;

verus! {

/// The lowercase form of a text that is not ASCII, as Unicode's case mappings give it.
pub uninterp spec fn unicode_lowercase(text: Seq<char>) -> Seq<char>;

/// The lowercase form of an ASCII character.
pub open spec fn ascii_lower(c: char) -> char {
    if 'A' <= c <= 'Z' {
        (c as u32 + 32) as char
    } else {
        c
    }
}

/// The lowercase form of a text.
pub open spec fn lowercase(text: Seq<char>) -> Seq<char> {
    if is_ascii_chars(text) {
        text.map_values(|c: char| ascii_lower(c))
    } else {
        unicode_lowercase(text)
    }
}

/// Calls `str::to_lowercase`. Believed of it: in an ASCII text, the letters `A` to `Z` become `a`
/// to `z` and nothing else changes; of any other text, the result depends on the text alone, and
/// `unicode_lowercase` names it. The Unicode tables themselves are not stated.
#[verifier::external_body]
pub(crate) fn to_lowercase(text: &str) -> (lowered: String)
    ensures
        is_ascii_chars(text@) ==> lowered@ == text@.map_values(|c: char| ascii_lower(c)),
        !is_ascii_chars(text@) ==> lowered@ == unicode_lowercase(text@),
{
    text.to_lowercase()
}

/// The lowercase form of an optional text.
pub open spec fn lowercase_option(text: Option<Seq<char>>) -> Option<Seq<char>> {
    match text {
        Some(t) => Some(lowercase(t)),
        None => None,
    }
}

/// The lowercase form of an optional text.
pub(crate) fn lowercase_of(text: &Option<String>) -> (lowered: Option<String>)
    ensures
        lowered.deep_view() == lowercase_option(text.deep_view()),
{
    match text {
        Some(t) => Some(to_lowercase(t.as_str())),
        None => None,
    }
}

/// An optional text as a slice.
pub(crate) fn as_slice(text: &Option<String>) -> (slice: Option<&str>)
    ensures
        slice.deep_view() == text.deep_view(),
{
    match text {
        Some(t) => Some(t.as_str()),
        None => None,
    }
}

/// A copy of an optional text.
pub(crate) fn copy_of(text: &Option<String>) -> (copy: Option<String>)
    ensures
        copy.deep_view() == text.deep_view(),
{
    match text {
        Some(t) => Some(t.clone()),
        None => None,
    }
}

/// Whether `needle` occurs in `haystack` as a run of consecutive characters.
pub open spec fn has_substring(haystack: Seq<char>, needle: Seq<char>) -> bool {
    exists|i: int|
        0 <= i <= haystack.len() - needle.len() && #[trigger] haystack.subrange(
            i,
            i + needle.len(),
        ) == needle
}

/// Calls `str::contains` with a string slice as its pattern. Believed of it: it returns true
/// exactly where the pattern matches a sub-slice of the text.
#[verifier::external_body]
pub(crate) fn contains(haystack: &str, needle: &str) -> (found: bool)
    ensures
        found == has_substring(haystack@, needle@),
{
    haystack.contains(needle)
}

/// The characters with Unicode's `White_Space` property.
pub open spec fn is_white_space(c: char) -> bool {
    let code = c as u32;
    ||| 0x9 <= code <= 0xd
    ||| code == 0x20
    ||| code == 0x85
    ||| code == 0xa0
    ||| code == 0x1680
    ||| 0x2000 <= code <= 0x200a
    ||| code == 0x2028
    ||| code == 0x2029
    ||| code == 0x202f
    ||| code == 0x205f
    ||| code == 0x3000
}

pub open spec fn all_white_space(text: Seq<char>) -> bool {
    forall|i: int| 0 <= i < text.len() ==> is_white_space(#[trigger] text[i])
}

/// Whether `trimmed` is `text` without the white space at its two ends.
pub open spec fn is_trimmed(text: Seq<char>, trimmed: Seq<char>) -> bool {
    &&& exists|start: int, end: int|
        {
            &&& 0 <= start <= end <= text.len()
            &&& trimmed == #[trigger] text.subrange(start, end)
            &&& all_white_space(text.take(start))
            &&& all_white_space(text.skip(end))
        }
    &&& trimmed.len() > 0 ==> !is_white_space(trimmed.first()) && !is_white_space(trimmed.last())
}

/// Calls `str::trim`. Believed of it: it removes the leading and the trailing characters with the
/// `White_Space` property, and nothing else.
#[verifier::external_body]
pub(crate) fn trim(text: &str) -> (trimmed: &str)
    ensures
        is_trimmed(text@, trimmed@),
{
    text.trim()
}

/// The decimal digit for `d`, which is below 10.
pub open spec fn digit(d: nat) -> char {
    ('0' as u32 + d) as char
}

/// The decimal numeral of `n`, without leading zeros.
pub open spec fn decimal(n: nat) -> Seq<char>
    decreases n,
{
    if n < 10 {
        seq![digit(n)]
    } else {
        decimal(n / 10).push(digit(n % 10))
    }
}

fn digit_text(d: u32) -> (text: &'static str)
    requires
        d < 10,
    ensures
        text@ == seq![digit(d as nat)],
{
    proof {
        reveal_strlit("0");
        reveal_strlit("1");
        reveal_strlit("2");
        reveal_strlit("3");
        reveal_strlit("4");
        reveal_strlit("5");
        reveal_strlit("6");
        reveal_strlit("7");
        reveal_strlit("8");
        reveal_strlit("9");
    }
    match d {
        0 => "0",
        1 => "1",
        2 => "2",
        3 => "3",
        4 => "4",
        5 => "5",
        6 => "6",
        7 => "7",
        8 => "8",
        _ => "9",
    }
}

/// Appends the decimal numeral of `n`.
pub(crate) fn push_decimal(out: &mut String, n: u32)
    ensures
        final(out)@ == old(out)@ + decimal(n as nat),
    decreases n,
{
    if n >= 10 {
        push_decimal(out, n / 10);
    }
    out.append(digit_text(n % 10));
    assert(out@ == old(out)@ + decimal(n as nat));
}

} // verus!
