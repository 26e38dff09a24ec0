//! Character classification for the scanner.
//!
//! The grammar is symbol-heavy and Unicode-aware: identifier shapes are
//! decided by Unicode general categories, not by a fixed ASCII set. The
//! category tests come from the `unicode_categories` crate and from `char`'s
//! own methods; each result is named by an uninterpreted spec function, and
//! the scanner's classification predicates are verified combinations of
//! those names plus the exactly-stated syntax-character set.

use vstd::prelude::*;
use unicode_categories::UnicodeCategories;

verus! {

pub uninterp spec fn unicode_alphabetic(c: char) -> bool;

pub uninterp spec fn unicode_lowercase(c: char) -> bool;

pub uninterp spec fn unicode_uppercase(c: char) -> bool;

pub uninterp spec fn unicode_whitespace(c: char) -> bool;

pub uninterp spec fn unicode_symbol(c: char) -> bool;

pub uninterp spec fn unicode_punct_connector(c: char) -> bool;

pub uninterp spec fn unicode_punct_dash(c: char) -> bool;

pub uninterp spec fn unicode_punct_other(c: char) -> bool;

pub uninterp spec fn unicode_decimal_digit(c: char) -> bool;

/// Relies on char::is_alphabetic: membership in the Unicode "Alphabetic"
/// set, a function of the character alone.
#[verifier::external_body]
pub fn char_alphabetic(c: char) -> (r: bool)
    ensures
        r == unicode_alphabetic(c),
{
    c.is_alphabetic()
}

/// Relies on char::is_lowercase: membership in the Unicode "Lowercase"
/// set, a function of the character alone.
#[verifier::external_body]
pub fn char_lowercase(c: char) -> (r: bool)
    ensures
        r == unicode_lowercase(c),
{
    c.is_lowercase()
}

/// Relies on char::is_uppercase: membership in the Unicode "Uppercase"
/// set, a function of the character alone.
#[verifier::external_body]
pub fn char_uppercase(c: char) -> (r: bool)
    ensures
        r == unicode_uppercase(c),
{
    c.is_uppercase()
}

/// Relies on char::is_whitespace: membership in the Unicode "White_Space"
/// set, a function of the character alone.
#[verifier::external_body]
pub fn char_whitespace(c: char) -> (r: bool)
    ensures
        r == unicode_whitespace(c),
{
    c.is_whitespace()
}

/// Relies on unicode_categories' is_symbol: membership in the Unicode
/// categories Sc, Sk, Sm or So, looked up in fixed tables.
#[verifier::external_body]
pub fn char_symbol(c: char) -> (r: bool)
    ensures
        r == unicode_symbol(c),
{
    c.is_symbol()
}

/// Relies on unicode_categories' is_punctuation_connector: membership in
/// the Unicode category Pc, looked up in a fixed table.
#[verifier::external_body]
pub fn char_punct_connector(c: char) -> (r: bool)
    ensures
        r == unicode_punct_connector(c),
{
    c.is_punctuation_connector()
}

/// Relies on unicode_categories' is_punctuation_dash: membership in the
/// Unicode category Pd, looked up in a fixed table.
#[verifier::external_body]
pub fn char_punct_dash(c: char) -> (r: bool)
    ensures
        r == unicode_punct_dash(c),
{
    c.is_punctuation_dash()
}

/// Relies on unicode_categories' is_punctuation_other: membership in the
/// Unicode category Po, looked up in a fixed table.
#[verifier::external_body]
pub fn char_punct_other(c: char) -> (r: bool)
    ensures
        r == unicode_punct_other(c),
{
    c.is_punctuation_other()
}

/// Relies on unicode_categories' is_number_decimal_digit: membership in
/// the Unicode category Nd, looked up in a fixed table.
#[verifier::external_body]
pub fn char_decimal_digit(c: char) -> (r: bool)
    ensures
        r == unicode_decimal_digit(c),
{
    c.is_number_decimal_digit()
}

/// The fixed, closed set of reserved syntax characters. None of them can
/// ever appear inside an identifier body of any of the four sigil classes.
pub open spec fn spec_syntax_char(c: char) -> bool {
    ||| c == '\''
    ||| c == ':'
    ||| c == '.'
    ||| c == ','
    ||| c == '"'
    ||| c == '$'
    ||| c == '@'
    ||| c == '|'
    ||| c == '('
    ||| c == ')'
    ||| c == '{'
    ||| c == '}'
    ||| c == '['
    ||| c == ']'
}

pub fn is_syntax_char(c: char) -> (r: bool)
    ensures
        r == spec_syntax_char(c),
{
    match c {
        '\'' | ':' | '.' | ',' | '"' | '$' | '@' | '|' | '(' | ')' | '{' | '}' | '[' | ']' => true,
        _ => false,
    }
}

/// A character that may start a lower-name: not reserved, not whitespace,
/// and either a lowercase letter, a symbol, or connector/dash/other
/// punctuation. This is what admits operator-looking names such as `+`.
pub open spec fn spec_lname_start_char(c: char) -> bool {
    &&& !spec_syntax_char(c)
    &&& !unicode_whitespace(c)
    &&& {
        ||| (unicode_alphabetic(c) && unicode_lowercase(c))
        ||| unicode_symbol(c)
        ||| unicode_punct_connector(c)
        ||| unicode_punct_dash(c)
        ||| unicode_punct_other(c)
    }
}

pub fn is_lname_start_char(c: char) -> (r: bool)
    ensures
        r == spec_lname_start_char(c),
{
    !is_syntax_char(c) && !char_whitespace(c) && ((char_alphabetic(c) && char_lowercase(c))
        || char_symbol(c) || char_punct_connector(c) || char_punct_dash(c)
        || char_punct_other(c))
}

/// A character that may continue any identifier: not reserved, not
/// whitespace, and alphabetic, numeric, a symbol, or connector/dash/other
/// punctuation.
pub open spec fn spec_id_char(c: char) -> bool {
    &&& !spec_syntax_char(c)
    &&& !unicode_whitespace(c)
    &&& {
        ||| unicode_alphabetic(c)
        ||| unicode_punct_connector(c)
        ||| unicode_punct_dash(c)
        ||| unicode_punct_other(c)
        ||| unicode_symbol(c)
        ||| unicode_decimal_digit(c)
    }
}

pub fn is_id_char(c: char) -> (r: bool)
    ensures
        r == spec_id_char(c),
{
    !is_syntax_char(c) && !char_whitespace(c) && (char_alphabetic(c)
        || char_punct_connector(c) || char_punct_dash(c) || char_punct_other(c)
        || char_symbol(c) || char_decimal_digit(c))
}

/// A character that may start an upper-name: an uppercase letter.
pub open spec fn spec_uname_start_char(c: char) -> bool {
    unicode_alphabetic(c) && unicode_uppercase(c)
}

pub fn is_uname_start_char(c: char) -> (r: bool)
    ensures
        r == spec_uname_start_char(c),
{
    char_alphabetic(c) && char_uppercase(c)
}

/// An ASCII decimal digit.
pub open spec fn spec_ascii_digit(c: char) -> bool {
    48 <= c as u32 <= 57
}

pub fn is_ascii_digit_char(c: char) -> (r: bool)
    ensures
        r == spec_ascii_digit(c),
{
    let u = c as u32;
    48 <= u && u <= 57
}

/// An ASCII hexadecimal digit.
pub open spec fn spec_ascii_hexdigit(c: char) -> bool {
    ||| 48 <= c as u32 <= 57
    ||| 65 <= c as u32 <= 70
    ||| 97 <= c as u32 <= 102
}

pub fn is_ascii_hexdigit_char(c: char) -> (r: bool)
    ensures
        r == spec_ascii_hexdigit(c),
{
    let u = c as u32;
    (48 <= u && u <= 57) || (65 <= u && u <= 70) || (97 <= u && u <= 102)
}

/// The numeric value of an ASCII hexadecimal digit.
pub open spec fn spec_hex_value(c: char) -> u32
    recommends
        spec_ascii_hexdigit(c),
{
    if 48 <= c as u32 <= 57 {
        (c as u32 - 48) as u32
    } else if 65 <= c as u32 <= 70 {
        (c as u32 - 55) as u32
    } else {
        (c as u32 - 87) as u32
    }
}

pub fn hex_value(c: char) -> (r: u32)
    requires
        spec_ascii_hexdigit(c),
    ensures
        r == spec_hex_value(c),
        r < 16,
{
    let u = c as u32;
    if 48 <= u && u <= 57 {
        u - 48
    } else if 65 <= u && u <= 70 {
        u - 55
    } else {
        u - 87
    }
}

/// The length of the maximal run of identifier-continuation characters
/// starting at offset `i` of `s`. Maximal runs are the backbone of the
/// scanner: every identifier class and every literal body is one.
pub open spec fn id_run_len(s: Seq<char>, i: int) -> nat
    decreases s.len() - i,
        when 0 <= i <= s.len()
{
    if i < s.len() && spec_id_char(s[i]) {
        (1 + id_run_len(s, i + 1)) as nat
    } else {
        0
    }
}

pub proof fn lemma_id_run_bounds(s: Seq<char>, i: int)
    requires
        0 <= i <= s.len(),
    ensures
        i + id_run_len(s, i) <= s.len(),
    decreases s.len() - i,
{
    if i < s.len() && spec_id_char(s[i]) {
        lemma_id_run_bounds(s, i + 1);
    }
}

pub proof fn lemma_alpha_run_bounds(s: Seq<char>, i: int)
    requires
        0 <= i <= s.len(),
    ensures
        i + alpha_run_len(s, i) <= s.len(),
    decreases s.len() - i,
{
    if i < s.len() && unicode_alphabetic(s[i]) {
        lemma_alpha_run_bounds(s, i + 1);
    }
}

/// A maximal run is pinned down by its endpoint: if everything from `i` up
/// to `j` continues an identifier and `j` is the end of text or does not,
/// then the run from `i` ends exactly at `j`.
pub proof fn lemma_id_run_is(s: Seq<char>, i: int, j: int)
    requires
        0 <= i <= j <= s.len(),
        forall|k: int| i <= k < j ==> spec_id_char(s[k]),
        j < s.len() ==> !spec_id_char(s[j]),
    ensures
        i + id_run_len(s, i) == j,
    decreases j - i,
{
    if i < j {
        lemma_id_run_is(s, i + 1, j);
    }
}

/// The length of the maximal run of alphabetic characters starting at
/// offset `i` of `s`.
pub open spec fn alpha_run_len(s: Seq<char>, i: int) -> nat
    decreases s.len() - i,
        when 0 <= i <= s.len()
{
    if i < s.len() && unicode_alphabetic(s[i]) {
        (1 + alpha_run_len(s, i + 1)) as nat
    } else {
        0
    }
}

pub proof fn lemma_alpha_run_is(s: Seq<char>, i: int, j: int)
    requires
        0 <= i <= j <= s.len(),
        forall|k: int| i <= k < j ==> unicode_alphabetic(s[k]),
        j < s.len() ==> !unicode_alphabetic(s[j]),
    ensures
        i + alpha_run_len(s, i) == j,
    decreases j - i,
{
    if i < j {
        lemma_alpha_run_is(s, i + 1, j);
    }
}

/// The length of the maximal run of ASCII decimal digits starting at
/// offset `i` of `s`.
pub open spec fn digit_run_len(s: Seq<char>, i: int) -> nat
    decreases s.len() - i,
        when 0 <= i <= s.len()
{
    if i < s.len() && spec_ascii_digit(s[i]) {
        (1 + digit_run_len(s, i + 1)) as nat
    } else {
        0
    }
}

pub proof fn lemma_digit_run_bounds(s: Seq<char>, i: int)
    requires
        0 <= i <= s.len(),
    ensures
        i + digit_run_len(s, i) <= s.len(),
        forall|k: int| i <= k < i + digit_run_len(s, i) ==> spec_ascii_digit(s[k]),
        i + digit_run_len(s, i) < s.len() ==> !spec_ascii_digit(s[i + digit_run_len(s, i)]),
    decreases s.len() - i,
{
    if i < s.len() && spec_ascii_digit(s[i]) {
        lemma_digit_run_bounds(s, i + 1);
    }
}

pub proof fn lemma_digit_run_is(s: Seq<char>, i: int, j: int)
    requires
        0 <= i <= j <= s.len(),
        forall|k: int| i <= k < j ==> spec_ascii_digit(s[k]),
        j < s.len() ==> !spec_ascii_digit(s[j]),
    ensures
        i + digit_run_len(s, i) == j,
    decreases j - i,
{
    if i < j {
        lemma_digit_run_is(s, i + 1, j);
    }
}

/// The length of the maximal run of ASCII hexadecimal digits starting at
/// offset `i` of `s`, capped at `max` characters.
pub open spec fn hex_run_len(s: Seq<char>, i: int, max: nat) -> nat
    decreases max,
        when 0 <= i <= s.len()
{
    if max > 0 && i < s.len() && spec_ascii_hexdigit(s[i]) {
        (1 + hex_run_len(s, i + 1, (max - 1) as nat)) as nat
    } else {
        0
    }
}

pub proof fn lemma_hex_run_bounds(s: Seq<char>, i: int, max: nat)
    requires
        0 <= i <= s.len(),
    ensures
        hex_run_len(s, i, max) <= max,
        i + hex_run_len(s, i, max) <= s.len(),
    decreases max,
{
    if max > 0 && i < s.len() && spec_ascii_hexdigit(s[i]) {
        lemma_hex_run_bounds(s, i + 1, (max - 1) as nat);
    }
}

pub proof fn lemma_hex_run_is(s: Seq<char>, i: int, j: int, max: nat)
    requires
        0 <= i <= j <= s.len(),
        j - i <= max,
        forall|k: int| i <= k < j ==> spec_ascii_hexdigit(s[k]),
        j - i < max ==> (j < s.len() ==> !spec_ascii_hexdigit(s[j])),
    ensures
        i + hex_run_len(s, i, max) == j,
    decreases j - i,
{
    if i < j {
        lemma_hex_run_is(s, i + 1, j, (max - 1) as nat);
    }
}

/// The length of the run of non-separator characters (anything but a dot)
/// starting at offset `i` of `s`: the length of a path segment.
pub open spec fn nondot_run_len(s: Seq<char>, i: int) -> nat
    decreases s.len() - i,
        when 0 <= i <= s.len()
{
    if i < s.len() && s[i] != '.' {
        (1 + nondot_run_len(s, i + 1)) as nat
    } else {
        0
    }
}

pub proof fn lemma_nondot_run_is(s: Seq<char>, i: int, j: int)
    requires
        0 <= i <= j <= s.len(),
        forall|k: int| i <= k < j ==> s[k] != '.',
        j < s.len() ==> s[j] == '.',
    ensures
        i + nondot_run_len(s, i) == j,
    decreases j - i,
{
    if i < j {
        lemma_nondot_run_is(s, i + 1, j);
    }
}

/// Relies on char::from_u32: `Some` exactly for the Unicode scalar values
/// (below the surrogate range, or between it and U+10FFFF), and the
/// returned character has the given scalar value.
#[verifier::external_body]
pub fn char_from_u32(v: u32) -> (r: Option<char>)
    ensures
        r is Some <==> (v < 0xD800 || (0xE000 <= v && v <= 0x10FFFF)),
        r is Some ==> r->0 as u32 == v,
{
    char::from_u32(v)
}

/// Relies on String::push: appends exactly one character at the end.
#[verifier::external_body]
pub fn push_char(s: &mut String, c: char)
    ensures
        final(s)@ == old(s)@.push(c),
{
    s.push(c)
}

} // verus!
