//! The lexical scanner: a hand-written finite-state tokenizer over the
//! characters of one source text.
//!
//! Each call to `scan_token` yields the next `(start, token, end)` triple,
//! a lexical error, or nothing at end of input. The whole behaviour of one
//! call — which characters are skipped as whitespace or comments, which
//! token or error the next significant character produces, and where the
//! scanner stands afterwards — is stated by `spec_scan_result` over the
//! character sequence, and every scan function is verified against it.
//! Malformed input never panics: every malformed construct yields exactly
//! one error item, and the scanner always moves forward past it.

use vstd::prelude::*;
use crate::chars::alpha_run_len;
use crate::chars::char_from_u32;
use crate::chars::digit_run_len;
use crate::chars::hex_run_len;
use crate::chars::hex_value;
use crate::chars::id_run_len;
use crate::chars::is_ascii_digit_char;
use crate::chars::is_ascii_hexdigit_char;
use crate::chars::is_id_char;
use crate::chars::is_lname_start_char;
use crate::chars::is_uname_start_char;
use crate::chars::char_alphabetic;
use crate::chars::char_decimal_digit;
use crate::chars::lemma_alpha_run_is;
use crate::chars::lemma_digit_run_is;
use crate::chars::lemma_hex_run_is;
use crate::chars::lemma_id_run_is;
use crate::chars::push_char;
use crate::chars::spec_ascii_digit;
use crate::chars::spec_ascii_hexdigit;
use crate::chars::spec_hex_value;
use crate::chars::spec_id_char;
use crate::chars::spec_lname_start_char;
use crate::chars::spec_uname_start_char;
use crate::chars::unicode_alphabetic;
use crate::chars::unicode_decimal_digit;
use crate::errors::CompilationError;
use crate::location::Location;
use crate::location::line_and_col_of;
use crate::location::spec_loc;
use crate::token::Token;
use crate::token::classify_word;
use crate::token::spec_is_reserved;
use crate::token::spec_keyword;

verus! {

/// One scanner step's yield: a token triple, an error, or end of input.
pub type ScannerResult = Option<Result<(Location, Token, Location), CompilationError>>;

/// Where skipping whitespace and comments lands: at end of input, at the
/// next significant character, or inside a block comment that never
/// closes (by the offset of its opening slash).
pub enum Trivia {
    AtEnd,
    AtChar(int),
    BadComment(int),
}

/// Skips whitespace and comments from offset `i`.
pub open spec fn spec_trivia(s: Seq<char>, i: int) -> Trivia
    decreases s.len() - i,
        when 0 <= i <= s.len()
{
    if i >= s.len() {
        Trivia::AtEnd
    } else if s[i] == ' ' || s[i] == '\n' || s[i] == '\t' {
        spec_trivia(s, i + 1)
    } else if s[i] == '/' && i + 1 < s.len() && s[i + 1] == '/' {
        spec_after_line_comment(s, i + 1)
    } else if s[i] == '/' && i + 1 < s.len() && s[i + 1] == '*' {
        spec_after_block_comment(s, i, i + 1)
    } else {
        Trivia::AtChar(i)
    }
}

/// Inside a line comment: everything up to and including the next newline
/// is skipped.
pub open spec fn spec_after_line_comment(s: Seq<char>, j: int) -> Trivia
    decreases s.len() - j,
        when 0 <= j <= s.len()
{
    if j >= s.len() {
        Trivia::AtEnd
    } else if s[j] == '\n' {
        spec_trivia(s, j + 1)
    } else {
        spec_after_line_comment(s, j + 1)
    }
}

/// Inside a block comment opened at `opener`: skipping ends just past the
/// first `*/`; comments do not nest, and end of input first means the
/// comment is unterminated.
pub open spec fn spec_after_block_comment(s: Seq<char>, opener: int, j: int) -> Trivia
    decreases s.len() - j,
        when 0 <= j <= s.len()
{
    if j >= s.len() {
        Trivia::BadComment(opener)
    } else if s[j] == '*' && j + 1 < s.len() && s[j + 1] == '/' {
        spec_trivia(s, j + 2)
    } else {
        spec_after_block_comment(s, opener, j + 1)
    }
}

/// The value of `k` decimal digits of `s` starting at offset `i`.
pub open spec fn dec_seq_value(s: Seq<char>, i: int, k: nat) -> int
    decreases k,
{
    if k == 0 {
        0
    } else {
        dec_seq_value(s, i, (k - 1) as nat) * 10 + (s[i + k - 1] as u32 - 48)
    }
}

/// The value of `k` hexadecimal digits of `s` starting at offset `i`.
pub open spec fn hex_seq_value(s: Seq<char>, i: int, k: nat) -> int
    decreases k,
{
    if k == 0 {
        0
    } else {
        hex_seq_value(s, i, (k - 1) as nat) * 16 + spec_hex_value(s[i + k - 1])
    }
}

/// The character with a given scalar value.
pub open spec fn char_of_code(v: u32) -> char {
    choose|c: char| (#[trigger] (c as u32)) == v
}

/// A scalar value a character can carry: outside the surrogate range and
/// at most U+10FFFF.
pub open spec fn valid_scalar(v: u32) -> bool {
    v < 0xD800 || (0xE000 <= v && v <= 0x10FFFF)
}

pub proof fn lemma_char_of_code(c: char)
    ensures
        char_of_code(c as u32) == c,
{
    assert(c as u32 == c as u32);
    let w = char_of_code(c as u32);
    assert(w as u32 == c as u32);
}

/// How one escape sequence fails: at which offset, with which message,
/// and as which error kind (`InvalidEscape` or `LexicalError`); `next` is
/// where the scanner stands afterwards.
pub struct EscFail {
    pub at: int,
    pub msg: Seq<char>,
    pub invalid_escape: bool,
    pub next: int,
}

/// The outcome of one escape sequence: the scalar value it decodes to and
/// the offset just past it, or a failure.
pub enum EscScan {
    Accept { code: u32, next: int },
    Reject(EscFail),
}

/// Decodes the escape whose introducing character stands at offset `i`
/// (just past the backslash). `\\ n r 0 t "` map to their control
/// characters; `x` takes exactly two hex digits; `u` takes `{`, one to
/// six hex digits, and `}`; anything else is an invalid escape.
pub open spec fn spec_escape(s: Seq<char>, i: int) -> EscScan {
    if i >= s.len() {
        EscScan::Reject(
            EscFail {
                at: s.len() as int,
                msg: "unterminated escape sequence"@,
                invalid_escape: true,
                next: s.len() as int,
            },
        )
    } else if s[i] == '\\' {
        EscScan::Accept { code: '\\' as u32, next: i + 1 }
    } else if s[i] == 'n' {
        EscScan::Accept { code: '\n' as u32, next: i + 1 }
    } else if s[i] == 'r' {
        EscScan::Accept { code: '\r' as u32, next: i + 1 }
    } else if s[i] == '0' {
        EscScan::Accept { code: 0, next: i + 1 }
    } else if s[i] == 't' {
        EscScan::Accept { code: '\t' as u32, next: i + 1 }
    } else if s[i] == '"' {
        EscScan::Accept { code: '"' as u32, next: i + 1 }
    } else if s[i] == 'x' {
        spec_escape_hex2(s, i)
    } else if s[i] == 'u' {
        spec_escape_unicode(s, i)
    } else {
        EscScan::Reject(
            EscFail { at: i, msg: seq![s[i]], invalid_escape: true, next: i },
        )
    }
}

/// The `\xHH` form: exactly two hex digits after the `x` at offset `i`.
pub open spec fn spec_escape_hex2(s: Seq<char>, i: int) -> EscScan {
    if i + 1 >= s.len() {
        EscScan::Reject(
            EscFail {
                at: s.len() as int,
                msg: "Expected at least 2 characters"@,
                invalid_escape: false,
                next: s.len() as int,
            },
        )
    } else if !spec_ascii_hexdigit(s[i + 1]) {
        EscScan::Reject(
            EscFail {
                at: i + 1,
                msg: "Invalid token: Expected at least 2 chars"@,
                invalid_escape: false,
                next: i + 1,
            },
        )
    } else if i + 2 >= s.len() {
        EscScan::Reject(
            EscFail {
                at: s.len() as int,
                msg: "Expected at least 2 characters"@,
                invalid_escape: false,
                next: s.len() as int,
            },
        )
    } else if !spec_ascii_hexdigit(s[i + 2]) {
        EscScan::Reject(
            EscFail {
                at: i + 2,
                msg: "Invalid token: Expected at least 2 chars"@,
                invalid_escape: false,
                next: i + 2,
            },
        )
    } else {
        EscScan::Accept {
            code: (spec_hex_value(s[i + 1]) * 16 + spec_hex_value(s[i + 2])) as u32,
            next: i + 3,
        }
    }
}

/// The `\u{H...}` form: an opening brace, one to six hex digits, and a
/// closing brace after the `u` at offset `i`. A value outside the valid
/// scalar range is an invalid escape.
pub open spec fn spec_escape_unicode(s: Seq<char>, i: int) -> EscScan {
    if i + 1 >= s.len() {
        EscScan::Reject(
            EscFail {
                at: s.len() as int,
                msg: "Expected character, but saw EOF"@,
                invalid_escape: false,
                next: s.len() as int,
            },
        )
    } else if s[i + 1] != '{' {
        EscScan::Reject(
            EscFail {
                at: i + 1,
                msg: "Expected '{', but saw '"@ + seq![s[i + 1]] + "'"@,
                invalid_escape: false,
                next: i + 1,
            },
        )
    } else {
        let k = hex_run_len(s, i + 2, 6);
        if k == 0 {
            if i + 2 >= s.len() {
                EscScan::Reject(
                    EscFail {
                        at: s.len() as int,
                        msg: "Expected at least 1 characters"@,
                        invalid_escape: false,
                        next: s.len() as int,
                    },
                )
            } else {
                EscScan::Reject(
                    EscFail {
                        at: i + 2,
                        msg: "Invalid token: Expected at least 1 chars"@,
                        invalid_escape: false,
                        next: i + 2,
                    },
                )
            }
        } else {
            let m = i + 2 + k;
            if m >= s.len() {
                EscScan::Reject(
                    EscFail {
                        at: s.len() as int,
                        msg: "Expected character, but saw EOF"@,
                        invalid_escape: false,
                        next: s.len() as int,
                    },
                )
            } else if s[m] != '}' {
                EscScan::Reject(
                    EscFail {
                        at: m,
                        msg: "Expected '}', but saw '"@ + seq![s[m]] + "'"@,
                        invalid_escape: false,
                        next: m,
                    },
                )
            } else {
                let v = hex_seq_value(s, i + 2, k);
                if valid_scalar(v as u32) && v <= u32::MAX {
                    EscScan::Accept { code: v as u32, next: m + 1 }
                } else {
                    EscScan::Reject(
                        EscFail {
                            at: i,
                            msg: "invalid unicode scalar value"@,
                            invalid_escape: true,
                            next: m + 1,
                        },
                    )
                }
            }
        }
    }
}

pub proof fn lemma_escape_next(s: Seq<char>, i: int)
    requires
        0 <= i,
    ensures
        match spec_escape(s, i) {
            EscScan::Accept { code, next } => i < next <= s.len(),
            EscScan::Reject(f) => 0 <= f.at <= s.len() && 0 <= f.next <= s.len(),
        },
{
    if i < s.len() && s[i] == 'u' && i + 1 < s.len() && s[i + 1] == '{' {
        crate::chars::lemma_hex_run_bounds(s, i + 2, 6);
    }
}

/// The outcome of a string-literal body scanned from offset `j` (just past
/// the opening quote): the decoded value and the offset of the closing
/// quote, an unterminated literal, or a failed escape.
pub enum StrScan {
    Closed { value: Seq<char>, close: int },
    Unterminated,
    BadEscape(EscFail),
}

/// Scans a string-literal body: plain characters stand for themselves,
/// escapes decode, and an unescaped quote closes the literal.
pub open spec fn spec_string_body(s: Seq<char>, j: int) -> StrScan
    decreases s.len() - j,
        when 0 <= j <= s.len()
        via string_body_dec
{
    if j >= s.len() {
        StrScan::Unterminated
    } else if s[j] == '"' {
        StrScan::Closed { value: Seq::empty(), close: j }
    } else if s[j] == '\\' {
        match spec_escape(s, j + 1) {
            EscScan::Accept { code, next } => match spec_string_body(s, next) {
                StrScan::Closed { value, close } => StrScan::Closed {
                    value: seq![char_of_code(code)] + value,
                    close,
                },
                o => o,
            },
            EscScan::Reject(f) => StrScan::BadEscape(f),
        }
    } else {
        match spec_string_body(s, j + 1) {
            StrScan::Closed { value, close } => StrScan::Closed {
                value: seq![s[j]] + value,
                close,
            },
            o => o,
        }
    }
}

#[via_fn]
proof fn string_body_dec(s: Seq<char>, j: int) {
    if 0 <= j < s.len() && s[j] != '"' && s[j] == '\\' {
        lemma_escape_next(s, j + 1);
    }
}

// ---- relations between one scan step and its spec outcome ----

/// The step yielded the payload-free token `t` spanning `[start, end)`.
pub open spec fn ok_fixed(
    src: int,
    s: Seq<char>,
    start: int,
    t: Token,
    end: int,
    r: ScannerResult,
) -> bool {
    &&& r matches Some(Ok((l1, tok, l2)))
    &&& tok == t
    &&& l1 == spec_loc(src, s, start)
    &&& l2 == spec_loc(src, s, end)
}

/// The step yielded a lexical error located at `at` with message `msg`.
pub open spec fn err_lexical(
    src: int,
    s: Seq<char>,
    at: int,
    msg: Seq<char>,
    r: ScannerResult,
) -> bool {
    &&& r matches Some(Err(CompilationError::LexicalError(l, m)))
    &&& l == spec_loc(src, s, at)
    &&& m@ == msg
}

/// The error an escape failure turns into: an `InvalidEscape` or a
/// `LexicalError`, at the failure's own location.
pub open spec fn fail_to_err(src: int, s: Seq<char>, f: EscFail, e: CompilationError) -> bool {
    if f.invalid_escape {
        &&& e matches CompilationError::InvalidEscape(l, m)
        &&& l == spec_loc(src, s, f.at)
        &&& m@ == f.msg
    } else {
        &&& e matches CompilationError::LexicalError(l, m)
        &&& l == spec_loc(src, s, f.at)
        &&& m@ == f.msg
    }
}

/// An identifier or keyword scanned from `p`: the token covers `p` and the
/// identifier-continuation run after it; a reserved word yields its
/// keyword token, any other word a lower-name with exactly that text.
pub open spec fn ident_result(src: int, s: Seq<char>, p: int, r: ScannerResult, i1: int) -> bool {
    let e = p + 1 + id_run_len(s, p + 1);
    let text = s.subrange(p, e);
    &&& i1 == e
    &&& if spec_is_reserved(text) {
        &&& r matches Some(Ok((l1, tok, l2)))
        &&& Some(tok) == spec_keyword(text)
        &&& l1 == spec_loc(src, s, p)
        &&& l2 == spec_loc(src, s, e)
    } else {
        &&& r matches Some(Ok((l1, Token::LName(n), l2)))
        &&& n@ == text
        &&& l1 == spec_loc(src, s, p)
        &&& l2 == spec_loc(src, s, e)
    }
}

/// An upper-name scanned from `p`: the first character and the
/// identifier-continuation run after it.
pub open spec fn upper_result(src: int, s: Seq<char>, p: int, r: ScannerResult, i1: int) -> bool {
    let e = p + 1 + id_run_len(s, p + 1);
    &&& i1 == e
    &&& r matches Some(Ok((l1, Token::UName(n), l2)))
    &&& n@ == s.subrange(p, e)
    &&& l1 == spec_loc(src, s, p)
    &&& l2 == spec_loc(src, s, e)
}

/// An at-keyword scanned from `p`: the sigil and the alphabetic run after
/// it must form a reserved at-keyword; anything else is an invalid
/// at-token carrying the scanned text.
pub open spec fn at_result(src: int, s: Seq<char>, p: int, r: ScannerResult, i1: int) -> bool {
    let e = p + 1 + alpha_run_len(s, p + 1);
    let text = s.subrange(p, e);
    &&& i1 == e
    &&& if spec_is_reserved(text) {
        &&& r matches Some(Ok((l1, tok, l2)))
        &&& Some(tok) == spec_keyword(text)
        &&& l1 == spec_loc(src, s, p)
        &&& l2 == spec_loc(src, s, e)
    } else {
        &&& r matches Some(Err(CompilationError::InvalidAtToken(l, t)))
        &&& l == spec_loc(src, s, p)
        &&& t@ == text
    }
}

/// A type-var scanned from `p`: the sigil and the alphabetic run after it,
/// at least one letter long.
pub open spec fn tv_result(src: int, s: Seq<char>, p: int, r: ScannerResult, i1: int) -> bool {
    let e = p + 1 + alpha_run_len(s, p + 1);
    &&& i1 == e
    &&& if e - p < 2 {
        err_lexical(src, s, p, "Type var must have at least one letter after its sigil"@, r)
    } else {
        &&& r matches Some(Ok((l1, Token::TVName(n), l2)))
        &&& n@ == s.subrange(p, e)
        &&& l1 == spec_loc(src, s, p)
        &&& l2 == spec_loc(src, s, e)
    }
}

/// A context-var scanned from `p`: the sigil and the
/// identifier-continuation run after it, at least one character long.
pub open spec fn ctx_result(src: int, s: Seq<char>, p: int, r: ScannerResult, i1: int) -> bool {
    let e = p + 1 + id_run_len(s, p + 1);
    &&& i1 == e
    &&& if e - p < 2 {
        err_lexical(src, s, p, "Context var must have at least one letter after its sigil"@, r)
    } else {
        &&& r matches Some(Ok((l1, Token::CName(n), l2)))
        &&& n@ == s.subrange(p, e)
        &&& l1 == spec_loc(src, s, p)
        &&& l2 == spec_loc(src, s, e)
    }
}

/// A numeric literal scanned from `p` (an optional minus sign, then
/// digits): a dot continues into a float, which keeps its exact source
/// text; an integer parses to a 64-bit signed value, and one that does
/// not fit is a lexical error. A leading digit that is not an ASCII digit
/// is a lexical error consuming that one character.
pub open spec fn number_result(src: int, s: Seq<char>, p: int, r: ScannerResult, i1: int) -> bool {
    let q = if s[p] == '-' {
        p + 1
    } else {
        p
    };
    let d = digit_run_len(s, q);
    if d == 0 {
        &&& i1 == if q < s.len() {
            q + 1
        } else {
            s.len() as int
        }
        &&& err_lexical(src, s, p, "Invalid numeric literal"@, r)
    } else {
        let e0 = q + d;
        if e0 < s.len() && s[e0] == '.' {
            float_result(src, s, p, e0, r, i1)
        } else {
            let v = dec_seq_value(s, q, d);
            let n = if s[p] == '-' {
                -v
            } else {
                v
            };
            &&& i1 == e0
            &&& if i64::MIN <= n <= i64::MAX {
                &&& r matches Some(Ok((l1, Token::IntLit(value), l2)))
                &&& value == n
                &&& l1 == spec_loc(src, s, p)
                &&& l2 == spec_loc(src, s, e0)
            } else {
                err_lexical(src, s, p, "Integer literal out of range"@, r)
            }
        }
    }
}

/// The fractional part of a float whose dot stands at `e0`: more digits,
/// then an optional exponent (`e`, an optional minus sign, digits). The
/// token keeps the exact source text from `p` to wherever the literal
/// ends.
pub open spec fn float_result(
    src: int,
    s: Seq<char>,
    p: int,
    e0: int,
    r: ScannerResult,
    i1: int,
) -> bool {
    let f = digit_run_len(s, e0 + 1);
    let fe = e0 + 1 + f;
    let e = if fe < s.len() && s[fe] == 'e' {
        let x0 = if fe + 1 < s.len() && s[fe + 1] == '-' {
            fe + 2
        } else {
            fe + 1
        };
        x0 + digit_run_len(s, x0)
    } else {
        fe
    };
    &&& i1 == e
    &&& r matches Some(Ok((l1, Token::FloatLit(t), l2)))
    &&& t@ == s.subrange(p, e)
    &&& l1 == spec_loc(src, s, p)
    &&& l2 == spec_loc(src, s, e)
}

/// A string literal scanned from its opening quote at `p`: the token
/// carries the decoded value and spans through the closing quote; an
/// unterminated literal is a lexical error at the opening quote; a bad
/// escape is its own error.
pub open spec fn string_result(src: int, s: Seq<char>, p: int, r: ScannerResult, i1: int) -> bool {
    match spec_string_body(s, p + 1) {
        StrScan::Closed { value, close } => {
            &&& i1 == close + 1
            &&& r matches Some(Ok((l1, Token::StringLit(v), l2)))
            &&& v@ == value
            &&& l1 == spec_loc(src, s, p)
            &&& l2 == spec_loc(src, s, close + 1)
        },
        StrScan::Unterminated => {
            &&& i1 == s.len()
            &&& err_lexical(src, s, p, "Unterminated string literal"@, r)
        },
        StrScan::BadEscape(f) => {
            &&& i1 == f.next
            &&& r matches Some(Err(e))
            &&& fail_to_err(src, s, f, e)
        },
    }
}

/// A character literal scanned from its opening quote at `p`: one raw
/// character or one escape, immediately followed by a closing quote. The
/// token's end offset is the closing quote itself.
pub open spec fn char_result(src: int, s: Seq<char>, p: int, r: ScannerResult, i1: int) -> bool {
    if p + 1 >= s.len() {
        &&& i1 == s.len()
        &&& err_lexical(src, s, p, "Invalid character literal"@, r)
    } else if s[p + 1] == '\\' {
        match spec_escape(s, p + 2) {
            EscScan::Accept { code, next } => {
                if next < s.len() && s[next] == '\'' {
                    &&& i1 == next + 1
                    &&& r matches Some(Ok((l1, Token::CharLit(c), l2)))
                    &&& c as u32 == code
                    &&& l1 == spec_loc(src, s, p)
                    &&& l2 == spec_loc(src, s, next)
                } else {
                    &&& i1 == next
                    &&& err_lexical(src, s, p, "Unterminated char literal"@, r)
                }
            },
            EscScan::Reject(f) => {
                &&& i1 == f.next
                &&& r matches Some(Err(e))
                &&& fail_to_err(src, s, f, e)
            },
        }
    } else {
        if p + 2 < s.len() && s[p + 2] == '\'' {
            &&& i1 == p + 3
            &&& r matches Some(Ok((l1, Token::CharLit(c), l2)))
            &&& c == s[p + 1]
            &&& l1 == spec_loc(src, s, p)
            &&& l2 == spec_loc(src, s, p + 2)
        } else if p + 2 < s.len() {
            &&& i1 == p + 2
            &&& err_lexical(src, s, p + 2, "Invalid character literal"@, r)
        } else {
            &&& i1 == s.len()
            &&& err_lexical(src, s, s.len() as int, "Invalid character literal"@, r)
        }
    }
}

/// What one scan step yields at the significant character at `p`,
/// dispatching on that character exactly as the scanner's loop does.
pub open spec fn spec_dispatch(src: int, s: Seq<char>, p: int, r: ScannerResult, i1: int) -> bool {
    let c = s[p];
    if c == '(' {
        ok_fixed(src, s, p, Token::LParen, p + 1, r) && i1 == p + 1
    } else if c == ')' {
        ok_fixed(src, s, p, Token::RParen, p + 1, r) && i1 == p + 1
    } else if c == '{' {
        ok_fixed(src, s, p, Token::LCurly, p + 1, r) && i1 == p + 1
    } else if c == '}' {
        ok_fixed(src, s, p, Token::RCurly, p + 1, r) && i1 == p + 1
    } else if c == ']' {
        ok_fixed(src, s, p, Token::RBracket, p + 1, r) && i1 == p + 1
    } else if c == '.' {
        ok_fixed(src, s, p, Token::Dot, p + 1, r) && i1 == p + 1
    } else if c == ',' {
        ok_fixed(src, s, p, Token::Comma, p + 1, r) && i1 == p + 1
    } else if c == '[' {
        if p + 1 < s.len() && s[p + 1] == '|' {
            ok_fixed(src, s, p, Token::LBracketBar, p + 2, r) && i1 == p + 2
        } else {
            ok_fixed(src, s, p, Token::LBracket, p + 1, r) && i1 == p + 1
        }
    } else if c == '|' {
        if p + 1 < s.len() && s[p + 1] == ']' {
            ok_fixed(src, s, p, Token::RBracketBar, p + 2, r) && i1 == p + 2
        } else {
            ident_result(src, s, p, r, i1)
        }
    } else if c == '@' {
        at_result(src, s, p, r, i1)
    } else if c == '$' {
        ctx_result(src, s, p, r, i1)
    } else if c == '`' {
        tv_result(src, s, p, r, i1)
    } else if unicode_decimal_digit(c) {
        number_result(src, s, p, r, i1)
    } else if c == '-' {
        if p + 1 < s.len() && unicode_decimal_digit(s[p + 1]) {
            number_result(src, s, p, r, i1)
        } else {
            ident_result(src, s, p, r, i1)
        }
    } else if c == '"' {
        string_result(src, s, p, r, i1)
    } else if c == '\'' {
        char_result(src, s, p, r, i1)
    } else if c == ':' {
        ok_fixed(src, s, p, Token::Colon, p + 1, r) && i1 == p + 1
    } else if spec_lname_start_char(c) {
        ident_result(src, s, p, r, i1)
    } else if spec_uname_start_char(c) {
        upper_result(src, s, p, r, i1)
    } else {
        i1 == p + 1 && err_lexical(src, s, p, "Invalid char"@, r)
    }
}

/// What one whole `scan_token` call yields from offset `i0`: nothing at
/// end of input, an unterminated-comment error, or the dispatch outcome
/// at the next significant character.
pub open spec fn spec_scan_result(
    src: int,
    s: Seq<char>,
    i0: int,
    r: ScannerResult,
    i1: int,
) -> bool {
    match spec_trivia(s, i0) {
        Trivia::AtEnd => r is None && i1 == s.len(),
        Trivia::BadComment(op) => {
            &&& i1 == s.len()
            &&& r matches Some(Err(CompilationError::UnterminatedComment(l)))
            &&& l == spec_loc(src, s, op)
        },
        Trivia::AtChar(p) => spec_dispatch(src, s, p, r, i1),
    }
}

/// Sixteen to the `k`.
pub open spec fn p16(k: nat) -> int
    decreases k,
{
    if k == 0 {
        1
    } else {
        16 * p16((k - 1) as nat)
    }
}

proof fn lemma_p16_mono(a: nat, b: nat)
    requires
        a <= b,
    ensures
        0 < p16(a) <= p16(b),
    decreases b,
{
    if a == b {
        if b > 0 {
            lemma_p16_mono((b - 1) as nat, (b - 1) as nat);
        }
    } else {
        lemma_p16_mono(a, (b - 1) as nat);
    }
}

proof fn lemma_hex_value_bound(s: Seq<char>, i: int, k: nat)
    requires
        forall|t: int| i <= t < i + k ==> spec_ascii_hexdigit(s[t]),
    ensures
        0 <= hex_seq_value(s, i, k) < p16(k),
    decreases k,
{
    if k > 0 {
        lemma_hex_value_bound(s, i, (k - 1) as nat);
    }
}

proof fn lemma_dec_value_nonneg(s: Seq<char>, i: int, k: nat)
    requires
        forall|t: int| i <= t < i + k ==> spec_ascii_digit(s[t]),
    ensures
        0 <= dec_seq_value(s, i, k),
    decreases k,
{
    if k > 0 {
        lemma_dec_value_nonneg(s, i, (k - 1) as nat);
    }
}

proof fn lemma_dec_value_mono(s: Seq<char>, i: int, k1: nat, k2: nat)
    requires
        k1 <= k2,
        forall|t: int| i <= t < i + k2 ==> spec_ascii_digit(s[t]),
    ensures
        dec_seq_value(s, i, k1) <= dec_seq_value(s, i, k2),
    decreases k2,
{
    if k1 < k2 {
        lemma_dec_value_mono(s, i, k1, (k2 - 1) as nat);
        lemma_dec_value_nonneg(s, i, (k2 - 1) as nat);
    }
}

/// The outcome of decoding one escape in executable form.
pub enum EscOutcome {
    Good { c: char, next: usize },
    Bad { err: CompilationError, next: usize },
}

/// The scanner, bound to one source text and the index of its path in the
/// driver's path list. It owns the characters of the text and a cursor.
pub struct Scanner {
    pub path_index: usize,
    pub chars: Vec<char>,
    pub pos: usize,
}

impl Scanner {
    /// The scanner's cursor always stands inside (or just past) its text.
    pub open spec fn wf(&self) -> bool {
        self.pos <= self.chars@.len() && self.chars@.len() < usize::MAX
    }

    /// A scan step never rebinds the scanner to another text or source.
    pub open spec fn same_source(&self, other: &Scanner) -> bool {
        self.chars@ == other.chars@ && self.path_index == other.path_index
    }

    /// Builds a scanner over a source text, bound to the index of the
    /// text's path among the driver's resolved paths.
    pub fn new(path_index: usize, input: &str) -> (r: Scanner)
        requires
            input@.len() < usize::MAX,
        ensures
            r.wf(),
            r.chars@ == input@,
            r.pos == 0,
            r.path_index == path_index,
    {
        let n = input.unicode_len();
        let mut chars: Vec<char> = Vec::new();
        let mut i: usize = 0;
        while i < n
            invariant
                n == input@.len(),
                i <= n,
                chars@ == input@.take(i as int),
            decreases n - i,
        {
            let c = input.get_char(i);
            chars.push(c);
            proof {
                assert(chars@ =~= input@.take(i + 1));
            }
            i = i + 1;
        }
        proof {
            assert(input@.take(n as int) =~= input@);
        }
        Scanner { path_index, chars, pos: 0 }
    }

    /// The location of a character offset of this scanner's text.
    pub fn line_and_col(&self, p: usize) -> (l: Location)
        requires
            self.wf(),
            p <= self.chars@.len(),
        ensures
            l == spec_loc(self.path_index as int, self.chars@, p as int),
    {
        line_and_col_of(&self.chars, p, self.path_index)
    }

    /// The text between two character offsets, as a fresh string.
    fn text_range(&self, a: usize, b: usize) -> (t: String)
        requires
            a <= b <= self.chars@.len(),
        ensures
            t@ == self.chars@.subrange(a as int, b as int),
    {
        let mut t = String::new();
        let mut i = a;
        while i < b
            invariant
                a <= i <= b <= self.chars@.len(),
                t@ == self.chars@.subrange(a as int, i as int),
            decreases b - i,
        {
            push_char(&mut t, self.chars[i]);
            proof {
                assert(t@ =~= self.chars@.subrange(a as int, i + 1));
            }
            i = i + 1;
        }
        t
    }

    /// The end of the identifier-continuation run starting at `from`.
    fn id_run_end(&self, from: usize) -> (e: usize)
        requires
            from <= self.chars@.len(),
        ensures
            e == from + id_run_len(self.chars@, from as int),
            from <= e <= self.chars@.len(),
    {
        let n = self.chars.len();
        let mut i = from;
        while i < n && is_id_char(self.chars[i])
            invariant
                from <= i <= n == self.chars@.len(),
                forall|k: int| from <= k < i ==> spec_id_char(self.chars@[k]),
            decreases n - i,
        {
            i = i + 1;
        }
        proof {
            lemma_id_run_is(self.chars@, from as int, i as int);
        }
        i
    }

    /// The end of the alphabetic run starting at `from`.
    fn alpha_run_end(&self, from: usize) -> (e: usize)
        requires
            from <= self.chars@.len(),
        ensures
            e == from + alpha_run_len(self.chars@, from as int),
            from <= e <= self.chars@.len(),
    {
        let n = self.chars.len();
        let mut i = from;
        while i < n && char_alphabetic(self.chars[i])
            invariant
                from <= i <= n == self.chars@.len(),
                forall|k: int| from <= k < i ==> unicode_alphabetic(self.chars@[k]),
            decreases n - i,
        {
            i = i + 1;
        }
        proof {
            lemma_alpha_run_is(self.chars@, from as int, i as int);
        }
        i
    }

    /// The end of the ASCII-digit run starting at `from`.
    fn digit_run_end(&self, from: usize) -> (e: usize)
        requires
            from <= self.chars@.len(),
        ensures
            e == from + digit_run_len(self.chars@, from as int),
            from <= e <= self.chars@.len(),
    {
        let n = self.chars.len();
        let mut i = from;
        while i < n && is_ascii_digit_char(self.chars[i])
            invariant
                from <= i <= n == self.chars@.len(),
                forall|k: int| from <= k < i ==> spec_ascii_digit(self.chars@[k]),
            decreases n - i,
        {
            i = i + 1;
        }
        proof {
            lemma_digit_run_is(self.chars@, from as int, i as int);
        }
        i
    }

    fn lexical_err(&self, at: usize, msg: &str) -> (e: CompilationError)
        requires
            self.wf(),
            at <= self.chars@.len(),
        ensures
            e matches CompilationError::LexicalError(l, m) && l == spec_loc(
                self.path_index as int,
                self.chars@,
                at as int,
            ) && m@ == msg@,
    {
        let mut m = String::new();
        crate::location::append_lit(&mut m, msg);
        CompilationError::LexicalError(self.line_and_col(at), m)
    }

    /// Decodes the escape whose introducing character stands at offset `i`
    /// (just past the backslash).
    fn scan_escape(&self, i: usize) -> (r: EscOutcome)
        requires
            self.wf(),
            i <= self.chars@.len(),
        ensures
            match spec_escape(self.chars@, i as int) {
                EscScan::Accept { code, next } => r matches EscOutcome::Good { c, next: n2 } && c
                    as u32 == code && n2 == next,
                EscScan::Reject(f) => r matches EscOutcome::Bad { err, next: n2 } && n2 == f.next
                    && fail_to_err(self.path_index as int, self.chars@, f, err),
            },
    {
        let n = self.chars.len();
        if i >= n {
            let mut m = String::new();
            crate::location::append_lit(&mut m, "unterminated escape sequence");
            return EscOutcome::Bad {
                err: CompilationError::InvalidEscape(self.line_and_col(n), m),
                next: n,
            };
        }
        let c = self.chars[i];
        match c {
            '\\' => EscOutcome::Good { c: '\\', next: i + 1 },
            'n' => EscOutcome::Good { c: '\n', next: i + 1 },
            'r' => EscOutcome::Good { c: '\r', next: i + 1 },
            '0' => EscOutcome::Good { c: '\0', next: i + 1 },
            't' => EscOutcome::Good { c: '\t', next: i + 1 },
            '"' => EscOutcome::Good { c: '"', next: i + 1 },
            'x' => self.scan_escape_hex2(i),
            'u' => self.scan_escape_unicode(i),
            _ => {
                let mut m = String::new();
                push_char(&mut m, c);
                EscOutcome::Bad {
                    err: CompilationError::InvalidEscape(self.line_and_col(i), m),
                    next: i,
                }
            },
        }
    }

    fn scan_escape_hex2(&self, i: usize) -> (r: EscOutcome)
        requires
            self.wf(),
            i < self.chars@.len(),
            self.chars@[i as int] == 'x',
        ensures
            match spec_escape_hex2(self.chars@, i as int) {
                EscScan::Accept { code, next } => r matches EscOutcome::Good { c, next: n2 } && c
                    as u32 == code && n2 == next,
                EscScan::Reject(f) => r matches EscOutcome::Bad { err, next: n2 } && n2 == f.next
                    && fail_to_err(self.path_index as int, self.chars@, f, err),
            },
    {
        let n = self.chars.len();
        if i + 1 >= n {
            return EscOutcome::Bad {
                err: self.lexical_err(n, "Expected at least 2 characters"),
                next: n,
            };
        }
        if !is_ascii_hexdigit_char(self.chars[i + 1]) {
            return EscOutcome::Bad {
                err: self.lexical_err(i + 1, "Invalid token: Expected at least 2 chars"),
                next: i + 1,
            };
        }
        if i + 2 >= n {
            return EscOutcome::Bad {
                err: self.lexical_err(n, "Expected at least 2 characters"),
                next: n,
            };
        }
        if !is_ascii_hexdigit_char(self.chars[i + 2]) {
            return EscOutcome::Bad {
                err: self.lexical_err(i + 2, "Invalid token: Expected at least 2 chars"),
                next: i + 2,
            };
        }
        let v: u32 = hex_value(self.chars[i + 1]) * 16 + hex_value(self.chars[i + 2]);
        match char_from_u32(v) {
            Some(c) => EscOutcome::Good { c, next: i + 3 },
            None => {
                proof {
                    assert(false);
                }
                EscOutcome::Bad { err: CompilationError::Descriptive(String::new()), next: i + 3 }
            },
        }
    }

    fn scan_escape_unicode(&self, i: usize) -> (r: EscOutcome)
        requires
            self.wf(),
            i < self.chars@.len(),
            self.chars@[i as int] == 'u',
        ensures
            match spec_escape_unicode(self.chars@, i as int) {
                EscScan::Accept { code, next } => r matches EscOutcome::Good { c, next: n2 } && c
                    as u32 == code && n2 == next,
                EscScan::Reject(f) => r matches EscOutcome::Bad { err, next: n2 } && n2 == f.next
                    && fail_to_err(self.path_index as int, self.chars@, f, err),
            },
    {
        let ghost s = self.chars@;
        let n = self.chars.len();
        if i + 1 >= n {
            return EscOutcome::Bad {
                err: self.lexical_err(n, "Expected character, but saw EOF"),
                next: n,
            };
        }
        if self.chars[i + 1] != '{' {
            let mut m = String::new();
            crate::location::append_lit(&mut m, "Expected '{', but saw '");
            push_char(&mut m, self.chars[i + 1]);
            crate::location::append_lit(&mut m, "'");
            proof {
                assert(m@ =~= "Expected '{', but saw '"@ + seq![s[i + 1]] + "'"@);
            }
            return EscOutcome::Bad {
                err: CompilationError::LexicalError(self.line_and_col(i + 1), m),
                next: i + 1,
            };
        }
        // the run of up to six hex digits after the brace
        let start = i + 2;
        let mut j = start;
        while j < n && j - start < 6 && is_ascii_hexdigit_char(self.chars[j])
            invariant
                start <= j <= n == self.chars@.len(),
                j - start <= 6,
                forall|t: int| start <= t < j ==> spec_ascii_hexdigit(self.chars@[t]),
            decreases n - j,
        {
            j = j + 1;
        }
        proof {
            lemma_hex_run_is(s, start as int, j as int, 6);
        }
        if j == start {
            if start >= n {
                return EscOutcome::Bad {
                    err: self.lexical_err(n, "Expected at least 1 characters"),
                    next: n,
                };
            }
            return EscOutcome::Bad {
                err: self.lexical_err(start, "Invalid token: Expected at least 1 chars"),
                next: start,
            };
        }
        if j >= n {
            return EscOutcome::Bad {
                err: self.lexical_err(n, "Expected character, but saw EOF"),
                next: n,
            };
        }
        if self.chars[j] != '}' {
            let mut m = String::new();
            crate::location::append_lit(&mut m, "Expected '}', but saw '");
            push_char(&mut m, self.chars[j]);
            crate::location::append_lit(&mut m, "'");
            proof {
                assert(m@ =~= "Expected '}', but saw '"@ + seq![s[j as int]] + "'"@);
            }
            return EscOutcome::Bad {
                err: CompilationError::LexicalError(self.line_and_col(j), m),
                next: j,
            };
        }
        // the digits' value; at most six digits, so it fits well under u32
        let mut v: u32 = 0;
        let mut t = start;
        while t < j
            invariant
                s == self.chars@,
                start <= t <= j <= self.chars@.len(),
                j - start <= 6,
                forall|k: int| start <= k < j ==> spec_ascii_hexdigit(self.chars@[k]),
                v == hex_seq_value(self.chars@, start as int, (t - start) as nat),
                v < 0x1000000,
            decreases j - t,
        {
            let d = hex_value(self.chars[t]);
            proof {
                assert forall|q: int| start <= q < t + 1 implies spec_ascii_hexdigit(s[q]) by {}
                lemma_hex_value_bound(s, start as int, (t + 1 - start) as nat);
                lemma_p16_mono((t + 1 - start) as nat, 6);
                reveal_with_fuel(p16, 7);
                assert(p16(6) == 0x1000000);
                assert(hex_seq_value(s, start as int, (t + 1 - start) as nat) == hex_seq_value(
                    s,
                    start as int,
                    (t - start) as nat,
                ) * 16 + spec_hex_value(s[t as int]));
            }
            v = v * 16 + d;
            t = t + 1;
        }
        if v < 0xD800 || (0xE000 <= v && v <= 0x10FFFF) {
            match char_from_u32(v) {
                Some(c) => EscOutcome::Good { c, next: j + 1 },
                None => {
                    proof {
                        assert(false);
                    }
                    EscOutcome::Bad {
                        err: CompilationError::Descriptive(String::new()),
                        next: j + 1,
                    }
                },
            }
        } else {
            let mut m = String::new();
            crate::location::append_lit(&mut m, "invalid unicode scalar value");
            EscOutcome::Bad {
                err: CompilationError::InvalidEscape(self.line_and_col(i), m),
                next: j + 1,
            }
        }
    }

    /// Scans an identifier or keyword whose first character stands at `p`.
    fn scan_ident_or_keyword(&mut self, p: usize) -> (r: ScannerResult)
        requires
            old(self).wf(),
            p < old(self).chars@.len(),
        ensures
            final(self).wf(),
            final(self).same_source(old(self)),
            ident_result(final(self).path_index as int, final(self).chars@, p as int, r, final(self).pos as int),
    {
        let e = self.id_run_end(p + 1);
        let text = self.text_range(p, e);
        let l1 = self.line_and_col(p);
        let l2 = self.line_and_col(e);
        let tok = classify_word(text);
        self.pos = e;
        Some(Ok((l1, tok, l2)))
    }

    /// Scans an upper-name whose first character stands at `p`.
    fn scan_upper_ident(&mut self, p: usize) -> (r: ScannerResult)
        requires
            old(self).wf(),
            p < old(self).chars@.len(),
        ensures
            final(self).wf(),
            final(self).same_source(old(self)),
            upper_result(final(self).path_index as int, final(self).chars@, p as int, r, final(self).pos as int),
    {
        let e = self.id_run_end(p + 1);
        let text = self.text_range(p, e);
        let l1 = self.line_and_col(p);
        let l2 = self.line_and_col(e);
        self.pos = e;
        Some(Ok((l1, Token::UName(text), l2)))
    }

    /// Scans an at-keyword whose sigil stands at `p`.
    fn scan_at_ident(&mut self, p: usize) -> (r: ScannerResult)
        requires
            old(self).wf(),
            p < old(self).chars@.len(),
        ensures
            final(self).wf(),
            final(self).same_source(old(self)),
            at_result(final(self).path_index as int, final(self).chars@, p as int, r, final(self).pos as int),
    {
        let e = self.alpha_run_end(p + 1);
        let text = self.text_range(p, e);
        let l1 = self.line_and_col(p);
        let l2 = self.line_and_col(e);
        self.pos = e;
        match crate::token::keyword_token(&text) {
            Some(t) => Some(Ok((l1, t, l2))),
            None => Some(Err(CompilationError::InvalidAtToken(l1, text))),
        }
    }

    /// Scans a type-var whose sigil stands at `p`.
    fn scan_type_var(&mut self, p: usize) -> (r: ScannerResult)
        requires
            old(self).wf(),
            p < old(self).chars@.len(),
        ensures
            final(self).wf(),
            final(self).same_source(old(self)),
            tv_result(final(self).path_index as int, final(self).chars@, p as int, r, final(self).pos as int),
    {
        let e = self.alpha_run_end(p + 1);
        self.pos = e;
        if e - p < 2 {
            Some(Err(self.lexical_err(p, "Type var must have at least one letter after its sigil")))
        } else {
            let text = self.text_range(p, e);
            let l1 = self.line_and_col(p);
            let l2 = self.line_and_col(e);
            Some(Ok((l1, Token::TVName(text), l2)))
        }
    }

    /// Scans a context-var whose sigil stands at `p`.
    fn scan_context_var(&mut self, p: usize) -> (r: ScannerResult)
        requires
            old(self).wf(),
            p < old(self).chars@.len(),
        ensures
            final(self).wf(),
            final(self).same_source(old(self)),
            ctx_result(final(self).path_index as int, final(self).chars@, p as int, r, final(self).pos as int),
    {
        let e = self.id_run_end(p + 1);
        self.pos = e;
        if e - p < 2 {
            Some(
                Err(
                    self.lexical_err(
                        p,
                        "Context var must have at least one letter after its sigil",
                    ),
                ),
            )
        } else {
            let text = self.text_range(p, e);
            let l1 = self.line_and_col(p);
            let l2 = self.line_and_col(e);
            Some(Ok((l1, Token::CName(text), l2)))
        }
    }

    /// Scans a numeric literal from `p`: an optional minus sign, digits, an
    /// optional fraction and exponent. An integer that does not fit a
    /// 64-bit signed value is a lexical error, not a panic.
    fn scan_number(&mut self, p: usize) -> (r: ScannerResult)
        requires
            old(self).wf(),
            p < old(self).chars@.len(),
            unicode_decimal_digit(old(self).chars@[p as int]) || (old(self).chars@[p as int] == '-'
                && p + 1 < old(self).chars@.len() && unicode_decimal_digit(
                old(self).chars@[p + 1],
            )),
        ensures
            final(self).wf(),
            final(self).same_source(old(self)),
            number_result(final(self).path_index as int, final(self).chars@, p as int, r, final(self).pos as int),
    {
        let ghost s = self.chars@;
        let n = self.chars.len();
        let neg = self.chars[p] == '-';
        let q = if neg {
            p + 1
        } else {
            p
        };
        let e0 = self.digit_run_end(q);
        if e0 == q {
            self.pos = if q < n {
                q + 1
            } else {
                n
            };
            return Some(Err(self.lexical_err(p, "Invalid numeric literal")));
        }
        proof {
            crate::chars::lemma_digit_run_bounds(s, q as int);
        }
        if e0 < n && self.chars[e0] == '.' {
            // a float literal: keep the exact source text
            let f_end = self.digit_run_end(e0 + 1);
            let e = if f_end < n && self.chars[f_end] == 'e' {
                let x0 = if f_end + 1 < n && self.chars[f_end + 1] == '-' {
                    f_end + 2
                } else {
                    f_end + 1
                };
                self.digit_run_end(x0)
            } else {
                f_end
            };
            let text = self.text_range(p, e);
            let l1 = self.line_and_col(p);
            let l2 = self.line_and_col(e);
            self.pos = e;
            return Some(Ok((l1, Token::FloatLit(text), l2)));
        }
        // an integer literal: accumulate its value, watching for overflow
        let mut v: u64 = 0;
        let mut big = false;
        let mut t = q;
        while t < e0
            invariant
                s == self.chars@,
                p <= q <= t <= e0 <= s.len(),
                e0 == q + digit_run_len(s, q as int),
                forall|k: int| q <= k < e0 ==> spec_ascii_digit(s[k]),
                !big ==> v == dec_seq_value(s, q as int, (t - q) as nat),
                big ==> dec_seq_value(s, q as int, (t - q) as nat) > u64::MAX,
            decreases e0 - t,
        {
            let c = self.chars[t];
            let d: u64 = (c as u32 - 48) as u64;
            proof {
                lemma_dec_value_mono(s, q as int, (t - q) as nat, (t + 1 - q) as nat);
                lemma_dec_value_nonneg(s, q as int, (t - q) as nat);
                assert(dec_seq_value(s, q as int, (t + 1 - q) as nat) == dec_seq_value(
                    s,
                    q as int,
                    (t - q) as nat,
                ) * 10 + (s[t as int] as u32 - 48));
            }
            if big {
                // the value already exceeds the integer range; more digits
                // only grow it
            } else if v > 1844674407370955160 {
                if v > 1844674407370955161 || d > 5 {
                    big = true;
                } else {
                    v = v * 10 + d;
                }
            } else {
                v = v * 10 + d;
            }
            t = t + 1;
        }
        let l1 = self.line_and_col(p);
        let l2 = self.line_and_col(e0);
        self.pos = e0;
        if big {
            return Some(Err(self.lexical_err(p, "Integer literal out of range")));
        }
        if neg {
            if v > 9223372036854775808u64 {
                Some(Err(self.lexical_err(p, "Integer literal out of range")))
            } else if v == 9223372036854775808u64 {
                Some(Ok((l1, Token::IntLit(i64::MIN), l2)))
            } else {
                Some(Ok((l1, Token::IntLit(-(v as i64)), l2)))
            }
        } else {
            if v > 9223372036854775807u64 {
                Some(Err(self.lexical_err(p, "Integer literal out of range")))
            } else {
                Some(Ok((l1, Token::IntLit(v as i64), l2)))
            }
        }
    }

    /// Scans a string literal from its opening quote at `p`, decoding
    /// escapes into the token's value.
    fn scan_string(&mut self, p: usize) -> (r: ScannerResult)
        requires
            old(self).wf(),
            p < old(self).chars@.len(),
        ensures
            final(self).wf(),
            final(self).same_source(old(self)),
            string_result(final(self).path_index as int, final(self).chars@, p as int, r, final(self).pos as int),
    {
        let ghost s = self.chars@;
        let n = self.chars.len();
        let mut value = String::new();
        let mut j = p + 1;
        proof {
            let a = spec_string_body(s, p + 1);
            if let StrScan::Closed { value: v0, close } = a {
                assert(v0 =~= Seq::<char>::empty() + v0);
            }
        }
        loop
            invariant
                s == self.chars@,
                self.chars@ == old(self).chars@,
                self.wf(),
                self.path_index == old(self).path_index,
                p < s.len(),
                p + 1 <= j <= n == s.len(),
                n < usize::MAX,
                str_state(spec_string_body(s, p + 1), value@, spec_string_body(s, j as int)),
            decreases n - j,
        {
            if j >= n {
                self.pos = n;
                return Some(Err(self.lexical_err(p, "Unterminated string literal")));
            }
            let c = self.chars[j];
            if c == '"' {
                proof {
                    let a = spec_string_body(s, p + 1);
                    if let StrScan::Closed { value: v0, close } = a {
                        assert(v0 =~= value@ + Seq::<char>::empty());
                    }
                }
                let l1 = self.line_and_col(p);
                let l2 = self.line_and_col(j + 1);
                self.pos = j + 1;
                return Some(Ok((l1, Token::StringLit(value), l2)));
            }
            if c == '\\' {
                proof {
                    lemma_escape_next(s, j + 1);
                }
                match self.scan_escape(j + 1) {
                    EscOutcome::Good { c: ec, next } => {
                        proof {
                            lemma_char_of_code(ec);
                            let rest = spec_string_body(s, next as int);
                            if let StrScan::Closed { value: v1, close } = rest {
                                assert(value@ + (seq![ec] + v1) =~= value@.push(ec) + v1);
                            }
                        }
                        push_char(&mut value, ec);
                        j = next;
                    },
                    EscOutcome::Bad { err, next } => {
                        self.pos = next;
                        return Some(Err(err));
                    },
                }
            } else {
                proof {
                    let rest = spec_string_body(s, j + 1);
                    if let StrScan::Closed { value: v1, close } = rest {
                        assert(value@ + (seq![s[j as int]] + v1) =~= value@.push(s[j as int]) + v1);
                    }
                }
                push_char(&mut value, c);
                j = j + 1;
            }
        }
    }

    /// Scans a character literal from its opening quote at `p`: one raw
    /// character or one escape, immediately followed by a closing quote.
    fn scan_char_literal(&mut self, p: usize) -> (r: ScannerResult)
        requires
            old(self).wf(),
            p < old(self).chars@.len(),
        ensures
            final(self).wf(),
            final(self).same_source(old(self)),
            char_result(final(self).path_index as int, final(self).chars@, p as int, r, final(self).pos as int),
    {
        let n = self.chars.len();
        if p + 1 >= n {
            self.pos = n;
            return Some(Err(self.lexical_err(p, "Invalid character literal")));
        }
        let c1 = self.chars[p + 1];
        if c1 == '\\' {
            proof {
                lemma_escape_next(self.chars@, p + 2);
            }
            match self.scan_escape(p + 2) {
                EscOutcome::Good { c, next } => {
                    if next < n && self.chars[next] == '\'' {
                        let l1 = self.line_and_col(p);
                        let l2 = self.line_and_col(next);
                        self.pos = next + 1;
                        Some(Ok((l1, Token::CharLit(c), l2)))
                    } else {
                        self.pos = next;
                        Some(Err(self.lexical_err(p, "Unterminated char literal")))
                    }
                },
                EscOutcome::Bad { err, next } => {
                    self.pos = next;
                    Some(Err(err))
                },
            }
        } else {
            if p + 2 < n && self.chars[p + 2] == '\'' {
                let l1 = self.line_and_col(p);
                let l2 = self.line_and_col(p + 2);
                self.pos = p + 3;
                Some(Ok((l1, Token::CharLit(c1), l2)))
            } else if p + 2 < n {
                self.pos = p + 2;
                Some(Err(self.lexical_err(p + 2, "Invalid character literal")))
            } else {
                self.pos = n;
                Some(Err(self.lexical_err(n, "Invalid character literal")))
            }
        }
    }

    /// Scans the next token: skips whitespace and comments, then yields
    /// the token or error the next significant character produces, or
    /// nothing at end of input. Never panics, and always moves forward
    /// past what it consumed.
    pub fn scan_token(&mut self) -> (r: ScannerResult)
        requires
            old(self).wf(),
        ensures
            final(self).wf(),
            final(self).same_source(old(self)),
            spec_scan_result(
                final(self).path_index as int,
                final(self).chars@,
                old(self).pos as int,
                r,
                final(self).pos as int,
            ),
    {
        let ghost s = old(self).chars@;
        let ghost i0 = old(self).pos as int;
        let n = self.chars.len();
        loop
            invariant_except_break
                s == self.chars@,
                self.chars@ == old(self).chars@,
                i0 == old(self).pos as int,
                self.wf(),
                self.path_index == old(self).path_index,
                n == s.len(),
                spec_trivia(s, i0) == spec_trivia(s, self.pos as int),
            ensures
                s == self.chars@,
                self.chars@ == old(self).chars@,
                i0 == old(self).pos as int,
                self.wf(),
                self.path_index == old(self).path_index,
                n == s.len(),
                spec_trivia(s, i0) == Trivia::AtChar(self.pos as int),
                self.pos < n,
            decreases n - self.pos,
        {
            if self.pos >= n {
                return None;
            }
            let c = self.chars[self.pos];
            if c == ' ' || c == '\n' || c == '\t' {
                self.pos = self.pos + 1;
                continue ;
            }
            if c == '/' && self.pos + 1 < n {
                let c2 = self.chars[self.pos + 1];
                if c2 == '/' {
                    // a line comment: skip to just past the next newline
                    let mut j = self.pos + 1;
                    while j < n && self.chars[j] != '\n'
                        invariant
                            s == self.chars@,
                            self.chars@ == old(self).chars@,
                            i0 == old(self).pos as int,
                            self.wf(),
                            self.path_index == old(self).path_index,
                            n == s.len(),
                            self.pos < j <= n,
                            spec_after_line_comment(s, j as int) == spec_trivia(s, i0),
                        decreases n - j,
                    {
                        j = j + 1;
                    }
                    if j >= n {
                        self.pos = n;
                        return None;
                    }
                    self.pos = j + 1;
                    continue ;
                }
                if c2 == '*' {
                    // a block comment: skip to just past the first `*/`
                    let opener = self.pos;
                    let ghost pos0 = self.pos;
                    let mut j = self.pos + 1;
                    loop
                        invariant_except_break
                            self.pos == pos0,
                            s == self.chars@,
                            self.chars@ == old(self).chars@,
                            i0 == old(self).pos as int,
                            self.wf(),
                            self.path_index == old(self).path_index,
                            n == s.len(),
                            opener <= n,
                            self.pos < j <= n,
                            spec_after_block_comment(s, opener as int, j as int) == spec_trivia(
                                s,
                                i0,
                            ),
                        ensures
                            self.pos == pos0,
                            s == self.chars@,
                            self.chars@ == old(self).chars@,
                            i0 == old(self).pos as int,
                            self.wf(),
                            self.path_index == old(self).path_index,
                            n == s.len(),
                            self.pos < j + 2 <= n,
                            spec_trivia(s, i0) == spec_trivia(s, j + 2),
                        decreases n - j,
                    {
                        if j >= n {
                            self.pos = n;
                            return Some(
                                Err(
                                    CompilationError::UnterminatedComment(
                                        self.line_and_col(opener),
                                    ),
                                ),
                            );
                        }
                        if self.chars[j] == '*' && j + 1 < n && self.chars[j + 1] == '/' {
                            break ;
                        }
                        j = j + 1;
                    }
                    self.pos = j + 2;
                    continue ;
                }
            }
            break ;
        }
        // dispatch on the significant character
        let p = self.pos;
        let c = self.chars[p];
        if c == '(' {
            self.pos = p + 1;
            Some(Ok((self.line_and_col(p), Token::LParen, self.line_and_col(p + 1))))
        } else if c == ')' {
            self.pos = p + 1;
            Some(Ok((self.line_and_col(p), Token::RParen, self.line_and_col(p + 1))))
        } else if c == '{' {
            self.pos = p + 1;
            Some(Ok((self.line_and_col(p), Token::LCurly, self.line_and_col(p + 1))))
        } else if c == '}' {
            self.pos = p + 1;
            Some(Ok((self.line_and_col(p), Token::RCurly, self.line_and_col(p + 1))))
        } else if c == ']' {
            self.pos = p + 1;
            Some(Ok((self.line_and_col(p), Token::RBracket, self.line_and_col(p + 1))))
        } else if c == '.' {
            self.pos = p + 1;
            Some(Ok((self.line_and_col(p), Token::Dot, self.line_and_col(p + 1))))
        } else if c == ',' {
            self.pos = p + 1;
            Some(Ok((self.line_and_col(p), Token::Comma, self.line_and_col(p + 1))))
        } else if c == '[' {
            if p + 1 < n && self.chars[p + 1] == '|' {
                self.pos = p + 2;
                Some(Ok((self.line_and_col(p), Token::LBracketBar, self.line_and_col(p + 2))))
            } else {
                self.pos = p + 1;
                Some(Ok((self.line_and_col(p), Token::LBracket, self.line_and_col(p + 1))))
            }
        } else if c == '|' {
            if p + 1 < n && self.chars[p + 1] == ']' {
                self.pos = p + 2;
                Some(Ok((self.line_and_col(p), Token::RBracketBar, self.line_and_col(p + 2))))
            } else {
                self.scan_ident_or_keyword(p)
            }
        } else if c == '@' {
            self.scan_at_ident(p)
        } else if c == '$' {
            self.scan_context_var(p)
        } else if c == '`' {
            self.scan_type_var(p)
        } else if char_decimal_digit(c) {
            self.scan_number(p)
        } else if c == '-' {
            if p + 1 < n && char_decimal_digit(self.chars[p + 1]) {
                self.scan_number(p)
            } else {
                self.scan_ident_or_keyword(p)
            }
        } else if c == '"' {
            self.scan_string(p)
        } else if c == '\'' {
            self.scan_char_literal(p)
        } else if c == ':' {
            self.pos = p + 1;
            Some(Ok((self.line_and_col(p), Token::Colon, self.line_and_col(p + 1))))
        } else if is_lname_start_char(c) {
            self.scan_ident_or_keyword(p)
        } else if is_uname_start_char(c) {
            self.scan_upper_ident(p)
        } else {
            self.pos = p + 1;
            Some(Err(self.lexical_err(p, "Invalid char")))
        }
    }
}

/// How one string-literal scan relates to the rest still to scan: the
/// final outcome `a` is the outcome `b` of the rest, with the already
/// decoded prefix in front.
pub open spec fn str_state(a: StrScan, prefix: Seq<char>, b: StrScan) -> bool {
    match (a, b) {
        (
            StrScan::Closed { value: v0, close: c0 },
            StrScan::Closed { value: v1, close: c1 },
        ) => v0 == prefix + v1 && c0 == c1,
        (StrScan::Unterminated, StrScan::Unterminated) => true,
        (StrScan::BadEscape(f0), StrScan::BadEscape(f1)) => f0 == f1,
        _ => false,
    }
}

} // verus!

verus! {

proof fn lemma_string_body_bounds(s: Seq<char>, j: int)
    requires
        0 <= j <= s.len(),
    ensures
        match spec_string_body(s, j) {
            StrScan::Closed { value, close } => j <= close < s.len(),
            StrScan::Unterminated => true,
            StrScan::BadEscape(f) => j < f.next <= s.len(),
        },
    decreases s.len() - j,
{
    if j < s.len() && s[j] != '"' {
        if s[j] == '\\' {
            lemma_escape_next(s, j + 1);
            match spec_escape(s, j + 1) {
                EscScan::Accept { code, next } => {
                    lemma_string_body_bounds(s, next);
                },
                EscScan::Reject(f) => {
                    if f.next <= j {
                        assert(false);
                    }
                },
            }
        } else {
            lemma_string_body_bounds(s, j + 1);
        }
    }
}

proof fn lemma_trivia_bounds(s: Seq<char>, i: int)
    requires
        0 <= i <= s.len(),
    ensures
        match spec_trivia(s, i) {
            Trivia::AtEnd => true,
            Trivia::AtChar(p) => i <= p < s.len(),
            Trivia::BadComment(op) => i <= op < s.len(),
        },
    decreases s.len() - i,
{
    if i < s.len() {
        if s[i] == ' ' || s[i] == '\n' || s[i] == '\t' {
            lemma_trivia_bounds(s, i + 1);
        } else if s[i] == '/' && i + 1 < s.len() && s[i + 1] == '/' {
            lemma_after_line_bounds(s, i + 1);
        } else if s[i] == '/' && i + 1 < s.len() && s[i + 1] == '*' {
            lemma_after_block_bounds(s, i, i + 1);
        }
    }
}

proof fn lemma_after_line_bounds(s: Seq<char>, j: int)
    requires
        0 <= j <= s.len(),
    ensures
        match spec_after_line_comment(s, j) {
            Trivia::AtEnd => true,
            Trivia::AtChar(p) => j <= p < s.len(),
            Trivia::BadComment(op) => j <= op < s.len(),
        },
    decreases s.len() - j,
{
    if j < s.len() {
        if s[j] == '\n' {
            lemma_trivia_bounds(s, j + 1);
        } else {
            lemma_after_line_bounds(s, j + 1);
        }
    }
}

proof fn lemma_after_block_bounds(s: Seq<char>, opener: int, j: int)
    requires
        0 <= opener < s.len(),
        opener < j <= s.len(),
    ensures
        match spec_after_block_comment(s, opener, j) {
            Trivia::AtEnd => true,
            Trivia::AtChar(p) => opener <= p < s.len(),
            Trivia::BadComment(op) => opener <= op < s.len(),
        },
    decreases s.len() - j,
{
    if j < s.len() {
        if s[j] == '*' && j + 1 < s.len() && s[j + 1] == '/' {
            lemma_trivia_bounds(s, j + 2);
        } else {
            lemma_after_block_bounds(s, opener, j + 1);
        }
    }
}

/// One scan step always makes progress: it either ends exactly at end of
/// input with no item, or it moves the scanner strictly forward and never
/// past the end. A caller that scans in a loop therefore terminates, and a
/// malformed construct yields its one error item and is skipped past.
pub proof fn lemma_scan_token_progress(
    src: int,
    s: Seq<char>,
    i0: int,
    r: ScannerResult,
    i1: int,
)
    requires
        0 <= i0 <= s.len(),
        spec_scan_result(src, s, i0, r, i1),
    ensures
        i0 < i1 <= s.len() || (r is None && i1 == s.len()),
{
    lemma_trivia_bounds(s, i0);
    match spec_trivia(s, i0) {
        Trivia::AtEnd => {},
        Trivia::BadComment(op) => {},
        Trivia::AtChar(p) => {
            let c = s[p];
            crate::chars::lemma_id_run_bounds(s, p + 1);
            crate::chars::lemma_alpha_run_bounds(s, p + 1);
            if c == '(' || c == ')' || c == '{' || c == '}' || c == ']' || c == '.' || c == ','
                || c == '[' || c == '|' || c == '@' || c == '$' || c == '`' {
            } else if unicode_decimal_digit(c) {
                lemma_number_progress(src, s, p, r, i1);
            } else if c == '-' {
                if p + 1 < s.len() && unicode_decimal_digit(s[p + 1]) {
                    lemma_number_progress(src, s, p, r, i1);
                }
            } else if c == '"' {
                lemma_string_body_bounds(s, p + 1);
            } else if c == '\'' {
                if p + 1 < s.len() && s[p + 1] == '\\' {
                    lemma_escape_next(s, p + 2);
                }
            } else {
            }
        },
    }
}

proof fn lemma_number_progress(src: int, s: Seq<char>, p: int, r: ScannerResult, i1: int)
    requires
        0 <= p < s.len(),
        unicode_decimal_digit(s[p]) || (s[p] == '-' && p + 1 < s.len() && unicode_decimal_digit(
            s[p + 1],
        )),
        number_result(src, s, p, r, i1),
    ensures
        p < i1 <= s.len(),
{
    let q = if s[p] == '-' {
        p + 1
    } else {
        p
    };
    let d = digit_run_len(s, q);
    crate::chars::lemma_digit_run_bounds(s, q);
    if d > 0 {
        let e0 = q + d;
        if e0 < s.len() && s[e0] == '.' {
            let f = digit_run_len(s, e0 + 1);
            crate::chars::lemma_digit_run_bounds(s, e0 + 1);
            let fe = e0 + 1 + f;
            if fe < s.len() && s[fe] == 'e' {
                let x0 = if fe + 1 < s.len() && s[fe + 1] == '-' {
                    fe + 2
                } else {
                    fe + 1
                };
                crate::chars::lemma_digit_run_bounds(s, x0);
            }
        }
    }
}

} // verus!
