//! The closed error taxonomy.
//!
//! Every fallible step of the front end (find file, read file, scan, parse)
//! reports one of these kinds, and every kind that concerns a place in the
//! source carries a `Location`. The external parser's failures are mapped
//! one-to-one into this taxonomy from their plain-value form
//! (`ParseFailure`); a failure the scanner produced passes through
//! unchanged.

use vstd::prelude::*;
use crate::ast::ModulePath;
use crate::ast::spec_join;
use crate::ast::join_strings;
use crate::location::Location;
use crate::location::append_lit;
use crate::location::spec_loc_text;
use crate::token::Token;
use crate::token::spec_token_text;

verus! {

#[derive(Debug, PartialEq, Clone)]
pub enum CompilationError {
    /// A token the grammar can never accept.
    InvalidToken(Location),
    /// A token that is not legal at this parse position, with the legal
    /// alternatives.
    UnrecognizedToken(Location, Token, Vec<String>),
    /// An extra trailing token.
    UnexpectedToken(Location, Token),
    /// A block comment still open at end of input.
    UnterminatedComment(Location),
    /// A malformed escape in a string or character literal.
    InvalidEscape(Location, String),
    /// Any other scanner failure, with a message.
    LexicalError(Location, String),
    /// A module of the dependency closure with no file behind it.
    ModuleNotFoundError(ModulePath),
    /// An at-prefixed word that is not a reserved at-keyword.
    InvalidAtToken(Location, String),
    /// Input ended while more was expected, with the alternatives.
    EOF { location: Location, expected: Vec<String> },
    /// An underlying file-system failure, by its message.
    IO(String),
    /// A free-text fallback.
    Descriptive(String),
}

/// A failure reported by the external parser, as plain values. The thin
/// layer around the parser converts the parser library's error into this
/// shape; the mapping into the taxonomy below is then exact.
#[derive(Debug, PartialEq, Clone)]
pub enum ParseFailure {
    InvalidToken { location: Location },
    UnrecognizedEof { location: Location, expected: Vec<String> },
    UnrecognizedToken { start: Location, token: Token, expected: Vec<String> },
    ExtraToken { start: Location, token: Token },
    User { error: CompilationError },
}

impl CompilationError {
    /// Maps a parser failure one-to-one into the taxonomy: an
    /// invalid-token failure becomes `InvalidToken`, end-of-input becomes
    /// `EOF`, an unrecognized token keeps its alternatives, an extra token
    /// becomes `UnexpectedToken`, and a failure the scanner already
    /// produced passes through unchanged.
    pub fn from_parse_failure(f: ParseFailure) -> (r: CompilationError)
        ensures
            r == match f {
                ParseFailure::InvalidToken { location } => CompilationError::InvalidToken(
                    location,
                ),
                ParseFailure::UnrecognizedEof { location, expected } => CompilationError::EOF {
                    location,
                    expected,
                },
                ParseFailure::UnrecognizedToken { start, token, expected } =>
                    CompilationError::UnrecognizedToken(start, token, expected),
                ParseFailure::ExtraToken { start, token } => CompilationError::UnexpectedToken(
                    start,
                    token,
                ),
                ParseFailure::User { error } => error,
            },
    {
        match f {
            ParseFailure::InvalidToken { location } => CompilationError::InvalidToken(location),
            ParseFailure::UnrecognizedEof { location, expected } => CompilationError::EOF {
                location,
                expected,
            },
            ParseFailure::UnrecognizedToken { start, token, expected } =>
                CompilationError::UnrecognizedToken(start, token, expected),
            ParseFailure::ExtraToken { start, token } => CompilationError::UnexpectedToken(
                start,
                token,
            ),
            ParseFailure::User { error } => error,
        }
    }
}

/// The user-facing message of an error.
pub open spec fn spec_error_text(e: CompilationError) -> Seq<char> {
    match e {
        CompilationError::LexicalError(l, m) => "Lexical error "@ + m@ + " at "@ + spec_loc_text(
            l,
        ),
        CompilationError::IO(m) => m@,
        CompilationError::Descriptive(d) => d@,
        CompilationError::InvalidToken(l) => "Invalid token at "@ + spec_loc_text(l),
        CompilationError::UnrecognizedToken(l, t, expected) => "Unrecognized token "@
            + spec_token_text(t) + " while expecting one of "@ + spec_join(
            expected.deep_view(),
            ", "@,
        ) + " at "@ + spec_loc_text(l),
        CompilationError::UnexpectedToken(l, t) => "Unexpected token "@ + spec_token_text(t)
            + " at "@ + spec_loc_text(l),
        CompilationError::UnterminatedComment(l) => "Unterminated comment at "@ + spec_loc_text(l),
        CompilationError::InvalidEscape(l, c) => "Invalid escape character '"@ + c@ + "' at "@
            + spec_loc_text(l),
        CompilationError::EOF { location, expected } => "Reached EOF while expecting "@
            + spec_join(expected.deep_view(), ", "@) + " at "@ + spec_loc_text(location),
        CompilationError::InvalidAtToken(l, t) => "Invalid at-token "@ + t@ + " at "@
            + spec_loc_text(l),
        CompilationError::ModuleNotFoundError(p) => "Module "@ + p.0@ + " not found"@,
    }
}

impl CompilationError {
    /// Renders the user-facing message; every location-carrying kind
    /// renders its location.
    pub fn message(&self) -> (s: String)
        ensures
            s@ == spec_error_text(*self),
    {
        match self {
            CompilationError::LexicalError(l, m) => {
                let mut s = String::new();
                append_lit(&mut s, "Lexical error ");
                s.append(m.as_str());
                append_lit(&mut s, " at ");
                let lt = l.render();
                s.append(lt.as_str());
                assert(s@ =~= spec_error_text(*self));
                s
            },
            CompilationError::IO(m) => {
                let mut s = String::new();
                s.append(m.as_str());
                s
            },
            CompilationError::Descriptive(d) => {
                let mut s = String::new();
                s.append(d.as_str());
                s
            },
            CompilationError::InvalidToken(l) => {
                let mut s = String::new();
                append_lit(&mut s, "Invalid token at ");
                let lt = l.render();
                s.append(lt.as_str());
                assert(s@ =~= spec_error_text(*self));
                s
            },
            CompilationError::UnrecognizedToken(l, t, expected) => {
                let mut s = String::new();
                append_lit(&mut s, "Unrecognized token ");
                let tt = t.to_text();
                s.append(tt.as_str());
                append_lit(&mut s, " while expecting one of ");
                let et = join_strings(expected, ", ");
                s.append(et.as_str());
                append_lit(&mut s, " at ");
                let lt = l.render();
                s.append(lt.as_str());
                assert(s@ =~= spec_error_text(*self));
                s
            },
            CompilationError::UnexpectedToken(l, t) => {
                let mut s = String::new();
                append_lit(&mut s, "Unexpected token ");
                let tt = t.to_text();
                s.append(tt.as_str());
                append_lit(&mut s, " at ");
                let lt = l.render();
                s.append(lt.as_str());
                assert(s@ =~= spec_error_text(*self));
                s
            },
            CompilationError::UnterminatedComment(l) => {
                let mut s = String::new();
                append_lit(&mut s, "Unterminated comment at ");
                let lt = l.render();
                s.append(lt.as_str());
                assert(s@ =~= spec_error_text(*self));
                s
            },
            CompilationError::InvalidEscape(l, c) => {
                let mut s = String::new();
                append_lit(&mut s, "Invalid escape character '");
                s.append(c.as_str());
                append_lit(&mut s, "' at ");
                let lt = l.render();
                s.append(lt.as_str());
                assert(s@ =~= spec_error_text(*self));
                s
            },
            CompilationError::EOF { location, expected } => {
                let mut s = String::new();
                append_lit(&mut s, "Reached EOF while expecting ");
                let et = join_strings(expected, ", ");
                s.append(et.as_str());
                append_lit(&mut s, " at ");
                let lt = location.render();
                s.append(lt.as_str());
                assert(s@ =~= spec_error_text(*self));
                s
            },
            CompilationError::InvalidAtToken(l, t) => {
                let mut s = String::new();
                append_lit(&mut s, "Invalid at-token ");
                s.append(t.as_str());
                append_lit(&mut s, " at ");
                let lt = l.render();
                s.append(lt.as_str());
                assert(s@ =~= spec_error_text(*self));
                s
            },
            CompilationError::ModuleNotFoundError(p) => {
                let mut s = String::new();
                append_lit(&mut s, "Module ");
                s.append(p.0.as_str());
                append_lit(&mut s, " not found");
                assert(s@ =~= spec_error_text(*self));
                s
            },
        }
    }
}

} // verus!
