//! The closed set of lexical units, and the reserved-word table.
//!
//! Fixed punctuation and keyword tokens carry no payload; the four
//! identifier classes (lower-name, upper-name, context-name, type-var-name)
//! and the literals carry the scanned text. A float literal keeps its exact
//! source text so that rendering it back is lossless.

use vstd::prelude::*;
use crate::chars::push_char;
use crate::decimal::push_i64_dec;
use crate::decimal::spec_idec;
use crate::location::append_lit;

verus! {

pub type LowerName = String;

pub type UpperName = String;

pub type TypeVarName = String;

pub type ContextName = String;

#[derive(Debug, PartialEq, Clone)]
pub enum Token {
    Colon,
    Comma,
    DashDash,
    Arrow,
    Bang,
    Dot,
    LBracket,
    RBracket,
    LBracketBar,
    RBracketBar,
    LParen,
    RParen,
    LCurly,
    RCurly,
    Action,
    AtAction,
    Composes,
    Cond,
    AtCond,
    Do,
    End,
    Else,
    Exit,
    For,
    AtFor,
    Func,
    AtFunc,
    Init,
    Is,
    Local,
    Loop,
    AtLoop,
    Method,
    AtMethod,
    Next,
    New,
    Obj,
    AtObj,
    Sig,
    AtSig,
    Slot,
    AtSlot,
    Use,
    Var,
    AtVar,
    LName(LowerName),
    UName(UpperName),
    CName(ContextName),
    TVName(TypeVarName),
    IntLit(i64),
    FloatLit(String),
    StringLit(String),
    CharLit(char),
}

/// The fixed reserved-word table: the keyword token for a scanned word, or
/// `None` when the word is an ordinary lower-name.
pub open spec fn spec_keyword(s: Seq<char>) -> Option<Token> {
    if s == "--"@ {
        Some(Token::DashDash)
    } else if s == "->"@ {
        Some(Token::Arrow)
    } else if s == "!"@ {
        Some(Token::Bang)
    } else if s == "action"@ {
        Some(Token::Action)
    } else if s == "@action"@ {
        Some(Token::AtAction)
    } else if s == "composes"@ {
        Some(Token::Composes)
    } else if s == "cond"@ {
        Some(Token::Cond)
    } else if s == "@cond"@ {
        Some(Token::AtCond)
    } else if s == "do"@ {
        Some(Token::Do)
    } else if s == "end"@ {
        Some(Token::End)
    } else if s == "else"@ {
        Some(Token::Else)
    } else if s == "exit"@ {
        Some(Token::Exit)
    } else if s == "for"@ {
        Some(Token::For)
    } else if s == "@for"@ {
        Some(Token::AtFor)
    } else if s == "fun"@ {
        Some(Token::Func)
    } else if s == "@fun"@ {
        Some(Token::AtFunc)
    } else if s == "init"@ {
        Some(Token::Init)
    } else if s == "is"@ {
        Some(Token::Is)
    } else if s == "local"@ {
        Some(Token::Local)
    } else if s == "loop"@ {
        Some(Token::Loop)
    } else if s == "@loop"@ {
        Some(Token::AtLoop)
    } else if s == "meth"@ {
        Some(Token::Method)
    } else if s == "@meth"@ {
        Some(Token::AtMethod)
    } else if s == "next"@ {
        Some(Token::Next)
    } else if s == "new"@ {
        Some(Token::New)
    } else if s == "obj"@ {
        Some(Token::Obj)
    } else if s == "@obj"@ {
        Some(Token::AtObj)
    } else if s == "sig"@ {
        Some(Token::Sig)
    } else if s == "@sig"@ {
        Some(Token::AtSig)
    } else if s == "slot"@ {
        Some(Token::Slot)
    } else if s == "@slot"@ {
        Some(Token::AtSlot)
    } else if s == "use"@ {
        Some(Token::Use)
    } else if s == "var"@ {
        Some(Token::Var)
    } else if s == "@var"@ {
        Some(Token::AtVar)
    } else {
        None
    }
}

/// A word is reserved when the table maps it to a keyword token.
pub open spec fn spec_is_reserved(s: Seq<char>) -> bool {
    spec_keyword(s) is Some
}

fn word_is(text: &String, lit: &str) -> (r: bool)
    ensures
        r == (text@ == lit@),
{
    let l: String = lit.to_owned();
    *text == l
}

/// Looks a scanned word up in the reserved-word table.
pub fn keyword_token(text: &String) -> (r: Option<Token>)
    ensures
        r == spec_keyword(text@),
{
    if word_is(text, "--") {
        Some(Token::DashDash)
    } else if word_is(text, "->") {
        Some(Token::Arrow)
    } else if word_is(text, "!") {
        Some(Token::Bang)
    } else if word_is(text, "action") {
        Some(Token::Action)
    } else if word_is(text, "@action") {
        Some(Token::AtAction)
    } else if word_is(text, "composes") {
        Some(Token::Composes)
    } else if word_is(text, "cond") {
        Some(Token::Cond)
    } else if word_is(text, "@cond") {
        Some(Token::AtCond)
    } else if word_is(text, "do") {
        Some(Token::Do)
    } else if word_is(text, "end") {
        Some(Token::End)
    } else if word_is(text, "else") {
        Some(Token::Else)
    } else if word_is(text, "exit") {
        Some(Token::Exit)
    } else if word_is(text, "for") {
        Some(Token::For)
    } else if word_is(text, "@for") {
        Some(Token::AtFor)
    } else if word_is(text, "fun") {
        Some(Token::Func)
    } else if word_is(text, "@fun") {
        Some(Token::AtFunc)
    } else if word_is(text, "init") {
        Some(Token::Init)
    } else if word_is(text, "is") {
        Some(Token::Is)
    } else if word_is(text, "local") {
        Some(Token::Local)
    } else if word_is(text, "loop") {
        Some(Token::Loop)
    } else if word_is(text, "@loop") {
        Some(Token::AtLoop)
    } else if word_is(text, "meth") {
        Some(Token::Method)
    } else if word_is(text, "@meth") {
        Some(Token::AtMethod)
    } else if word_is(text, "next") {
        Some(Token::Next)
    } else if word_is(text, "new") {
        Some(Token::New)
    } else if word_is(text, "obj") {
        Some(Token::Obj)
    } else if word_is(text, "@obj") {
        Some(Token::AtObj)
    } else if word_is(text, "sig") {
        Some(Token::Sig)
    } else if word_is(text, "@sig") {
        Some(Token::AtSig)
    } else if word_is(text, "slot") {
        Some(Token::Slot)
    } else if word_is(text, "@slot") {
        Some(Token::AtSlot)
    } else if word_is(text, "use") {
        Some(Token::Use)
    } else if word_is(text, "var") {
        Some(Token::Var)
    } else if word_is(text, "@var") {
        Some(Token::AtVar)
    } else {
        None
    }
}

/// Classifies a scanned word: its keyword token when the word is reserved,
/// else a lower-name token carrying exactly the scanned text.
pub fn classify_word(text: String) -> (t: Token)
    ensures
        spec_is_reserved(text@) ==> Some(t) == spec_keyword(text@),
        !spec_is_reserved(text@) ==> (t matches Token::LName(n) && n@ == text@),
{
    match keyword_token(&text) {
        Some(t) => t,
        None => Token::LName(text),
    }
}

/// A reserved word always classifies to its dedicated keyword token and
/// never to a lower-name token; a word the table does not hold never
/// classifies to a keyword.
pub proof fn lemma_reserved_never_lower_name(s: Seq<char>)
    ensures
        spec_is_reserved(s) ==> !(spec_keyword(s) matches Some(t) && t is LName),
        !spec_is_reserved(s) ==> spec_keyword(s) is None,
{
}

/// The display text of a token.
pub open spec fn spec_token_text(t: Token) -> Seq<char> {
    match t {
        Token::Colon => ":"@,
        Token::Comma => ","@,
        Token::DashDash => "--"@,
        Token::Arrow => "->"@,
        Token::Bang => "!"@,
        Token::Dot => "."@,
        Token::LBracket => "["@,
        Token::RBracket => "]"@,
        Token::LBracketBar => "[|"@,
        Token::RBracketBar => "|]"@,
        Token::LParen => "("@,
        Token::RParen => ")"@,
        Token::LCurly => "{"@,
        Token::RCurly => "}"@,
        Token::Action => "action"@,
        Token::AtAction => "@action"@,
        Token::Composes => "composes"@,
        Token::Cond => "cond"@,
        Token::AtCond => "@cond"@,
        Token::Do => "do"@,
        Token::End => "end"@,
        Token::Else => "else"@,
        Token::Exit => "exit"@,
        Token::For => "for"@,
        Token::AtFor => "@for"@,
        Token::Func => "fun"@,
        Token::AtFunc => "@fun"@,
        Token::Init => "init"@,
        Token::Is => "is"@,
        Token::Local => "local"@,
        Token::Loop => "loop"@,
        Token::AtLoop => "@loop"@,
        Token::Method => "meth"@,
        Token::AtMethod => "@meth"@,
        Token::Next => "next"@,
        Token::New => "new"@,
        Token::Obj => "obj"@,
        Token::AtObj => "@obj"@,
        Token::Sig => "sig"@,
        Token::AtSig => "@sig"@,
        Token::Slot => "slot"@,
        Token::AtSlot => "@slot"@,
        Token::Use => "use"@,
        Token::Var => "var"@,
        Token::AtVar => "@var"@,
        Token::LName(l) => "LName("@ + l@ + ")"@,
        Token::UName(u) => "UName("@ + u@ + ")"@,
        Token::CName(c) => "CName("@ + c@ + ")"@,
        Token::TVName(tv) => "TVName("@ + tv@ + ")"@,
        Token::IntLit(i) => "Int("@ + spec_idec(i as int) + ")"@,
        Token::FloatLit(f) => "Float("@ + f@ + ")"@,
        Token::StringLit(s) => "String("@ + s@ + ")"@,
        Token::CharLit(c) => "Char("@ + seq![c] + ")"@,
    }
}

impl Token {
    /// Renders the token for error messages. A float literal renders back
    /// to exactly its source text inside the marker.
    pub fn to_text(&self) -> (s: String)
        ensures
            s@ == spec_token_text(*self),
    {
        match self {
            Token::Colon => ":".to_owned(),
            Token::Comma => ",".to_owned(),
            Token::DashDash => "--".to_owned(),
            Token::Arrow => "->".to_owned(),
            Token::Bang => "!".to_owned(),
            Token::Dot => ".".to_owned(),
            Token::LBracket => "[".to_owned(),
            Token::RBracket => "]".to_owned(),
            Token::LBracketBar => "[|".to_owned(),
            Token::RBracketBar => "|]".to_owned(),
            Token::LParen => "(".to_owned(),
            Token::RParen => ")".to_owned(),
            Token::LCurly => "{".to_owned(),
            Token::RCurly => "}".to_owned(),
            Token::Action => "action".to_owned(),
            Token::AtAction => "@action".to_owned(),
            Token::Composes => "composes".to_owned(),
            Token::Cond => "cond".to_owned(),
            Token::AtCond => "@cond".to_owned(),
            Token::Do => "do".to_owned(),
            Token::End => "end".to_owned(),
            Token::Else => "else".to_owned(),
            Token::Exit => "exit".to_owned(),
            Token::For => "for".to_owned(),
            Token::AtFor => "@for".to_owned(),
            Token::Func => "fun".to_owned(),
            Token::AtFunc => "@fun".to_owned(),
            Token::Init => "init".to_owned(),
            Token::Is => "is".to_owned(),
            Token::Local => "local".to_owned(),
            Token::Loop => "loop".to_owned(),
            Token::AtLoop => "@loop".to_owned(),
            Token::Method => "meth".to_owned(),
            Token::AtMethod => "@meth".to_owned(),
            Token::Next => "next".to_owned(),
            Token::New => "new".to_owned(),
            Token::Obj => "obj".to_owned(),
            Token::AtObj => "@obj".to_owned(),
            Token::Sig => "sig".to_owned(),
            Token::AtSig => "@sig".to_owned(),
            Token::Slot => "slot".to_owned(),
            Token::AtSlot => "@slot".to_owned(),
            Token::Use => "use".to_owned(),
            Token::Var => "var".to_owned(),
            Token::AtVar => "@var".to_owned(),
            Token::LName(l) => wrapped("LName(", l, ")"),
            Token::UName(u) => wrapped("UName(", u, ")"),
            Token::CName(c) => wrapped("CName(", c, ")"),
            Token::TVName(tv) => wrapped("TVName(", tv, ")"),
            Token::IntLit(i) => {
                let mut s = String::new();
                append_lit(&mut s, "Int(");
                push_i64_dec(&mut s, *i);
                append_lit(&mut s, ")");
                proof {
                    assert(s@ =~= spec_token_text(*self));
                }
                s
            },
            Token::FloatLit(f) => wrapped("Float(", f, ")"),
            Token::StringLit(st) => wrapped("String(", st, ")"),
            Token::CharLit(c) => {
                let mut s = String::new();
                append_lit(&mut s, "Char(");
                push_char(&mut s, *c);
                append_lit(&mut s, ")");
                proof {
                    assert(s@ =~= spec_token_text(*self));
                }
                s
            },
        }
    }
}

fn wrapped(open_mark: &str, body: &String, close_mark: &str) -> (s: String)
    ensures
        s@ == open_mark@ + body@ + close_mark@,
{
    let mut s = String::new();
    append_lit(&mut s, open_mark);
    s.append(body.as_str());
    append_lit(&mut s, close_mark);
    assert(s@ =~= open_mark@ + body@ + close_mark@);
    s
}

} // verus!
