use schism::errors::CompilationError;
use schism::lex::Scanner;
use schism::lex::ScannerResult;
use schism::location::Location;
use schism::token::Token;

fn assert_token_is(result: ScannerResult, expected: Token) {
    assert!(result.is_some());
    let (_, t, _) = result.unwrap().unwrap();
    assert_eq!(expected, t)
}

#[test]
pub fn test_scan_symbols_and_idents() {
    let mut lex = Scanner::new(0, "foo bar/baz + 23\nbli");

    assert_token_is(lex.scan_token(), Token::LName("foo".to_string()));
    assert_token_is(lex.scan_token(), Token::LName("bar/baz".to_string()));
    assert_token_is(lex.scan_token(), Token::LName("+".to_string()));
    assert_token_is(lex.scan_token(), Token::IntLit(23));
    assert_token_is(lex.scan_token(), Token::LName("bli".to_string()))
}

#[test]
pub fn test_scan_literals() {
    let mut lex = Scanner::new(0, "\"this is a string\" 27 13.2 -4.0e5 'a'\"");

    assert_token_is(lex.scan_token(), Token::StringLit("this is a string".to_string()));
    assert_token_is(lex.scan_token(), Token::IntLit(27));
    assert_token_is(lex.scan_token(), Token::FloatLit("13.2".to_string()));
    assert_token_is(lex.scan_token(), Token::FloatLit("-4.0e5".to_string()));
    assert_token_is(lex.scan_token(), Token::CharLit('a'));
}

#[test]
fn every_reserved_word_scans_to_its_keyword_token() {
    let table: Vec<(&str, Token)> = vec![
        ("--", Token::DashDash),
        ("->", Token::Arrow),
        ("!", Token::Bang),
        ("action", Token::Action),
        ("@action", Token::AtAction),
        ("composes", Token::Composes),
        ("cond", Token::Cond),
        ("@cond", Token::AtCond),
        ("do", Token::Do),
        ("end", Token::End),
        ("else", Token::Else),
        ("exit", Token::Exit),
        ("for", Token::For),
        ("@for", Token::AtFor),
        ("fun", Token::Func),
        ("@fun", Token::AtFunc),
        ("init", Token::Init),
        ("is", Token::Is),
        ("local", Token::Local),
        ("loop", Token::Loop),
        ("@loop", Token::AtLoop),
        ("meth", Token::Method),
        ("@meth", Token::AtMethod),
        ("next", Token::Next),
        ("new", Token::New),
        ("obj", Token::Obj),
        ("@obj", Token::AtObj),
        ("sig", Token::Sig),
        ("@sig", Token::AtSig),
        ("slot", Token::Slot),
        ("@slot", Token::AtSlot),
        ("use", Token::Use),
        ("var", Token::Var),
        ("@var", Token::AtVar),
    ];
    for (text, expected) in table {
        let mut lex = Scanner::new(0, text);
        let (_, t, _) = lex.scan_token().unwrap().unwrap();
        assert_eq!(expected, t, "reserved word {:?}", text);
        assert!(lex.scan_token().is_none());
    }
}

#[test]
fn non_reserved_words_scan_to_lower_names_with_exact_text() {
    for text in ["fund", "end2", "useful", "x", "set!", "^squid^", "|", "a-b"] {
        let mut lex = Scanner::new(0, text);
        let (_, t, _) = lex.scan_token().unwrap().unwrap();
        assert_eq!(Token::LName(text.to_string()), t, "word {:?}", text);
    }
}

#[test]
fn upper_names_and_sigil_classes() {
    let mut lex = Scanner::new(0, "Consish `a $rest @fun");
    assert_token_is(lex.scan_token(), Token::UName("Consish".to_string()));
    assert_token_is(lex.scan_token(), Token::TVName("`a".to_string()));
    assert_token_is(lex.scan_token(), Token::CName("$rest".to_string()));
    assert_token_is(lex.scan_token(), Token::AtFunc);
    assert!(lex.scan_token().is_none());
}

#[test]
fn bare_type_var_sigil_is_a_lexical_error() {
    let mut lex = Scanner::new(0, "` ");
    match lex.scan_token() {
        Some(Err(CompilationError::LexicalError(_, m))) => {
            assert_eq!("Type var must have at least one letter after its sigil", m)
        }
        other => panic!("expected a lexical error, got {:?}", other),
    }
}

#[test]
fn bare_context_var_sigil_is_a_lexical_error() {
    let mut lex = Scanner::new(0, "$ ");
    match lex.scan_token() {
        Some(Err(CompilationError::LexicalError(_, m))) => {
            assert_eq!("Context var must have at least one letter after its sigil", m)
        }
        other => panic!("expected a lexical error, got {:?}", other),
    }
}

#[test]
fn block_comments_are_skipped_entirely() {
    let mut lex = Scanner::new(0, "foo /* anything including * and / chars */ bar");
    assert_token_is(lex.scan_token(), Token::LName("foo".to_string()));
    assert_token_is(lex.scan_token(), Token::LName("bar".to_string()));
    assert!(lex.scan_token().is_none());
}

#[test]
fn unterminated_comment_is_exactly_one_error() {
    let mut lex = Scanner::new(0, "foo /* unterminated");
    assert_token_is(lex.scan_token(), Token::LName("foo".to_string()));
    match lex.scan_token() {
        Some(Err(CompilationError::UnterminatedComment(l))) => {
            assert_eq!(Location { source: 0, line: 1, column: 5 }, l)
        }
        other => panic!("expected an unterminated-comment error, got {:?}", other),
    }
    assert!(lex.scan_token().is_none());
}

#[test]
fn line_comments_are_skipped_to_end_of_line() {
    let mut lex = Scanner::new(0, "foo // rest of line\nbar");
    assert_token_is(lex.scan_token(), Token::LName("foo".to_string()));
    assert_token_is(lex.scan_token(), Token::LName("bar".to_string()));
    assert!(lex.scan_token().is_none());
}

#[test]
fn hex_escape_decodes_to_its_scalar() {
    let mut lex = Scanner::new(0, "\"\\x41\"");
    assert_token_is(lex.scan_token(), Token::StringLit("A".to_string()));
}

#[test]
fn unicode_escape_decodes_to_its_scalar() {
    let mut lex = Scanner::new(0, "\"\\u{1F600}\"");
    assert_token_is(lex.scan_token(), Token::StringLit("\u{1F600}".to_string()));
}

#[test]
fn unknown_escape_letter_is_an_invalid_escape() {
    let mut lex = Scanner::new(0, "\"\\q\"");
    match lex.scan_token() {
        Some(Err(CompilationError::InvalidEscape(_, m))) => assert_eq!("q", m),
        other => panic!("expected an invalid-escape error, got {:?}", other),
    }
}

#[test]
fn simple_escapes_decode_in_strings() {
    let mut lex = Scanner::new(0, "\"a\\n\\t\\\\b\\\"c\"");
    assert_token_is(lex.scan_token(), Token::StringLit("a\n\t\\b\"c".to_string()));
}

#[test]
fn char_literals_plain_and_escaped() {
    let mut lex = Scanner::new(0, "'a' '\\n' '\\x41'");
    assert_token_is(lex.scan_token(), Token::CharLit('a'));
    assert_token_is(lex.scan_token(), Token::CharLit('\n'));
    assert_token_is(lex.scan_token(), Token::CharLit('A'));
}

#[test]
fn unterminated_string_is_an_error_at_end_of_input() {
    let mut lex = Scanner::new(0, "\"no closing quote");
    match lex.scan_token() {
        Some(Err(CompilationError::LexicalError(_, m))) => {
            assert_eq!("Unterminated string literal", m)
        }
        other => panic!("expected a lexical error, got {:?}", other),
    }
    assert!(lex.scan_token().is_none());
}

#[test]
fn punctuation_tokens_and_bracket_bar_pairs() {
    let mut lex = Scanner::new(0, "( ) { } [ ] [| |] . , : -- -> !");
    let expected = [
        Token::LParen,
        Token::RParen,
        Token::LCurly,
        Token::RCurly,
        Token::LBracket,
        Token::RBracket,
        Token::LBracketBar,
        Token::RBracketBar,
        Token::Dot,
        Token::Comma,
        Token::Colon,
        Token::DashDash,
        Token::Arrow,
        Token::Bang,
    ];
    for e in expected {
        assert_token_is(lex.scan_token(), e);
    }
    assert!(lex.scan_token().is_none());
}

#[test]
fn negative_numbers_and_minus_names() {
    let mut lex = Scanner::new(0, "-12 -12.5 - -x");
    assert_token_is(lex.scan_token(), Token::IntLit(-12));
    assert_token_is(lex.scan_token(), Token::FloatLit("-12.5".to_string()));
    assert_token_is(lex.scan_token(), Token::LName("-".to_string()));
    assert_token_is(lex.scan_token(), Token::LName("-x".to_string()));
}

#[test]
fn integer_too_large_for_sixty_four_bits_is_an_error() {
    let mut lex = Scanner::new(0, "99999999999999999999999999");
    match lex.scan_token() {
        Some(Err(CompilationError::LexicalError(_, m))) => {
            assert_eq!("Integer literal out of range", m)
        }
        other => panic!("expected a lexical error, got {:?}", other),
    }
}

#[test]
fn invalid_at_token_reports_its_text() {
    let mut lex = Scanner::new(0, "@nosuch");
    match lex.scan_token() {
        Some(Err(CompilationError::InvalidAtToken(l, t))) => {
            assert_eq!("@nosuch", t);
            assert_eq!(Location { source: 0, line: 1, column: 1 }, l);
        }
        other => panic!("expected an invalid at-token error, got {:?}", other),
    }
}

#[test]
fn locations_carry_source_line_and_column() {
    let mut lex = Scanner::new(7, "ab\n cd");
    let (s1, _, e1) = lex.scan_token().unwrap().unwrap();
    assert_eq!(Location { source: 7, line: 1, column: 1 }, s1);
    assert_eq!(Location { source: 7, line: 1, column: 3 }, e1);
    let (s2, _, _) = lex.scan_token().unwrap().unwrap();
    assert_eq!(Location { source: 7, line: 2, column: 2 }, s2);
}

#[test]
fn token_text_renders_floats_back_exactly() {
    assert_eq!("fun", Token::Func.to_text());
    assert_eq!("Float(13.2)", Token::FloatLit("13.2".to_string()).to_text());
    assert_eq!("Float(-4.0e5)", Token::FloatLit("-4.0e5".to_string()).to_text());
    assert_eq!("Int(-31)", Token::IntLit(-31).to_text());
    assert_eq!("LName(dup)", Token::LName("dup".to_string()).to_text());
}

#[test]
fn a_function_definition_scans_to_the_expected_token_sequence() {
    let text = "\n    fun foo ( Int Str -- Float ) do\n        dup * /\n    end @fun\n    ";
    let mut lex = Scanner::new(0, text);
    let expected = [
        Token::Func,
        Token::LName("foo".to_string()),
        Token::LParen,
        Token::UName("Int".to_string()),
        Token::UName("Str".to_string()),
        Token::DashDash,
        Token::UName("Float".to_string()),
        Token::RParen,
        Token::Do,
        Token::LName("dup".to_string()),
        Token::LName("*".to_string()),
        Token::LName("/".to_string()),
        Token::End,
        Token::AtFunc,
    ];
    for e in expected {
        assert_token_is(lex.scan_token(), e);
    }
    assert!(lex.scan_token().is_none());
}

#[test]
fn scanning_is_restartable_per_call_and_deterministic() {
    let run = || {
        let mut lex = Scanner::new(0, "a ` b");
        let mut items = Vec::new();
        loop {
            match lex.scan_token() {
                None => break,
                Some(it) => items.push(it),
            }
        }
        items
    };
    assert_eq!(run(), run());
}
