use cliscau::lexer::{Lexer, Token, TokenKind, Tokens};

fn tokenize(src: &str) -> Tokens {
    Lexer::new(src).tokenize()
}

#[test]
fn empty_input_yields_end_of_input_only() {
    let toks = tokenize("");
    assert_eq!(toks.len(), 1);
    assert!(toks.get_at(0).is(Token::EndOfInput));
}

#[test]
fn whitespace_only_yields_end_of_input_only() {
    let toks = tokenize("   \r  \r ");
    assert_eq!(toks.len(), 1);
    assert!(toks.get_at(0).is(Token::EndOfInput));
}

#[test]
fn number_and_identifier_lexemes_reproduce_source_substrings() {
    let src = "ab 12.5";
    let toks = tokenize(src);
    match toks.get_at(0) {
        Token::Identifier(s) => {
            assert_eq!(s.as_str(), &src[0..2]);
        }
        other => panic!("expected identifier, got {}", other.to_string()),
    }
    match toks.get_at(1) {
        Token::Number(s) => {
            assert_eq!(s.as_str(), &src[3..7]);
        }
        other => panic!("expected number, got {}", other.to_string()),
    }
    assert!(toks.get_at(2).is(Token::EndOfInput));
}

#[test]
fn punctuation_maps_to_single_tokens() {
    let toks = tokenize("+-*/^;()=\n");
    assert!(toks.get_at(0).is(Token::Plus));
    assert!(toks.get_at(1).is(Token::Minus));
    assert!(toks.get_at(2).is(Token::Multiply));
    assert!(toks.get_at(3).is(Token::Divide));
    assert!(toks.get_at(4).is(Token::Power));
    assert!(toks.get_at(5).is(Token::StatementEnd));
    assert!(toks.get_at(6).is(Token::LParen));
    assert!(toks.get_at(7).is(Token::RParen));
    assert!(toks.get_at(8).is(Token::Assign));
    assert!(toks.get_at(9).is(Token::StatementEnd));
    assert!(toks.get_at(10).is(Token::EndOfInput));
    assert_eq!(toks.len(), 11);
}

#[test]
fn unknown_character_becomes_unknown_token() {
    let toks = tokenize("$");
    match toks.get_at(0) {
        Token::Unknown(c) => assert_eq!(c, '$'),
        other => panic!("expected unknown, got {}", other.to_string()),
    }
}

#[test]
fn lone_dot_starts_a_number_run() {
    let toks = tokenize(".5");
    match toks.get_at(0) {
        Token::Number(s) => assert_eq!(s.as_str(), ".5"),
        other => panic!("expected number, got {}", other.to_string()),
    }
}

#[test]
fn number_run_may_hold_several_dots() {
    let toks = tokenize("1.2.3");
    match toks.get_at(0) {
        Token::Number(s) => assert_eq!(s.as_str(), "1.2.3"),
        other => panic!("expected number, got {}", other.to_string()),
    }
}

#[test]
fn identifier_run_consumes_alphanumerics() {
    let toks = tokenize("ab1c+x");
    match toks.get_at(0) {
        Token::Identifier(s) => assert_eq!(s.as_str(), "ab1c"),
        other => panic!("expected identifier, got {}", other.to_string()),
    }
    assert!(toks.get_at(1).is(Token::Plus));
    match toks.get_at(2) {
        Token::Identifier(s) => assert_eq!(s.as_str(), "x"),
        other => panic!("expected identifier, got {}", other.to_string()),
    }
}

#[test]
fn reading_past_the_end_gives_end_of_input() {
    let toks = tokenize("1");
    assert!(toks.get_at(100).is(Token::EndOfInput));
}

#[test]
fn token_kind_comparisons() {
    let t = Token::Number("12".to_string());
    assert!(t.is(Token::Number("34".to_string())));
    assert!(t.is_not(Token::Identifier("x".to_string())));
    assert!(t.is_in(&vec![Token::Plus, Token::Number(String::new())]));
    assert!(!t.is_in(&vec![Token::Plus, Token::Minus]));
    assert_eq!(t.kind(), TokenKind::Number);
}

#[test]
fn token_to_string_forms() {
    assert_eq!(Token::Number("1.5".to_string()).to_string().as_str(), "<Num:1.5>");
    assert_eq!(Token::Identifier("xy".to_string()).to_string().as_str(), "<Ident:xy>");
    assert_eq!(Token::Unknown('$').to_string().as_str(), "<Unknown:$>");
    assert_eq!(Token::Plus.to_string().as_str(), "<Plus>");
    assert_eq!(Token::Power.to_string().as_str(), "<Power>");
    assert_eq!(Token::EndOfInput.to_string().as_str(), "<EndOfInput>");
}

#[test]
fn tokens_from_copies_a_vector() {
    let v = vec![Token::Plus, Token::Number("7".to_string())];
    let toks = Tokens::from(&v);
    assert_eq!(toks.len(), 2);
    assert!(toks.get_at(0).is(Token::Plus));
    match toks.get_at(1) {
        Token::Number(s) => assert_eq!(s.as_str(), "7"),
        other => panic!("expected number, got {}", other.to_string()),
    }
}
