use tanlang::lexer::{is_whitespace, lex_number, match_operator, tokenize, LexError};
use tanlang::types::{Operator, Token};

#[test]
fn test_is_whitespace() {
    assert_eq!(is_whitespace(' '), true);
    assert_eq!(is_whitespace('\n'), true);
    assert_eq!(is_whitespace('\t'), true);
    assert_eq!(is_whitespace('a'), false);
}

#[test]
fn test_match_operator() {
    assert_eq!(
        match_operator("+", &mut 0),
        Some(Token::Operator(Operator::Add))
    );
    assert_eq!(
        match_operator("-", &mut 0),
        Some(Token::Operator(Operator::Subtract))
    );
    assert_eq!(
        match_operator("*", &mut 0),
        Some(Token::Operator(Operator::Multiply))
    );
    assert_eq!(
        match_operator("/", &mut 0),
        Some(Token::Operator(Operator::Divide))
    );
    assert_eq!(
        match_operator("%", &mut 0),
        Some(Token::Operator(Operator::Mod))
    );
    assert_eq!(match_operator("a", &mut 0), None);
}

#[test]
fn test_lex_number() {
    let token = lex_number("123", &mut 0);
    assert_eq!(token, Ok(Token::Number(123)));

    let token = lex_number("123abc", &mut 0);
    assert_eq!(token, Ok(Token::Number(123)));
}

#[test]
fn lex_simple_expression() {
    let tokens = tokenize("1 + 2").unwrap();
    assert_eq!(tokens.len(), 3);
    assert_eq!(tokens[0].token, Token::Number(1));
    assert_eq!(tokens[1].token, Token::Operator(Operator::Add));
    assert_eq!(tokens[2].token, Token::Number(2));
}

#[test]
fn lex_double_char_operators() {
    let tokens = tokenize("a == b != c <= d >= e").unwrap();
    assert_eq!(tokens[1].token, Token::Eq);
    assert_eq!(tokens[3].token, Token::NotEq);
    assert_eq!(tokens[5].token, Token::Leq);
    assert_eq!(tokens[7].token, Token::Geq);
}

#[test]
fn lex_keywords() {
    let tokens = tokenize("let x if else while fn return true false").unwrap();
    assert_eq!(tokens[0].token, Token::Declare);
    assert_eq!(tokens[1].token, Token::Identifier("x".to_string()));
    assert_eq!(tokens[2].token, Token::If);
    assert_eq!(tokens[3].token, Token::Else);
    assert_eq!(tokens[4].token, Token::While);
    assert_eq!(tokens[5].token, Token::Function);
    assert_eq!(tokens[6].token, Token::Return);
    assert_eq!(tokens[7].token, Token::Boolean(true));
    assert_eq!(tokens[8].token, Token::Boolean(false));
}

#[test]
fn lex_positions_and_lines() {
    let tokens = tokenize("1 + 2").unwrap();
    assert_eq!(tokens[0].position, 0);
    assert_eq!(tokens[1].position, 2);
    assert_eq!(tokens[2].position, 4);
    assert_eq!(tokens[0].line, 1);
}

#[test]
fn lex_unexpected_character() {
    assert_eq!(tokenize("1 + @"), Err(LexError::UnexpectedCharacter));
}

#[test]
fn lex_number_too_large() {
    assert_eq!(tokenize("99999999999"), Err(LexError::NumberTooLarge));
    assert_eq!(lex_number("99999999999", &mut 0), Err(LexError::NumberTooLarge));
}
