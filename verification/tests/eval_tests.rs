use tanlang::ast::{AstNode, EvalError, NodeType};
use tanlang::lexer::tokenize;
use tanlang::parser::parse;
use tanlang::text::{i32_to_text, text_to_i32};
use tanlang::types::{Keywords, Token, variant_eq};

fn eval_src(src: &str) -> Result<i32, EvalError> {
    parse(tokenize(src).unwrap()).unwrap().evaluate()
}

#[test]
fn precedence_mul_binds_tighter() {
    assert_eq!(eval_src("2 + 2 * 10;"), Ok(22));
    assert_eq!(eval_src("10 * 2 + 2;"), Ok(22));
    assert_eq!(eval_src("(2 + 2) * 10;"), Ok(40));
    assert_eq!(eval_src("10 * (2 + 2);"), Ok(40));
}

#[test]
fn right_associative_subtraction() {
    assert_eq!(eval_src("10 - 2 - 3;"), Ok(11));
}

#[test]
fn chained_addition() {
    assert_eq!(eval_src("10 + 10 + 5 + 2;"), Ok(27));
}

#[test]
fn division_and_modulo() {
    assert_eq!(eval_src("84 / 2;"), Ok(42));
    assert_eq!(eval_src("85 % 43;"), Ok(42));
    assert_eq!(eval_src("7 / 2;"), Ok(3));
}

#[test]
fn zero_divisor_faults() {
    assert_eq!(eval_src("1 / 0;"), Err(EvalError::DivisionByZero));
    assert_eq!(eval_src("1 % 0;"), Err(EvalError::DivisionByZero));
    assert_eq!(eval_src("5 + 6 * (3 / 0);"), Err(EvalError::DivisionByZero));
}

#[test]
fn overflow_faults() {
    assert_eq!(eval_src("2000000000 + 2000000000;"), Err(EvalError::Overflow));
    assert_eq!(eval_src("2000000000 * 2;"), Err(EvalError::Overflow));
}

#[test]
fn declaration_evaluates_initializer() {
    assert_eq!(eval_src("let a = 20 + 22;"), Ok(42));
}

#[test]
fn uninitialized_declaration_has_no_value() {
    assert_eq!(eval_src("let a;"), Err(EvalError::MalformedTree));
}

#[test]
fn block_value_is_last_statement() {
    assert_eq!(eval_src("1 + 1; 40 + 2;"), Ok(42));
}

#[test]
fn unsupported_kind_faults() {
    assert_eq!(eval_src("a;"), Err(EvalError::UnsupportedNode));
    assert_eq!(eval_src("if 1 { 2; };"), Err(EvalError::UnsupportedNode));
}

#[test]
fn empty_block_is_undefined() {
    let empty = AstNode {
        node_type: NodeType::Block,
        children: vec![],
        value: None,
    };
    assert_eq!(empty.evaluate(), Err(EvalError::EmptyBlock));
}

#[test]
fn malformed_number_faults() {
    let bad = AstNode {
        node_type: NodeType::Number,
        children: vec![],
        value: Some("abc".to_string()),
    };
    assert_eq!(bad.evaluate(), Err(EvalError::MalformedNumber));

    let missing = AstNode {
        node_type: NodeType::Number,
        children: vec![],
        value: None,
    };
    assert_eq!(missing.evaluate(), Err(EvalError::MalformedNumber));
}

#[test]
fn malformed_tree_faults() {
    let lone_add = AstNode {
        node_type: NodeType::Add,
        children: vec![],
        value: None,
    };
    assert_eq!(lone_add.evaluate(), Err(EvalError::MalformedTree));
}

#[test]
fn literal_round_trip() {
    let ast = parse(tokenize("12345;").unwrap()).unwrap();
    assert_eq!(ast.children[0].value, Some("12345".to_string()));
    assert_eq!(eval_src("12345;"), Ok(12345));
}

#[test]
fn number_text_round_trip() {
    assert_eq!(i32_to_text(0), "0");
    assert_eq!(i32_to_text(-123), "-123");
    assert_eq!(i32_to_text(2147483647), "2147483647");
    assert_eq!(i32_to_text(-2147483648), "-2147483648");
    assert_eq!(text_to_i32("42"), Some(42));
    assert_eq!(text_to_i32("+42"), Some(42));
    assert_eq!(text_to_i32("-2147483648"), Some(-2147483648));
    assert_eq!(text_to_i32("2147483648"), None);
    assert_eq!(text_to_i32("-2147483649"), None);
    assert_eq!(text_to_i32(""), None);
    assert_eq!(text_to_i32("12a"), None);
    assert_eq!(text_to_i32("0000042"), Some(42));
}

#[test]
fn keywords_round_trip() {
    assert!(matches!(Keywords::from_string("let"), Some(Keywords::Let)));
    assert!(matches!(Keywords::from_string("fn"), Some(Keywords::Function)));
    assert!(Keywords::from_string("letx").is_none());
    assert_eq!(Keywords::Let.to_token(), Token::Declare);
    assert_eq!(Keywords::True.to_token(), Token::Boolean(true));
}

#[test]
fn variant_eq_compares_kinds_only() {
    assert!(variant_eq(&Token::Number(0), &Token::Number(5)));
    assert!(variant_eq(
        &Token::Identifier("a".to_string()),
        &Token::Identifier("b".to_string())
    ));
    assert!(!variant_eq(&Token::Number(0), &Token::Semi));
}
