use tanlang::ast::NodeType;
use tanlang::lexer::tokenize;
use tanlang::parser::{parse, parse_assignment, Parser, SyntaxError};

#[test]
fn parser_parse_addition() {
    let script = "1 + 2;";
    let tokens = tokenize(script).unwrap();
    let ast = parse(tokens).unwrap();

    let add = &ast.children[0];
    assert_eq!(add.node_type, NodeType::Add);
    assert_eq!(add.children.len(), 2);

    assert_eq!(add.children[0].node_type, NodeType::Number);
    assert_eq!(add.children[0].value, Some("1".to_string()));

    assert_eq!(add.children[1].node_type, NodeType::Number);
    assert_eq!(add.children[1].value, Some("2".to_string()));
}

#[test]
fn parser_parse_assignment() {
    let script = "a = 1;";
    let tokens = tokenize(script).unwrap();
    let assign_ast = parse_assignment(&mut Parser {
        tokens,
        position: 0,
    })
    .unwrap();

    assert_eq!(assign_ast.node_type, NodeType::Assign);
    assert_eq!(assign_ast.children.len(), 2);

    assert_eq!(assign_ast.children[0].node_type, NodeType::Identifier);
    assert_eq!(assign_ast.children[0].value, Some("a".to_string()));

    assert_eq!(assign_ast.children[1].node_type, NodeType::Number);
    assert_eq!(assign_ast.children[1].value, Some("1".to_string()));
}

#[test]
fn parser_right_associative_chain() {
    let tokens = tokenize("10 - 2 - 3;").unwrap();
    let ast = parse(tokens).unwrap();
    let sub = &ast.children[0];
    assert_eq!(sub.node_type, NodeType::Subtract);
    assert_eq!(sub.children[0].node_type, NodeType::Number);
    assert_eq!(sub.children[0].value, Some("10".to_string()));
    let right = &sub.children[1];
    assert_eq!(right.node_type, NodeType::Subtract);
    assert_eq!(right.children[0].value, Some("2".to_string()));
    assert_eq!(right.children[1].value, Some("3".to_string()));
}

#[test]
fn parser_uninitialized_declare_shape() {
    let tokens = tokenize("let a;").unwrap();
    let ast = parse(tokens).unwrap();
    let d = &ast.children[0];
    assert_eq!(d.node_type, NodeType::Declare);
    assert_eq!(d.children.len(), 1);
    let a = &d.children[0];
    assert_eq!(a.node_type, NodeType::Assign);
    assert_eq!(a.children.len(), 1);
    assert_eq!(a.children[0].node_type, NodeType::Identifier);
    assert_eq!(a.children[0].value, Some("a".to_string()));
}

#[test]
fn parser_function_def_shape() {
    let tokens = tokenize("fn add(int a, int b) { return a + b; };").unwrap();
    let ast = parse(tokens).unwrap();
    let f = &ast.children[0];
    assert_eq!(f.node_type, NodeType::FunctionDef);
    assert_eq!(f.value, Some("add".to_string()));
    assert_eq!(f.children.len(), 2);
    let params = &f.children[0];
    assert_eq!(params.node_type, NodeType::Parameters);
    assert_eq!(params.children.len(), 4);
    assert_eq!(params.children[0].value, Some("int".to_string()));
    assert_eq!(params.children[1].value, Some("a".to_string()));
    assert_eq!(f.children[1].node_type, NodeType::Block);
}

#[test]
fn parser_if_else_shape() {
    let tokens = tokenize("if a == 1 { b = 2; } else { b = 3; };").unwrap();
    let ast = parse(tokens).unwrap();
    let node = &ast.children[0];
    assert_eq!(node.node_type, NodeType::If);
    assert_eq!(node.children.len(), 3);
    assert_eq!(node.children[0].node_type, NodeType::Eq);
    assert_eq!(node.children[1].node_type, NodeType::Block);
    assert_eq!(node.children[2].node_type, NodeType::Block);

    let tokens = tokenize("if a == 1 { b = 2; };").unwrap();
    let ast = parse(tokens).unwrap();
    assert_eq!(ast.children[0].children.len(), 2);
}

#[test]
fn parser_function_call_lookahead() {
    let tokens = tokenize("f(1, 2);").unwrap();
    let ast = parse(tokens).unwrap();
    let call = &ast.children[0];
    assert_eq!(call.node_type, NodeType::FunctionCall);
    assert_eq!(call.value, Some("f".to_string()));
    assert_eq!(call.children.len(), 2);
}

#[test]
fn parser_missing_close_paren() {
    let tokens = tokenize("(1 + 2;").unwrap();
    assert_eq!(parse(tokens), Err(SyntaxError::ExpectedToken));

    let tokens = tokenize("(1").unwrap();
    assert_eq!(parse(tokens), Err(SyntaxError::UnexpectedEndOfInput));
}

#[test]
fn parser_missing_semicolon() {
    let tokens = tokenize("1 + 2").unwrap();
    assert_eq!(parse(tokens), Err(SyntaxError::UnexpectedEndOfInput));
}

#[test]
fn parser_unexpected_token() {
    let tokens = tokenize("; 1;").unwrap();
    assert_eq!(parse(tokens), Err(SyntaxError::UnexpectedToken));

    let tokens = tokenize("1 + ,;").unwrap();
    assert_eq!(parse(tokens), Err(SyntaxError::UnexpectedToken));
}
