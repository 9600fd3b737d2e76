use tanlang::ast::{AstNode, NodeType};
use tanlang::compiler::{compile, CompileError};
use tanlang::lexer::tokenize;
use tanlang::parser::parse;

fn compile_src(src: &str) -> String {
    compile(&parse(tokenize(src).unwrap()).unwrap()).unwrap()
}

#[test]
fn declaration_lowering() {
    let out = compile_src("let a = 20 + 22;");
    assert!(out.contains("int a = 20 + 22"));
    assert_eq!(
        out,
        "#include <stdio.h>\n\n\n\nint main() {\n\tint a = 20 + 22\n\treturn 0;\n}"
    );
}

#[test]
fn uninitialized_declaration_lowering() {
    let out = compile_src("let a;");
    assert!(out.contains("int a"));
    assert_eq!(
        out,
        "#include <stdio.h>\n\n\n\nint main() {\n\tint a\n\treturn 0;\n}"
    );
}

#[test]
fn skeleton_and_statement_indentation() {
    let out = compile_src("1 + 2; a = 3;");
    assert_eq!(
        out,
        "#include <stdio.h>\n\n\n\nint main() {\n\t1 + 2\n\ta = 3;\n\treturn 0;\n}"
    );
}

#[test]
fn function_defs_are_hoisted() {
    let out = compile_src("fn add(int a, int b) { return a + b; }; print(add(1, 2));");
    assert!(out.starts_with("#include <stdio.h>\n"));
    assert!(out.contains("int add(int a, int b) {\n\treturn a + b;\n}"));
    assert!(out.contains("printf(\"%d\\n\", add(1, 2));"));
    let defs_at = out.find("int add").unwrap();
    let main_at = out.find("int main").unwrap();
    assert!(defs_at < main_at);
}

#[test]
fn print_formats_each_argument() {
    let out = compile_src("print(1, 2, 3);");
    assert!(out.contains("printf(\"%d, %d, %d\\n\", 1, 2, 3);"));
}

#[test]
fn if_else_lowering() {
    let out = compile_src("if a == 1 { b = 2; } else { b = 3; };");
    assert!(out.contains("if (a == 1) {\n\tb = 2;\n} else {\n\tb = 3;\n}"));
}

#[test]
fn parentheses_keep_grouping() {
    let out = compile_src("(2 + 2) * 10;");
    assert!(out.contains("(2 + 2) * 10"));
}

#[test]
fn relational_operators_lower_to_symbols() {
    let out = compile_src("a <= b; c != d;");
    assert!(out.contains("a <= b"));
    assert!(out.contains("c != d"));
}

#[test]
fn parameters_node_is_rejected() {
    let root = AstNode {
        node_type: NodeType::Block,
        children: vec![AstNode {
            node_type: NodeType::Parameters,
            children: vec![],
            value: None,
        }],
        value: None,
    };
    assert_eq!(compile(&root), Err(CompileError::UnexpectedParameters));
}

#[test]
fn while_node_is_rejected() {
    let root = AstNode {
        node_type: NodeType::Block,
        children: vec![AstNode {
            node_type: NodeType::While,
            children: vec![],
            value: None,
        }],
        value: None,
    };
    assert_eq!(compile(&root), Err(CompileError::UnsupportedNode));
}

#[test]
fn missing_payload_is_rejected() {
    let root = AstNode {
        node_type: NodeType::Block,
        children: vec![AstNode {
            node_type: NodeType::Number,
            children: vec![],
            value: None,
        }],
        value: None,
    };
    assert_eq!(compile(&root), Err(CompileError::MalformedTree));
}
