//! Laws of the toolchain, stated over the specification functions that the
//! lexer, parser, evaluator and code generator are proved against.

use vstd::prelude::*;
use crate::ast::{SpecAst, NodeType, EvalError, spec_eval, spec_number_node};
use crate::compiler::{sp_compile_node, CompileError};
use crate::parser::{sp_parse, sp_parse_stmts, sp_parse_statement, sp_parse_next,
    sp_parse_expression, sp_parse_equality, sp_parse_relational, sp_parse_add_sub,
    sp_parse_mul_div, sp_parse_factor, sp_parse_number, sp_parse_parentheses, SyntaxError};
use crate::text::{parse_i32_text, lemma_int_text_round_trip};
use crate::types::{TokenV, Operator};

verus! {

/// An addition node over two sub-expressions.
pub open spec fn add_node(l: SpecAst, r: SpecAst) -> SpecAst {
    SpecAst { kind: NodeType::Add, children: seq![l, r], value: None }
}

/// Law: chained addition is associativity-insensitive. Whenever three
/// sub-expressions evaluate and no partial sum leaves the `i32` range,
/// the right-associated chain the parser builds has the same value as the
/// left-associated one: the sum of the three values.
pub proof fn lemma_add_chain_insensitive(
    a: SpecAst,
    b: SpecAst,
    c: SpecAst,
    va: i32,
    vb: i32,
    vc: i32,
)
    requires
        spec_eval(a) == Ok::<i32, EvalError>(va),
        spec_eval(b) == Ok::<i32, EvalError>(vb),
        spec_eval(c) == Ok::<i32, EvalError>(vc),
        i32::MIN <= va + vb <= i32::MAX,
        i32::MIN <= vb + vc <= i32::MAX,
        i32::MIN <= va + vb + vc <= i32::MAX,
    ensures
        spec_eval(add_node(a, add_node(b, c))) == Ok::<i32, EvalError>((va + vb + vc) as i32),
        spec_eval(add_node(add_node(a, b), c)) == Ok::<i32, EvalError>((va + vb + vc) as i32),
{
    assert(spec_eval(add_node(b, c)) == Ok::<i32, EvalError>((vb + vc) as i32));
    assert(spec_eval(add_node(a, b)) == Ok::<i32, EvalError>((va + vb) as i32));
}

/// Law: a division or remainder whose right operand is the literal zero
/// never evaluates to a silent result: the node always faults — with the
/// left operand's own fault when it has one, else with the arithmetic
/// fault.
pub proof fn lemma_zero_divisor_faults(l: SpecAst, k: NodeType)
    requires
        k == NodeType::Divide || k == NodeType::Mod,
    ensures
        spec_eval(SpecAst { kind: k, children: seq![l, spec_number_node(0)], value: None })
            is Err,
        spec_eval(l) is Ok ==> spec_eval(SpecAst {
            kind: k,
            children: seq![l, spec_number_node(0)],
            value: None,
        }) == Err::<i32, EvalError>(EvalError::DivisionByZero),
{
    lemma_int_text_round_trip(0);
    assert(spec_eval(spec_number_node(0)) == Ok::<i32, EvalError>(0));
}

/// Law: declaration lowering. A declaration of `name` without an
/// initializer lowers to exactly `int name`; one whose initializer
/// expression lowers to `t` lowers to exactly `int name = t` — with no
/// statement terminator either way.
pub proof fn lemma_declare_lowering(name: Seq<char>, expr: SpecAst, t: Seq<char>)
    requires
        sp_compile_node(expr) == Ok::<Seq<char>, CompileError>(t),
    ensures
        ({
            let id = SpecAst { kind: NodeType::Identifier, children: Seq::empty(), value: Some(name) };
            let bare = SpecAst {
                kind: NodeType::Declare,
                children: seq![
                    SpecAst { kind: NodeType::Assign, children: seq![id], value: None },
                ],
                value: None,
            };
            let initialized = SpecAst {
                kind: NodeType::Declare,
                children: seq![
                    SpecAst { kind: NodeType::Assign, children: seq![id, expr], value: None },
                ],
                value: None,
            };
            sp_compile_node(bare) == Ok::<Seq<char>, CompileError>("int "@ + name)
                && sp_compile_node(initialized) == Ok::<Seq<char>, CompileError>(
                "int "@ + name + " = "@ + t,
            )
        }),
{
}

/// Law: consecutive same-precedence operators associate to the right. The
/// token stream of `x - y - z;` parses to the tree `x - (y - z)`, whose
/// value is `x - (y - z)`, not `(x - y) - z`, whenever neither difference
/// leaves the `i32` range.
#[verifier::rlimit(100)]
pub proof fn lemma_sub_chain_right_assoc(x: i32, y: i32, z: i32)
    requires
        i32::MIN <= y - z <= i32::MAX,
        i32::MIN <= x - (y - z) <= i32::MAX,
    ensures
        ({
            let ts = seq![
                TokenV::Number(x),
                TokenV::Operator(Operator::Subtract),
                TokenV::Number(y),
                TokenV::Operator(Operator::Subtract),
                TokenV::Number(z),
                TokenV::Semi,
            ];
            let tree = SpecAst {
                kind: NodeType::Subtract,
                children: seq![
                    spec_number_node(x),
                    SpecAst {
                        kind: NodeType::Subtract,
                        children: seq![spec_number_node(y), spec_number_node(z)],
                        value: None,
                    },
                ],
                value: None,
            };
            sp_parse(ts) == Ok::<SpecAst, SyntaxError>(SpecAst {
                kind: NodeType::Block,
                children: seq![tree],
                value: None,
            }) && spec_eval(tree) == Ok::<i32, EvalError>((x - (y - z)) as i32)
        }),
{
    let ts = seq![
        TokenV::Number(x),
        TokenV::Operator(Operator::Subtract),
        TokenV::Number(y),
        TokenV::Operator(Operator::Subtract),
        TokenV::Number(z),
        TokenV::Semi,
    ];
    reveal(sp_parse);
    reveal(sp_parse_stmts);
    reveal(sp_parse_statement);
    reveal(sp_parse_next);
    reveal(sp_parse_expression);
    reveal(sp_parse_equality);
    reveal(sp_parse_relational);
    reveal_with_fuel(sp_parse_add_sub, 3);
    reveal(sp_parse_mul_div);
    reveal(sp_parse_factor);
    reveal(sp_parse_number);
    assert(sp_parse_next(ts, 0) == sp_parse_expression(ts, 0));
    assert(sp_parse_number(ts, 0) == Ok::<(SpecAst, nat), SyntaxError>((spec_number_node(x), 0)));
    assert(sp_parse_number(ts, 2) == Ok::<(SpecAst, nat), SyntaxError>((spec_number_node(y), 0)));
    assert(sp_parse_number(ts, 4) == Ok::<(SpecAst, nat), SyntaxError>((spec_number_node(z), 0)));
    assert(sp_parse_factor(ts, 0) == sp_parse_number(ts, 0));
    assert(sp_parse_factor(ts, 2) == sp_parse_number(ts, 2));
    assert(sp_parse_factor(ts, 4) == sp_parse_number(ts, 4));
    assert(sp_parse_mul_div(ts, 0) == Ok::<(SpecAst, nat), SyntaxError>((spec_number_node(x), 0)));
    assert(sp_parse_mul_div(ts, 2) == Ok::<(SpecAst, nat), SyntaxError>((spec_number_node(y), 0)));
    assert(sp_parse_mul_div(ts, 4) == Ok::<(SpecAst, nat), SyntaxError>((spec_number_node(z), 0)));
    let inner = SpecAst {
        kind: NodeType::Subtract,
        children: seq![spec_number_node(y), spec_number_node(z)],
        value: None,
    };
    assert(sp_parse_add_sub(ts, 4) == Ok::<(SpecAst, nat), SyntaxError>((spec_number_node(z), 0)));
    assert(sp_parse_add_sub(ts, 2) == Ok::<(SpecAst, nat), SyntaxError>((inner, 2)));
    let tree = SpecAst {
        kind: NodeType::Subtract,
        children: seq![spec_number_node(x), inner],
        value: None,
    };
    assert(sp_parse_add_sub(ts, 0) == Ok::<(SpecAst, nat), SyntaxError>((tree, 4)));
    assert(sp_parse_relational(ts, 0) == Ok::<(SpecAst, nat), SyntaxError>((tree, 4)));
    assert(sp_parse_equality(ts, 0) == Ok::<(SpecAst, nat), SyntaxError>((tree, 4)));
    assert(sp_parse_statement(ts, 0) == Ok::<(SpecAst, nat), SyntaxError>((tree, 5)));
    assert(sp_parse_stmts(ts, 6) == Ok::<(Seq<SpecAst>, nat), SyntaxError>((Seq::empty(), 0)));
    assert(sp_parse_stmts(ts, 0) == Ok::<(Seq<SpecAst>, nat), SyntaxError>((seq![tree] + Seq::<
        SpecAst,
    >::empty(), 6)));
    assert(seq![tree] + Seq::<SpecAst>::empty() =~= seq![tree]);
    lemma_int_text_round_trip(x);
    lemma_int_text_round_trip(y);
    lemma_int_text_round_trip(z);
    assert(spec_eval(spec_number_node(x)) == Ok::<i32, EvalError>(x));
    assert(spec_eval(spec_number_node(y)) == Ok::<i32, EvalError>(y));
    assert(spec_eval(spec_number_node(z)) == Ok::<i32, EvalError>(z));
    assert(spec_eval(inner) == Ok::<i32, EvalError>((y - z) as i32));
    assert(spec_eval(tree) == Ok::<i32, EvalError>((x - (y - z)) as i32));
}

/// Law: a number literal's parse tree carries decimal text that re-parses
/// to exactly the literal's value: the token stream of `v;` parses to one
/// `Number` node whose text denotes `v`.
#[verifier::rlimit(100)]
pub proof fn lemma_literal_round_trip(v: i32)
    ensures
        sp_parse(seq![TokenV::Number(v), TokenV::Semi]) == Ok::<SpecAst, SyntaxError>(SpecAst {
            kind: NodeType::Block,
            children: seq![spec_number_node(v)],
            value: None,
        }),
        spec_number_node(v).value matches Some(text) && parse_i32_text(text) == Some(v),
{
    let ts = seq![TokenV::Number(v), TokenV::Semi];
    reveal(sp_parse);
    reveal_with_fuel(sp_parse_stmts, 2);
    reveal(sp_parse_statement);
    reveal(sp_parse_next);
    reveal(sp_parse_expression);
    reveal(sp_parse_equality);
    reveal(sp_parse_relational);
    reveal(sp_parse_add_sub);
    reveal(sp_parse_mul_div);
    reveal(sp_parse_factor);
    reveal(sp_parse_number);
    assert(sp_parse_next(ts, 0) == sp_parse_expression(ts, 0));
    assert(sp_parse_number(ts, 0) == Ok::<(SpecAst, nat), SyntaxError>((spec_number_node(v), 0)));
    assert(sp_parse_statement(ts, 0) == Ok::<(SpecAst, nat), SyntaxError>((
        spec_number_node(v),
        1,
    )));
    assert(sp_parse_stmts(ts, 2) == Ok::<(Seq<SpecAst>, nat), SyntaxError>((Seq::empty(), 0)));
    assert(seq![spec_number_node(v)] + Seq::<SpecAst>::empty() =~= seq![spec_number_node(v)]);
    lemma_int_text_round_trip(v);
}

/// Law: a token stream that opens a parenthesis and whose inner expression
/// runs to the end of the tokens — so the required closing parenthesis is
/// missing — raises the end-of-input error, never a wrong tree.
pub proof fn lemma_unclosed_paren(ts: Seq<TokenV>)
    requires
        ts.len() >= 1,
        ts[0] is LParen,
        sp_parse_expression(ts, 1) matches Ok((e, ext)) && 2 + ext >= ts.len(),
    ensures
        sp_parse(ts) == Err::<SpecAst, SyntaxError>(SyntaxError::UnexpectedEndOfInput),
{
    reveal(sp_parse);
    reveal(sp_parse_stmts);
    reveal(sp_parse_statement);
    reveal(sp_parse_next);
    reveal(sp_parse_parentheses);
    reveal(sp_parse_expression);
    reveal(sp_parse_equality);
    reveal(sp_parse_relational);
    reveal(sp_parse_add_sub);
    reveal(sp_parse_mul_div);
    reveal(sp_parse_factor);
    assert(sp_parse_parentheses(ts, 0) == Err::<(SpecAst, nat), SyntaxError>(
        SyntaxError::UnexpectedEndOfInput,
    ));
    assert(sp_parse_factor(ts, 0) == sp_parse_parentheses(ts, 0));
    assert(sp_parse_mul_div(ts, 0) == sp_parse_factor(ts, 0));
    assert(sp_parse_next(ts, 0) == sp_parse_expression(ts, 0));
}

/// Law: in particular, a lone parenthesized number with no closing
/// parenthesis raises the end-of-input error.
pub proof fn lemma_unclosed_paren_number(v: i32)
    ensures
        sp_parse(seq![TokenV::LParen, TokenV::Number(v)]) == Err::<SpecAst, SyntaxError>(
            SyntaxError::UnexpectedEndOfInput,
        ),
{
    let ts = seq![TokenV::LParen, TokenV::Number(v)];
    reveal(sp_parse_expression);
    reveal(sp_parse_equality);
    reveal(sp_parse_relational);
    reveal(sp_parse_add_sub);
    reveal(sp_parse_mul_div);
    reveal(sp_parse_factor);
    reveal(sp_parse_number);
    assert(sp_parse_number(ts, 1) == Ok::<(SpecAst, nat), SyntaxError>((spec_number_node(v), 0)));
    assert(sp_parse_mul_div(ts, 1) == Ok::<(SpecAst, nat), SyntaxError>((spec_number_node(v), 0)));
    assert(sp_parse_expression(ts, 1) == Ok::<(SpecAst, nat), SyntaxError>((
        spec_number_node(v),
        0,
    )));
    lemma_unclosed_paren(ts);
}

} // verus!
