//! The abstract syntax tree and the evaluator.
//!
//! An `AstNode` is a tagged tree node: a kind, an ordered sequence of owned
//! children, and an optional text payload (the literal text of a number, the
//! name of an identifier or function). Its mathematical model is `SpecAst`.
//! The evaluator reduces arithmetic trees to an `i32`, failing on the first
//! violation with an `EvalError`.

use vstd::prelude::*;
use crate::text::{parse_i32_text, int_text};

verus! {

/// The kinds of AST node.
#[derive(Debug, Clone, Copy, PartialEq, Eq, Structural)]
pub enum NodeType {
    // Factors
    Number,
    Identifier,
    // Flow control
    Block,
    FunctionDef,
    Parameters,
    FunctionCall,
    Return,
    If,
    While,
    // Expressions
    Add,
    Subtract,
    Multiply,
    Divide,
    LParen,
    Mod,
    Declare,
    Assign,
    Eq,
    NotEq,
    LessThan,
    GreaterThan,
    Leq,
    Geq,
}

/// A node of the abstract syntax tree.
#[derive(Debug, PartialEq)]
pub struct AstNode {
    pub node_type: NodeType,
    pub children: Vec<AstNode>,
    pub value: Option<String>,
}

/// The mathematical model of an AST node.
#[verifier::ext_equal]
pub ghost struct SpecAst {
    pub kind: NodeType,
    pub children: Seq<SpecAst>,
    pub value: Option<Seq<char>>,
}

/// The model of a node: the kind, the models of the children, and the text
/// payload as a character sequence.
pub open spec fn ast_view(n: AstNode) -> SpecAst
    decreases n,
{
    SpecAst {
        kind: n.node_type,
        children: ast_children_view(n.children@),
        value: match n.value {
            Some(s) => Some(s@),
            None => None,
        },
    }
}

/// The models of a sequence of nodes, in order.
pub open spec fn ast_children_view(s: Seq<AstNode>) -> Seq<SpecAst>
    decreases s,
{
    if s.len() == 0 {
        Seq::empty()
    } else {
        ast_children_view(s.drop_last()).push(ast_view(s.last()))
    }
}

impl View for AstNode {
    type V = SpecAst;

    open spec fn view(&self) -> SpecAst {
        ast_view(*self)
    }
}

pub proof fn lemma_children_view(s: Seq<AstNode>)
    ensures
        ast_children_view(s).len() == s.len(),
        forall|i: int| 0 <= i < s.len() ==> ast_children_view(s)[i] == ast_view(#[trigger] s[i]),
    decreases s,
{
    if s.len() > 0 {
        lemma_children_view(s.drop_last());
        assert(forall|i: int| 0 <= i < s.len() - 1 ==> s.drop_last()[i] == #[trigger] s[i]);
    }
}

pub proof fn lemma_children_view_push(s: Seq<AstNode>, x: AstNode)
    ensures
        ast_children_view(s.push(x)) == ast_children_view(s).push(ast_view(x)),
{
    assert(s.push(x).drop_last() =~= s);
    assert(s.push(x).last() == x);
}

/// Errors of the evaluator.
#[derive(Debug, Clone, Copy, PartialEq, Eq, Structural)]
pub enum EvalError {
    /// A `Number` node whose payload is missing or is not decimal text of an
    /// `i32`.
    MalformedNumber,
    /// A node kind the evaluator does not support.
    UnsupportedNode,
    /// A division or remainder with a zero right operand.
    DivisionByZero,
    /// An arithmetic result outside the `i32` range.
    Overflow,
    /// A `Block` with no children, whose value would be undefined.
    EmptyBlock,
    /// A node without the children its kind requires.
    MalformedTree,
}

/// The arithmetic node kinds.
pub open spec fn is_arith_kind(k: NodeType) -> bool {
    k == NodeType::Add || k == NodeType::Subtract || k == NodeType::Multiply
        || k == NodeType::Divide || k == NodeType::Mod
}

/// The result of one arithmetic operation on two `i32` values: division
/// truncates toward zero, a zero divisor and a result outside the `i32`
/// range are faults.
pub open spec fn apply_arith(k: NodeType, a: i32, b: i32) -> Result<i32, EvalError> {
    if k == NodeType::Add {
        match a.checked_add(b) {
            Some(v) => Ok(v),
            None => Err(EvalError::Overflow),
        }
    } else if k == NodeType::Subtract {
        match a.checked_sub(b) {
            Some(v) => Ok(v),
            None => Err(EvalError::Overflow),
        }
    } else if k == NodeType::Multiply {
        match a.checked_mul(b) {
            Some(v) => Ok(v),
            None => Err(EvalError::Overflow),
        }
    } else if k == NodeType::Divide {
        if b == 0 {
            Err(EvalError::DivisionByZero)
        } else {
            match a.checked_div(b) {
                Some(v) => Ok(v),
                None => Err(EvalError::Overflow),
            }
        }
    } else {
        if b == 0 {
            Err(EvalError::DivisionByZero)
        } else {
            match a.checked_rem(b) {
                Some(v) => Ok(v),
                None => Err(EvalError::Overflow),
            }
        }
    }
}

/// The value of a tree: structural recursion, aborting at the first
/// violation. A declaration's value is its initializer's; a declaration
/// without an initializer has no value, so evaluating it is a
/// malformed-tree fault.
pub open spec fn spec_eval(n: SpecAst) -> Result<i32, EvalError>
    decreases n, 1int,
{
    if n.kind == NodeType::Number {
        match n.value {
            Some(text) => match parse_i32_text(text) {
                Some(v) => Ok(v),
                None => Err(EvalError::MalformedNumber),
            },
            None => Err(EvalError::MalformedNumber),
        }
    } else if is_arith_kind(n.kind) {
        if n.children.len() < 2 {
            Err(EvalError::MalformedTree)
        } else {
            match spec_eval(n.children[0]) {
                Err(e) => Err(e),
                Ok(a) => match spec_eval(n.children[1]) {
                    Err(e) => Err(e),
                    Ok(b) => apply_arith(n.kind, a, b),
                },
            }
        }
    } else if n.kind == NodeType::Block {
        if n.children.len() == 0 {
            Err(EvalError::EmptyBlock)
        } else {
            spec_eval_block(n.children)
        }
    } else if n.kind == NodeType::Declare {
        if n.children.len() < 1 {
            Err(EvalError::MalformedTree)
        } else if n.children[0].children.len() < 2 {
            Err(EvalError::MalformedTree)
        } else {
            spec_eval(n.children[0].children[1])
        }
    } else if n.kind == NodeType::LParen {
        if n.children.len() < 1 {
            Err(EvalError::MalformedTree)
        } else {
            spec_eval(n.children[0])
        }
    } else {
        Err(EvalError::UnsupportedNode)
    }
}

/// The value of a non-empty statement sequence: every statement in order,
/// aborting at the first violation; the value is the last statement's.
pub open spec fn spec_eval_block(cs: Seq<SpecAst>) -> Result<i32, EvalError>
    decreases cs, 0int,
{
    if cs.len() == 0 {
        Err(EvalError::EmptyBlock)
    } else if cs.len() == 1 {
        spec_eval(cs[0])
    } else {
        match spec_eval(cs[0]) {
            Err(e) => Err(e),
            Ok(_) => spec_eval_block(cs.subrange(1, cs.len() as int)),
        }
    }
}

/// Evaluate one node, per `spec_eval`.
pub fn evaluate_node(node: &AstNode) -> (r: Result<i32, EvalError>)
    ensures
        r == spec_eval(node@),
    decreases *node,
{
    proof {
        lemma_children_view(node.children@);
    }
    match node.node_type {
        NodeType::Number => {
            match &node.value {
                Some(text) => {
                    match crate::text::text_to_i32(text.as_str()) {
                        Some(v) => Ok(v),
                        None => Err(EvalError::MalformedNumber),
                    }
                },
                None => Err(EvalError::MalformedNumber),
            }
        },
        NodeType::Add | NodeType::Subtract | NodeType::Multiply | NodeType::Divide
            | NodeType::Mod => {
            if node.children.len() < 2 {
                return Err(EvalError::MalformedTree);
            }
            let a = match evaluate_node(&node.children[0]) {
                Ok(v) => v,
                Err(e) => return Err(e),
            };
            let b = match evaluate_node(&node.children[1]) {
                Ok(v) => v,
                Err(e) => return Err(e),
            };
            apply_arith_exec(node.node_type, a, b)
        },
        NodeType::Block => {
            if node.children.len() == 0 {
                return Err(EvalError::EmptyBlock);
            }
            let ghost cs = node@.children;
            proof {
                assert(cs.subrange(0, cs.len() as int) =~= cs);
            }
            let mut i: usize = 0;
            loop
                invariant
                    0 <= i < node.children.len(),
                    cs == ast_children_view(node.children@),
                    cs.len() == node.children.len(),
                    forall|j: int| 0 <= j < cs.len() ==> cs[j] == ast_view(
                        #[trigger] node.children@[j]),
                    spec_eval(node@) == spec_eval_block(cs),
                    spec_eval_block(cs) == spec_eval_block(
                        cs.subrange(i as int, cs.len() as int)),
                decreases node.children.len() - i,
            {
                let r = evaluate_node(&node.children[i]);
                proof {
                    let tail = cs.subrange(i as int, cs.len() as int);
                    assert(tail[0] == cs[i as int]);
                    if i + 1 < cs.len() {
                        assert(tail.subrange(1, tail.len() as int) =~= cs.subrange(
                            i + 1, cs.len() as int));
                    }
                }
                if i == node.children.len() - 1 {
                    return r;
                }
                match r {
                    Ok(_) => { i += 1; },
                    Err(e) => { return Err(e); },
                }
            }
        },
        NodeType::Declare => {
            if node.children.len() < 1 {
                return Err(EvalError::MalformedTree);
            }
            let assign = &node.children[0];
            proof {
                lemma_children_view(assign.children@);
            }
            if assign.children.len() < 2 {
                return Err(EvalError::MalformedTree);
            }
            evaluate_node(&assign.children[1])
        },
        NodeType::LParen => {
            if node.children.len() < 1 {
                return Err(EvalError::MalformedTree);
            }
            evaluate_node(&node.children[0])
        },
        _ => Err(EvalError::UnsupportedNode),
    }
}

/// Perform one arithmetic operation, per `apply_arith`.
fn apply_arith_exec(k: NodeType, a: i32, b: i32) -> (r: Result<i32, EvalError>)
    requires
        is_arith_kind(k),
    ensures
        r == apply_arith(k, a, b),
{
    match k {
        NodeType::Add => match a.checked_add(b) {
            Some(v) => Ok(v),
            None => Err(EvalError::Overflow),
        },
        NodeType::Subtract => match a.checked_sub(b) {
            Some(v) => Ok(v),
            None => Err(EvalError::Overflow),
        },
        NodeType::Multiply => match a.checked_mul(b) {
            Some(v) => Ok(v),
            None => Err(EvalError::Overflow),
        },
        NodeType::Divide => {
            if b == 0 {
                Err(EvalError::DivisionByZero)
            } else {
                match a.checked_div(b) {
                    Some(v) => Ok(v),
                    None => Err(EvalError::Overflow),
                }
            }
        },
        _ => {
            if b == 0 {
                Err(EvalError::DivisionByZero)
            } else {
                match a.checked_rem(b) {
                    Some(v) => Ok(v),
                    None => Err(EvalError::Overflow),
                }
            }
        },
    }
}

impl AstNode {
    /// Evaluate this tree, per `spec_eval`.
    pub fn evaluate(&self) -> (r: Result<i32, EvalError>)
        ensures
            r == spec_eval(self@),
    {
        evaluate_node(self)
    }
}

/// A convenient model of a number node carrying the decimal text of `v`.
pub open spec fn spec_number_node(v: i32) -> SpecAst {
    SpecAst {
        kind: NodeType::Number,
        children: Seq::empty(),
        value: Some(int_text(v as int)),
    }
}

} // verus!
