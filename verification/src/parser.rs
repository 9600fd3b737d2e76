//! The parser: a token stream to an abstract syntax tree.
//!
//! Recursive descent with a cursor over the token sequence. The grammar is
//! stated by the `sp_parse_*` specification functions; each executable
//! function returns exactly what its specification function says, or the
//! first grammar violation as a `SyntaxError`. Each binary-operator level
//! recurses into itself for its right operand, so chains of same-precedence
//! operators associate to the right.
//!
//! In the specifications, a parse result carries the parsed node and `ext`,
//! the number of tokens consumed beyond the first: a successful production
//! always consumes `1 + ext` tokens.

use vstd::prelude::*;
use crate::ast::{AstNode, NodeType, SpecAst, ast_view, ast_children_view, lemma_children_view,
    lemma_children_view_push};
use crate::lexer::LexerToken;
use crate::text::{int_text, rem_at, i32_to_text};
use crate::types::{Token, TokenV, Operator, tv_variant_eq, variant_eq, token_eq};

verus! {

/// Errors of the parser.
#[derive(Debug, Clone, Copy, PartialEq, Eq, Structural)]
pub enum SyntaxError {
    /// The current token's kind is not in the set the grammar expects here.
    UnexpectedToken,
    /// A specific token was required and another was found.
    ExpectedToken,
    /// The tokens ended while the grammar still required one.
    UnexpectedEndOfInput,
}

/// The token kinds of a token sequence.
pub open spec fn lex_toks(s: Seq<LexerToken>) -> Seq<TokenV> {
    s.map_values(|lt: LexerToken| lt.token@)
}

/// The parser state: the token sequence and a cursor into it.
pub struct Parser {
    pub tokens: Vec<LexerToken>,
    pub position: usize,
}

impl Parser {
    /// The token kinds this parser walks over.
    pub open spec fn toks(&self) -> Seq<TokenV> {
        lex_toks(self.tokens@)
    }

    pub fn get_current_token(&self) -> (t: &LexerToken)
        requires
            self.position < self.tokens@.len(),
        ensures
            *t == self.tokens@[self.position as int],
    {
        &self.tokens[self.position]
    }

    pub fn get_next(&self, n: usize) -> (t: Option<&LexerToken>)
        ensures
            match t {
                Some(lt) => self.position + n < self.tokens@.len()
                    && *lt == self.tokens@[self.position + n],
                None => self.position + n >= self.tokens@.len(),
            },
    {
        if n < self.tokens.len() && self.position < self.tokens.len() - n {
            Some(&self.tokens[self.position + n])
        } else {
            None
        }
    }

    pub fn is_end(&self) -> (r: bool)
        ensures
            r == (self.position >= self.tokens@.len()),
    {
        self.position >= self.tokens.len()
    }
}

/// How an executable parse result relates to its specification: the same
/// error, or the same node with the cursor moved past the `1 + ext` tokens
/// the production consumed.
pub open spec fn mirrors(
    r: Result<AstNode, SyntaxError>,
    sp: Result<(SpecAst, nat), SyntaxError>,
    pos0: int,
    pos1: int,
) -> bool {
    match r {
        Ok(node) => match sp {
            Ok((ast, ext)) => ast_view(node) == ast && ext >= 0 && pos1 == pos0 + 1 + ext,
            Err(_) => false,
        },
        Err(e) => match sp {
            Ok(_) => false,
            Err(e2) => e2 == e,
        },
    }
}

/// The AST kind of an arithmetic operator token.
pub open spec fn op_node_kind(op: Operator) -> NodeType {
    match op {
        Operator::Add => NodeType::Add,
        Operator::Subtract => NodeType::Subtract,
        Operator::Multiply => NodeType::Multiply,
        Operator::Divide => NodeType::Divide,
        Operator::Mod => NodeType::Mod,
    }
}

// ---------------------------------------------------------------------------
// The grammar, lowest to highest precedence
// ---------------------------------------------------------------------------

/// A number literal: one `Number` token; the node carries its decimal text.
#[verifier::opaque]
pub open spec fn sp_parse_number(ts: Seq<TokenV>, pos: int) -> Result<(SpecAst, nat), SyntaxError>
    decreases rem_at(ts.len() as int, pos), 2int,
{
    if pos >= ts.len() {
        Err(SyntaxError::UnexpectedEndOfInput)
    } else {
        match ts[pos] {
            TokenV::Number(v) => Ok((
                SpecAst {
                    kind: NodeType::Number,
                    children: Seq::empty(),
                    value: Some(int_text(v as int)),
                },
                0,
            )),
            _ => Err(SyntaxError::ExpectedToken),
        }
    }
}

/// An identifier: one `Identifier` token; the node carries the name.
#[verifier::opaque]
pub open spec fn sp_parse_identifier(ts: Seq<TokenV>, pos: int) -> Result<
    (SpecAst, nat),
    SyntaxError,
>
    decreases rem_at(ts.len() as int, pos), 2int,
{
    if pos >= ts.len() {
        Err(SyntaxError::UnexpectedEndOfInput)
    } else {
        match ts[pos] {
            TokenV::Identifier(name) => Ok((
                SpecAst { kind: NodeType::Identifier, children: Seq::empty(), value: Some(name) },
                0,
            )),
            _ => Err(SyntaxError::ExpectedToken),
        }
    }
}

/// The arguments of a function call, after the opening parenthesis:
/// expressions separated by commas, up to and including the closing
/// parenthesis. The count returned is every token consumed.
#[verifier::opaque]
pub open spec fn sp_parse_call_args(ts: Seq<TokenV>, pos: int) -> Result<
    (Seq<SpecAst>, nat),
    SyntaxError,
>
    decreases rem_at(ts.len() as int, pos), 15int,
{
    if pos >= ts.len() {
        Err(SyntaxError::UnexpectedEndOfInput)
    } else if ts[pos] is RParen {
        Ok((Seq::empty(), 1))
    } else {
        match sp_parse_expression(ts, pos) {
            Err(e) => Err(e),
            Ok((arg, e1)) => {
                let p2 = pos + 1 + e1;
                if p2 >= ts.len() {
                    Err(SyntaxError::UnexpectedEndOfInput)
                } else if ts[p2] is RParen {
                    Ok((seq![arg], e1 + 2))
                } else if ts[p2] is Comma {
                    match sp_parse_call_args(ts, p2 + 1) {
                        Err(e) => Err(e),
                        Ok((rest, used)) => Ok((seq![arg] + rest, e1 + 2 + used)),
                    }
                } else {
                    Err(SyntaxError::ExpectedToken)
                }
            },
        }
    }
}

/// A call: a name, then parenthesized comma-separated argument expressions.
#[verifier::opaque]
pub open spec fn sp_parse_function_call(ts: Seq<TokenV>, pos: int) -> Result<
    (SpecAst, nat),
    SyntaxError,
>
    decreases rem_at(ts.len() as int, pos), 3int,
{
    match sp_parse_identifier(ts, pos) {
        Err(e) => Err(e),
        Ok((name, _)) => {
            let p1 = pos + 1;
            if p1 >= ts.len() {
                Err(SyntaxError::UnexpectedEndOfInput)
            } else if !(ts[p1] is LParen) {
                Err(SyntaxError::ExpectedToken)
            } else {
                match sp_parse_call_args(ts, p1 + 1) {
                    Err(e) => Err(e),
                    Ok((args, used)) => Ok((
                        SpecAst {
                            kind: NodeType::FunctionCall,
                            children: args,
                            value: name.value,
                        },
                        1 + used,
                    )),
                }
            }
        },
    }
}

/// An identifier is a call when the next token is an opening parenthesis,
/// else a bare reference.
#[verifier::opaque]
pub open spec fn sp_parse_ident_or_call(ts: Seq<TokenV>, pos: int) -> Result<
    (SpecAst, nat),
    SyntaxError,
>
    decreases rem_at(ts.len() as int, pos), 4int,
{
    if pos + 1 < ts.len() && ts[pos + 1] is LParen {
        sp_parse_function_call(ts, pos)
    } else {
        sp_parse_identifier(ts, pos)
    }
}

/// A parenthesized sub-expression; the node records the explicit grouping.
#[verifier::opaque]
pub open spec fn sp_parse_parentheses(ts: Seq<TokenV>, pos: int) -> Result<
    (SpecAst, nat),
    SyntaxError,
>
    decreases rem_at(ts.len() as int, pos), 3int,
{
    if pos >= ts.len() {
        Err(SyntaxError::UnexpectedEndOfInput)
    } else if !(ts[pos] is LParen) {
        Err(SyntaxError::ExpectedToken)
    } else {
        match sp_parse_expression(ts, pos + 1) {
            Err(e) => Err(e),
            Ok((inner, e1)) => {
                let p2 = pos + 2 + e1;
                if p2 >= ts.len() {
                    Err(SyntaxError::UnexpectedEndOfInput)
                } else if !(ts[p2] is RParen) {
                    Err(SyntaxError::ExpectedToken)
                } else {
                    Ok((
                        SpecAst { kind: NodeType::LParen, children: seq![inner], value: None },
                        e1 + 2,
                    ))
                }
            },
        }
    }
}

/// A factor: a number, an identifier or call, or a parenthesized expression.
#[verifier::opaque]
pub open spec fn sp_parse_factor(ts: Seq<TokenV>, pos: int) -> Result<(SpecAst, nat), SyntaxError>
    decreases rem_at(ts.len() as int, pos), 5int,
{
    if pos >= ts.len() {
        Err(SyntaxError::UnexpectedEndOfInput)
    } else {
        match ts[pos] {
            TokenV::Number(_) => sp_parse_number(ts, pos),
            TokenV::Identifier(_) => sp_parse_ident_or_call(ts, pos),
            TokenV::LParen => sp_parse_parentheses(ts, pos),
            _ => Err(SyntaxError::UnexpectedToken),
        }
    }
}

/// Multiplication, division and remainder; the right operand re-enters this
/// same level, so chains associate to the right.
#[verifier::opaque]
pub open spec fn sp_parse_mul_div(ts: Seq<TokenV>, pos: int) -> Result<(SpecAst, nat), SyntaxError>
    decreases rem_at(ts.len() as int, pos), 6int,
{
    match sp_parse_factor(ts, pos) {
        Err(e) => Err(e),
        Ok((left, e1)) => {
            let p1 = pos + 1 + e1;
            if p1 >= ts.len() {
                Ok((left, e1))
            } else {
                match ts[p1] {
                    TokenV::Operator(op) => if op == Operator::Multiply || op == Operator::Divide
                        || op == Operator::Mod {
                        match sp_parse_mul_div(ts, p1 + 1) {
                            Err(e) => Err(e),
                            Ok((right, e2)) => Ok((
                                SpecAst {
                                    kind: op_node_kind(op),
                                    children: seq![left, right],
                                    value: None,
                                },
                                e1 + e2 + 2,
                            )),
                        }
                    } else {
                        Ok((left, e1))
                    },
                    _ => Ok((left, e1)),
                }
            }
        },
    }
}

/// Addition and subtraction; right-associative as above.
#[verifier::opaque]
pub open spec fn sp_parse_add_sub(ts: Seq<TokenV>, pos: int) -> Result<(SpecAst, nat), SyntaxError>
    decreases rem_at(ts.len() as int, pos), 7int,
{
    match sp_parse_mul_div(ts, pos) {
        Err(e) => Err(e),
        Ok((left, e1)) => {
            let p1 = pos + 1 + e1;
            if p1 >= ts.len() {
                Ok((left, e1))
            } else {
                match ts[p1] {
                    TokenV::Operator(op) => if op == Operator::Add || op == Operator::Subtract {
                        match sp_parse_add_sub(ts, p1 + 1) {
                            Err(e) => Err(e),
                            Ok((right, e2)) => Ok((
                                SpecAst {
                                    kind: op_node_kind(op),
                                    children: seq![left, right],
                                    value: None,
                                },
                                e1 + e2 + 2,
                            )),
                        }
                    } else {
                        Ok((left, e1))
                    },
                    _ => Ok((left, e1)),
                }
            }
        },
    }
}

/// The relational comparisons; right-associative as above.
#[verifier::opaque]
pub open spec fn sp_parse_relational(ts: Seq<TokenV>, pos: int) -> Result<
    (SpecAst, nat),
    SyntaxError,
>
    decreases rem_at(ts.len() as int, pos), 8int,
{
    match sp_parse_add_sub(ts, pos) {
        Err(e) => Err(e),
        Ok((left, e1)) => {
            let p1 = pos + 1 + e1;
            if p1 >= ts.len() {
                Ok((left, e1))
            } else {
                let k = match ts[p1] {
                    TokenV::LessThan => Some(NodeType::LessThan),
                    TokenV::GreaterThan => Some(NodeType::GreaterThan),
                    TokenV::Leq => Some(NodeType::Leq),
                    TokenV::Geq => Some(NodeType::Geq),
                    _ => None,
                };
                match k {
                    None => Ok((left, e1)),
                    Some(kind) => match sp_parse_relational(ts, p1 + 1) {
                        Err(e) => Err(e),
                        Ok((right, e2)) => Ok((
                            SpecAst { kind: kind, children: seq![left, right], value: None },
                            e1 + e2 + 2,
                        )),
                    },
                }
            }
        },
    }
}

/// Equality and inequality, the loosest level; right-associative as above.
#[verifier::opaque]
pub open spec fn sp_parse_equality(ts: Seq<TokenV>, pos: int) -> Result<
    (SpecAst, nat),
    SyntaxError,
>
    decreases rem_at(ts.len() as int, pos), 9int,
{
    match sp_parse_relational(ts, pos) {
        Err(e) => Err(e),
        Ok((left, e1)) => {
            let p1 = pos + 1 + e1;
            if p1 >= ts.len() {
                Ok((left, e1))
            } else {
                let k = match ts[p1] {
                    TokenV::Eq => Some(NodeType::Eq),
                    TokenV::NotEq => Some(NodeType::NotEq),
                    _ => None,
                };
                match k {
                    None => Ok((left, e1)),
                    Some(kind) => match sp_parse_equality(ts, p1 + 1) {
                        Err(e) => Err(e),
                        Ok((right, e2)) => Ok((
                            SpecAst { kind: kind, children: seq![left, right], value: None },
                            e1 + e2 + 2,
                        )),
                    },
                }
            }
        },
    }
}

/// An expression: the equality level.
#[verifier::opaque]
pub open spec fn sp_parse_expression(ts: Seq<TokenV>, pos: int) -> Result<
    (SpecAst, nat),
    SyntaxError,
>
    decreases rem_at(ts.len() as int, pos), 10int,
{
    sp_parse_equality(ts, pos)
}

// ---------------------------------------------------------------------------
// Statements
// ---------------------------------------------------------------------------

/// An assignment: a name, `=`, and an expression.
#[verifier::opaque]
pub open spec fn sp_parse_assignment(ts: Seq<TokenV>, pos: int) -> Result<
    (SpecAst, nat),
    SyntaxError,
>
    decreases rem_at(ts.len() as int, pos), 11int,
{
    match sp_parse_identifier(ts, pos) {
        Err(e) => Err(e),
        Ok((id, _)) => {
            let p1 = pos + 1;
            if p1 >= ts.len() {
                Err(SyntaxError::UnexpectedEndOfInput)
            } else if !(ts[p1] is Assign) {
                Err(SyntaxError::ExpectedToken)
            } else {
                match sp_parse_expression(ts, p1 + 1) {
                    Err(e) => Err(e),
                    Ok((rhs, e2)) => Ok((
                        SpecAst { kind: NodeType::Assign, children: seq![id, rhs], value: None },
                        2 + e2,
                    )),
                }
            }
        },
    }
}

/// A declaration: `let`, a name, and optionally `=` with an initializer
/// expression. Without an initializer the `Assign` child carries only the
/// name.
#[verifier::opaque]
pub open spec fn sp_parse_declare(ts: Seq<TokenV>, pos: int) -> Result<(SpecAst, nat), SyntaxError>
    decreases rem_at(ts.len() as int, pos), 12int,
{
    if pos >= ts.len() {
        Err(SyntaxError::UnexpectedEndOfInput)
    } else if !(ts[pos] is Declare) {
        Err(SyntaxError::ExpectedToken)
    } else if pos + 2 < ts.len() && ts[pos + 2] is Assign {
        match sp_parse_assignment(ts, pos + 1) {
            Err(e) => Err(e),
            Ok((a, e1)) => Ok((
                SpecAst { kind: NodeType::Declare, children: seq![a], value: None },
                1 + e1,
            )),
        }
    } else {
        match sp_parse_identifier(ts, pos + 1) {
            Err(e) => Err(e),
            Ok((id, _)) => Ok((
                SpecAst {
                    kind: NodeType::Declare,
                    children: seq![
                        SpecAst { kind: NodeType::Assign, children: seq![id], value: None },
                    ],
                    value: None,
                },
                1,
            )),
        }
    }
}

/// A return statement: `return` followed by an expression.
#[verifier::opaque]
pub open spec fn sp_parse_return(ts: Seq<TokenV>, pos: int) -> Result<(SpecAst, nat), SyntaxError>
    decreases rem_at(ts.len() as int, pos), 11int,
{
    if pos >= ts.len() {
        Err(SyntaxError::UnexpectedEndOfInput)
    } else if !(ts[pos] is Return) {
        Err(SyntaxError::ExpectedToken)
    } else {
        match sp_parse_expression(ts, pos + 1) {
            Err(e) => Err(e),
            Ok((expr, e1)) => Ok((
                SpecAst { kind: NodeType::Return, children: seq![expr], value: None },
                1 + e1,
            )),
        }
    }
}

/// The statements of a brace-delimited block, after the opening brace, up to
/// and including the closing brace. The count returned is every token
/// consumed.
#[verifier::opaque]
pub open spec fn sp_parse_block_stmts(ts: Seq<TokenV>, pos: int) -> Result<
    (Seq<SpecAst>, nat),
    SyntaxError,
>
    decreases rem_at(ts.len() as int, pos), 15int,
{
    if pos >= ts.len() {
        Err(SyntaxError::UnexpectedEndOfInput)
    } else if ts[pos] is RCurly {
        Ok((Seq::empty(), 1))
    } else {
        match sp_parse_statement(ts, pos) {
            Err(e) => Err(e),
            Ok((st, e1)) => match sp_parse_block_stmts(ts, pos + 1 + e1) {
                Err(e) => Err(e),
                Ok((rest, used)) => Ok((seq![st] + rest, 1 + e1 + used)),
            },
        }
    }
}

/// A block: statements between braces.
#[verifier::opaque]
pub open spec fn sp_parse_block(ts: Seq<TokenV>, pos: int) -> Result<(SpecAst, nat), SyntaxError>
    decreases rem_at(ts.len() as int, pos), 3int,
{
    if pos >= ts.len() {
        Err(SyntaxError::UnexpectedEndOfInput)
    } else if !(ts[pos] is LCurly) {
        Err(SyntaxError::ExpectedToken)
    } else {
        match sp_parse_block_stmts(ts, pos + 1) {
            Err(e) => Err(e),
            Ok((stmts, used)) => Ok((
                SpecAst { kind: NodeType::Block, children: stmts, value: None },
                used,
            )),
        }
    }
}

/// A conditional: `if`, a condition, a block, and optionally `else` with a
/// second block.
#[verifier::opaque]
pub open spec fn sp_parse_if(ts: Seq<TokenV>, pos: int) -> Result<(SpecAst, nat), SyntaxError>
    decreases rem_at(ts.len() as int, pos), 11int,
{
    if pos >= ts.len() {
        Err(SyntaxError::UnexpectedEndOfInput)
    } else if !(ts[pos] is If) {
        Err(SyntaxError::ExpectedToken)
    } else {
        match sp_parse_expression(ts, pos + 1) {
            Err(e) => Err(e),
            Ok((cond, e1)) => {
                let p2 = pos + 2 + e1;
                match sp_parse_block(ts, p2) {
                    Err(e) => Err(e),
                    Ok((blk, e2)) => {
                        let p3 = p2 + 1 + e2;
                        if p3 >= ts.len() {
                            Err(SyntaxError::UnexpectedEndOfInput)
                        } else if ts[p3] is Else {
                            match sp_parse_block(ts, p3 + 1) {
                                Err(e) => Err(e),
                                Ok((eb, e3)) => Ok((
                                    SpecAst {
                                        kind: NodeType::If,
                                        children: seq![cond, blk, eb],
                                        value: None,
                                    },
                                    e1 + e2 + e3 + 4,
                                )),
                            }
                        } else {
                            Ok((
                                SpecAst {
                                    kind: NodeType::If,
                                    children: seq![cond, blk],
                                    value: None,
                                },
                                e1 + e2 + 2,
                            ))
                        }
                    },
                }
            },
        }
    }
}

/// The parameter list of a definition, after the opening parenthesis: pairs
/// of a type name and a parameter name, separated by commas, up to and
/// including the closing parenthesis. The count returned is every token
/// consumed.
#[verifier::opaque]
pub open spec fn sp_parse_params(ts: Seq<TokenV>, pos: int) -> Result<
    (Seq<SpecAst>, nat),
    SyntaxError,
>
    decreases rem_at(ts.len() as int, pos), 15int,
{
    if pos >= ts.len() {
        Err(SyntaxError::UnexpectedEndOfInput)
    } else if ts[pos] is RParen {
        Ok((Seq::empty(), 1))
    } else {
        match sp_parse_identifier(ts, pos) {
            Err(e) => Err(e),
            Ok((ty, _)) => match sp_parse_identifier(ts, pos + 1) {
                Err(e) => Err(e),
                Ok((nm, _)) => {
                    let p2 = pos + 2;
                    if p2 >= ts.len() {
                        Err(SyntaxError::UnexpectedEndOfInput)
                    } else if ts[p2] is RParen {
                        Ok((seq![ty, nm], 3))
                    } else if ts[p2] is Comma {
                        match sp_parse_params(ts, p2 + 1) {
                            Err(e) => Err(e),
                            Ok((rest, used)) => Ok((seq![ty, nm] + rest, 3 + used)),
                        }
                    } else {
                        Err(SyntaxError::ExpectedToken)
                    }
                },
            },
        }
    }
}

/// A definition: `fn`, a name, a parenthesized parameter list, and a block.
/// The node's children are the `Parameters` node and the body.
#[verifier::opaque]
pub open spec fn sp_parse_function(ts: Seq<TokenV>, pos: int) -> Result<
    (SpecAst, nat),
    SyntaxError,
>
    decreases rem_at(ts.len() as int, pos), 11int,
{
    if pos >= ts.len() {
        Err(SyntaxError::UnexpectedEndOfInput)
    } else if !(ts[pos] is Function) {
        Err(SyntaxError::ExpectedToken)
    } else {
        match sp_parse_identifier(ts, pos + 1) {
            Err(e) => Err(e),
            Ok((name, _)) => {
                let p2 = pos + 2;
                if p2 >= ts.len() {
                    Err(SyntaxError::UnexpectedEndOfInput)
                } else if !(ts[p2] is LParen) {
                    Err(SyntaxError::ExpectedToken)
                } else {
                    match sp_parse_params(ts, p2 + 1) {
                        Err(e) => Err(e),
                        Ok((params, used)) => {
                            let p3 = p2 + 1 + used;
                            match sp_parse_block(ts, p3) {
                                Err(e) => Err(e),
                                Ok((blk, e2)) => Ok((
                                    SpecAst {
                                        kind: NodeType::FunctionDef,
                                        children: seq![
                                            SpecAst {
                                                kind: NodeType::Parameters,
                                                children: params,
                                                value: None,
                                            },
                                            blk,
                                        ],
                                        value: name.value,
                                    },
                                    used + e2 + 3,
                                )),
                            }
                        },
                    }
                }
            },
        }
    }
}

/// One construct, dispatched on the current token's kind.
#[verifier::opaque]
pub open spec fn sp_parse_next(ts: Seq<TokenV>, pos: int) -> Result<(SpecAst, nat), SyntaxError>
    decreases rem_at(ts.len() as int, pos), 13int,
{
    if pos >= ts.len() {
        Err(SyntaxError::UnexpectedEndOfInput)
    } else {
        match ts[pos] {
            TokenV::Operator(_) => sp_parse_expression(ts, pos),
            TokenV::Not => sp_parse_expression(ts, pos),
            TokenV::Identifier(_) => if pos + 1 < ts.len() && ts[pos + 1] is Assign {
                sp_parse_assignment(ts, pos)
            } else {
                sp_parse_expression(ts, pos)
            },
            TokenV::Number(_) => sp_parse_expression(ts, pos),
            TokenV::Declare => sp_parse_declare(ts, pos),
            TokenV::Assign => sp_parse_assignment(ts, pos),
            TokenV::LParen => sp_parse_expression(ts, pos),
            TokenV::Function => sp_parse_function(ts, pos),
            TokenV::LCurly => sp_parse_block(ts, pos),
            TokenV::Return => sp_parse_return(ts, pos),
            TokenV::If => sp_parse_if(ts, pos),
            _ => Err(SyntaxError::UnexpectedToken),
        }
    }
}

/// A statement: one construct followed by a semicolon.
#[verifier::opaque]
pub open spec fn sp_parse_statement(ts: Seq<TokenV>, pos: int) -> Result<
    (SpecAst, nat),
    SyntaxError,
>
    decreases rem_at(ts.len() as int, pos), 14int,
{
    match sp_parse_next(ts, pos) {
        Err(e) => Err(e),
        Ok((node, e1)) => {
            let p1 = pos + 1 + e1;
            if p1 >= ts.len() {
                Err(SyntaxError::UnexpectedEndOfInput)
            } else if ts[p1] is Semi {
                Ok((node, e1 + 1))
            } else {
                Err(SyntaxError::ExpectedToken)
            }
        },
    }
}

/// The top-level statements, to the end of the tokens. The count returned is
/// every token consumed.
#[verifier::opaque]
pub open spec fn sp_parse_stmts(ts: Seq<TokenV>, pos: int) -> Result<
    (Seq<SpecAst>, nat),
    SyntaxError,
>
    decreases rem_at(ts.len() as int, pos), 15int,
{
    if pos >= ts.len() {
        Ok((Seq::empty(), 0))
    } else {
        match sp_parse_statement(ts, pos) {
            Err(e) => Err(e),
            Ok((st, e1)) => match sp_parse_stmts(ts, pos + 1 + e1) {
                Err(e) => Err(e),
                Ok((rest, used)) => Ok((seq![st] + rest, 1 + e1 + used)),
            },
        }
    }
}

/// A whole program: the top-level statements under one `Block` root.
#[verifier::opaque]
pub open spec fn sp_parse(ts: Seq<TokenV>) -> Result<SpecAst, SyntaxError> {
    match sp_parse_stmts(ts, 0) {
        Err(e) => Err(e),
        Ok((stmts, _)) => Ok(SpecAst { kind: NodeType::Block, children: stmts, value: None }),
    }
}


// ---------------------------------------------------------------------------
// Consuming tokens
// ---------------------------------------------------------------------------

/// Advance over the current token when it is of the expected kind; otherwise
/// report which violation stopped the parse.
pub fn consume_token(parser: &mut Parser, expected: &Token) -> (r: Result<(), SyntaxError>)
    ensures
        final(parser).tokens == old(parser).tokens,
        r matches Ok(_) ==> old(parser).position < old(parser).toks().len()
            && tv_variant_eq(old(parser).toks()[old(parser).position as int], expected@)
            && final(parser).position == old(parser).position + 1,
        r matches Err(e) ==> final(parser).position == old(parser).position && (
        if old(parser).position >= old(parser).toks().len() {
            e == SyntaxError::UnexpectedEndOfInput
        } else {
            e == SyntaxError::ExpectedToken && !tv_variant_eq(
                old(parser).toks()[old(parser).position as int], expected@)
        }),
{
    if parser.position >= parser.tokens.len() {
        return Err(SyntaxError::UnexpectedEndOfInput);
    }
    let matched = variant_eq(&parser.tokens[parser.position].token, expected);
    if matched {
        parser.position = parser.position + 1;
        Ok(())
    } else {
        Err(SyntaxError::ExpectedToken)
    }
}

/// Advance over the current token when it equals one of the expected tokens;
/// otherwise report which violation stopped the parse.
pub fn consume_one_of(parser: &mut Parser, expected: Vec<Token>) -> (r: Result<(), SyntaxError>)
    ensures
        final(parser).tokens == old(parser).tokens,
        r matches Ok(_) ==> old(parser).position < old(parser).toks().len()
            && (exists|i: int| 0 <= i < expected@.len()
                && old(parser).toks()[old(parser).position as int] == #[trigger] expected@[i]@)
            && final(parser).position == old(parser).position + 1,
        r matches Err(e) ==> final(parser).position == old(parser).position && (
        if old(parser).position >= old(parser).toks().len() {
            e == SyntaxError::UnexpectedEndOfInput
        } else {
            e == SyntaxError::ExpectedToken && !(exists|i: int| 0 <= i < expected@.len()
                && old(parser).toks()[old(parser).position as int] == #[trigger] expected@[i]@)
        }),
{
    if parser.position >= parser.tokens.len() {
        return Err(SyntaxError::UnexpectedEndOfInput);
    }
    let cur = &parser.tokens[parser.position].token;
    let n = expected.len();
    let mut i: usize = 0;
    let mut found = false;
    while i < n
        invariant
            i <= n,
            n == expected@.len(),
            cur@ == old(parser).toks()[old(parser).position as int],
            found <==> exists|j: int| 0 <= j < i && cur@ == #[trigger] expected@[j]@,
        decreases n - i,
    {
        if token_eq(cur, &expected[i]) {
            found = true;
        }
        i += 1;
    }
    if found {
        parser.position = parser.position + 1;
        Ok(())
    } else {
        Err(SyntaxError::ExpectedToken)
    }
}


// ---------------------------------------------------------------------------
// Building nodes
// ---------------------------------------------------------------------------

/// Build a node with one child and no payload.
fn make_node1(kind: NodeType, a: AstNode) -> (n: AstNode)
    ensures
        ast_view(n) == (SpecAst { kind: kind, children: seq![ast_view(a)], value: None }),
{
    let ghost av = ast_view(a);
    let n = AstNode { node_type: kind, children: vec![a], value: None };
    proof {
        lemma_children_view(n.children@);
        assert(ast_children_view(n.children@) =~= seq![av]);
        assert(ast_view(n) =~= (SpecAst { kind: kind, children: seq![av], value: None }));
    }
    n
}

/// Build a node with two children and no payload.
fn make_node2(kind: NodeType, a: AstNode, b: AstNode) -> (n: AstNode)
    ensures
        ast_view(n) == (SpecAst {
            kind: kind,
            children: seq![ast_view(a), ast_view(b)],
            value: None,
        }),
{
    let ghost av = ast_view(a);
    let ghost bv = ast_view(b);
    let n = AstNode { node_type: kind, children: vec![a, b], value: None };
    proof {
        lemma_children_view(n.children@);
        assert(ast_children_view(n.children@) =~= seq![av, bv]);
        assert(ast_view(n) =~= (SpecAst { kind: kind, children: seq![av, bv], value: None }));
    }
    n
}

/// Build a node with three children and no payload.
fn make_node3(kind: NodeType, a: AstNode, b: AstNode, c: AstNode) -> (n: AstNode)
    ensures
        ast_view(n) == (SpecAst {
            kind: kind,
            children: seq![ast_view(a), ast_view(b), ast_view(c)],
            value: None,
        }),
{
    let ghost av = ast_view(a);
    let ghost bv = ast_view(b);
    let ghost cv = ast_view(c);
    let n = AstNode { node_type: kind, children: vec![a, b, c], value: None };
    proof {
        lemma_children_view(n.children@);
        assert(ast_children_view(n.children@) =~= seq![av, bv, cv]);
        assert(ast_view(n) =~= (SpecAst { kind: kind, children: seq![av, bv, cv], value: None }));
    }
    n
}

// ---------------------------------------------------------------------------
// Factors
// ---------------------------------------------------------------------------

/// Parse a number literal, per `sp_parse_number`.
pub fn parse_number(parser: &mut Parser) -> (r: Result<AstNode, SyntaxError>)
    ensures
        final(parser).tokens == old(parser).tokens,
        mirrors(r, sp_parse_number(old(parser).toks(), old(parser).position as int),
            old(parser).position as int, final(parser).position as int),
{
    reveal(sp_parse_number);
    let ghost ts = parser.toks();
    let ghost pos0 = parser.position as int;
    if parser.position >= parser.tokens.len() {
        return Err(SyntaxError::UnexpectedEndOfInput);
    }
    let v_opt: Option<i32> = match &parser.tokens[parser.position].token {
        Token::Number(v) => Some(*v),
        _ => None,
    };
    let v = match v_opt {
        Some(v) => v,
        None => {
            return Err(SyntaxError::ExpectedToken);
        },
    };
    parser.position = parser.position + 1;
    let text = i32_to_text(v);
    let node = AstNode { node_type: NodeType::Number, children: Vec::new(), value: Some(text) };
    proof {
        lemma_children_view(node.children@);
        assert(ast_children_view(node.children@) =~= Seq::<SpecAst>::empty());
        assert(ast_view(node) =~= SpecAst {
            kind: NodeType::Number,
            children: Seq::empty(),
            value: Some(int_text(v as int)),
        });
    }
    Ok(node)
}

/// Parse a bare identifier, per `sp_parse_identifier`.
pub fn parse_identifier(parser: &mut Parser) -> (r: Result<AstNode, SyntaxError>)
    ensures
        final(parser).tokens == old(parser).tokens,
        mirrors(r, sp_parse_identifier(old(parser).toks(), old(parser).position as int),
            old(parser).position as int, final(parser).position as int),
{
    reveal(sp_parse_identifier);
    let ghost ts = parser.toks();
    let ghost pos0 = parser.position as int;
    if parser.position >= parser.tokens.len() {
        return Err(SyntaxError::UnexpectedEndOfInput);
    }
    let name_opt: Option<String> = match &parser.tokens[parser.position].token {
        Token::Identifier(s) => Some(s.clone()),
        _ => None,
    };
    let name = match name_opt {
        Some(s) => s,
        None => {
            return Err(SyntaxError::ExpectedToken);
        },
    };
    parser.position = parser.position + 1;
    let ghost nv = name@;
    let node = AstNode { node_type: NodeType::Identifier, children: Vec::new(), value: Some(name) };
    proof {
        lemma_children_view(node.children@);
        assert(ast_children_view(node.children@) =~= Seq::<SpecAst>::empty());
        assert(ast_view(node) =~= SpecAst {
            kind: NodeType::Identifier,
            children: Seq::empty(),
            value: Some(nv),
        });
    }
    Ok(node)
}

/// Parse a factor, per `sp_parse_factor`.
#[verifier::rlimit(100)]
pub fn parse_factor(parser: &mut Parser) -> (r: Result<AstNode, SyntaxError>)
    ensures
        final(parser).tokens == old(parser).tokens,
        mirrors(r, sp_parse_factor(old(parser).toks(), old(parser).position as int),
            old(parser).position as int, final(parser).position as int),
    decreases rem_at(parser.toks().len() as int, parser.position as int), 5int,
{
    reveal(sp_parse_factor);
    reveal(sp_parse_number);
    reveal(sp_parse_ident_or_call);
    reveal(sp_parse_parentheses);
    if parser.is_end() {
        return Err(SyntaxError::UnexpectedEndOfInput);
    }
    let choice: u32 = match &parser.tokens[parser.position].token {
        Token::Number(_) => 0,
        Token::Identifier(_) => 1,
        Token::LParen => 2,
        _ => 3,
    };
    if choice == 0 {
        parse_number(parser)
    } else if choice == 1 {
        parse_identifier_or_function_call(parser)
    } else if choice == 2 {
        parse_parentheses(parser)
    } else {
        Err(SyntaxError::UnexpectedToken)
    }
}

/// Parse an identifier or, on a parenthesis lookahead, a call, per
/// `sp_parse_ident_or_call`.
#[verifier::rlimit(100)]
pub fn parse_identifier_or_function_call(parser: &mut Parser) -> (r: Result<AstNode, SyntaxError>)
    ensures
        final(parser).tokens == old(parser).tokens,
        mirrors(r, sp_parse_ident_or_call(old(parser).toks(), old(parser).position as int),
            old(parser).position as int, final(parser).position as int),
    decreases rem_at(parser.toks().len() as int, parser.position as int), 4int,
{
    reveal(sp_parse_ident_or_call);
    reveal(sp_parse_function_call);
    reveal(sp_parse_identifier);
    let is_call = match parser.get_next(1) {
        Some(lt) => match &lt.token {
            Token::LParen => true,
            _ => false,
        },
        None => false,
    };
    if is_call {
        parse_function_call(parser)
    } else {
        parse_identifier(parser)
    }
}

/// Parse the arguments of a call, after the opening parenthesis, appending
/// them to `args` and consuming the closing parenthesis, per
/// `sp_parse_call_args`.
#[verifier::rlimit(100)]
fn parse_call_args_into(parser: &mut Parser, args: &mut Vec<AstNode>) -> (r: Result<
    (),
    SyntaxError,
>)
    ensures
        final(parser).tokens == old(parser).tokens,
        match r {
            Ok(_) => match sp_parse_call_args(old(parser).toks(), old(parser).position as int) {
                Ok((cs, used)) => ast_children_view(final(args)@) == ast_children_view(old(args)@)
                    + cs && final(parser).position == old(parser).position + used,
                Err(_) => false,
            },
            Err(e) => match sp_parse_call_args(old(parser).toks(), old(parser).position as int) {
                Ok(_) => false,
                Err(e2) => e2 == e,
            },
        },
    decreases rem_at(parser.toks().len() as int, parser.position as int), 15int,
{
    reveal(sp_parse_call_args);
    reveal(sp_parse_expression);
    let ghost ts = parser.toks();
    let ghost pos0 = parser.position as int;
    let ghost args00 = args@;
    if parser.position >= parser.tokens.len() {
        return Err(SyntaxError::UnexpectedEndOfInput);
    }
    let at_rparen = match &parser.tokens[parser.position].token {
        Token::RParen => true,
        _ => false,
    };
    if at_rparen {
        parser.position = parser.position + 1;
        proof {
            assert(ast_children_view(args@) + Seq::<SpecAst>::empty() =~= ast_children_view(
                args@));
        }
        return Ok(());
    }
    let arg = match parse_expression(parser) {
        Ok(n) => n,
        Err(e) => {
            return Err(e);
        },
    };
    let ghost argv = ast_view(arg);
    proof {
        lemma_children_view_push(args@, arg);
    }
    args.push(arg);
    if parser.position >= parser.tokens.len() {
        return Err(SyntaxError::UnexpectedEndOfInput);
    }
    let at_rparen2 = match &parser.tokens[parser.position].token {
        Token::RParen => true,
        _ => false,
    };
    if at_rparen2 {
        parser.position = parser.position + 1;
        proof {
            assert(ast_children_view(args@) =~= ast_children_view(args00) + seq![argv]);
        }
        return Ok(());
    }
    consume_token(parser, &Token::Comma)?;
    let ghost args1 = args@;
    proof {
        assert(ast_children_view(args1) =~= ast_children_view(args00) + seq![argv]);
    }
    match parse_call_args_into(parser, args) {
        Ok(_) => {
            proof {
                if let Ok((rest, used)) = sp_parse_call_args(
                    ts,
                    pos0 + 2 + (sp_parse_expression(ts, pos0)->Ok_0.1),
                ) {
                    assert((ast_children_view(args00) + seq![argv]) + rest =~= ast_children_view(
                        args00) + (seq![argv] + rest));
                }
            }
            Ok(())
        },
        Err(e) => Err(e),
    }
}

/// Parse a call, per `sp_parse_function_call`.
#[verifier::rlimit(100)]
pub fn parse_function_call(parser: &mut Parser) -> (r: Result<AstNode, SyntaxError>)
    ensures
        final(parser).tokens == old(parser).tokens,
        mirrors(r, sp_parse_function_call(old(parser).toks(), old(parser).position as int),
            old(parser).position as int, final(parser).position as int),
    decreases rem_at(parser.toks().len() as int, parser.position as int), 3int,
{
    reveal(sp_parse_function_call);
    reveal(sp_parse_identifier);
    reveal(sp_parse_call_args);
    let ghost ts = parser.toks();
    let ghost pos0 = parser.position as int;
    let ident_ast = match parse_identifier(parser) {
        Ok(n) => n,
        Err(e) => {
            return Err(e);
        },
    };
    consume_token(parser, &Token::LParen)?;
    let mut args: Vec<AstNode> = Vec::new();
    proof {
        lemma_children_view(args@);
        assert(ast_children_view(args@) =~= Seq::<SpecAst>::empty());
    }
    match parse_call_args_into(parser, &mut args) {
        Ok(_) => {},
        Err(e) => {
            return Err(e);
        },
    }
    let ghost argsv = ast_children_view(args@);
    proof {
        if let Ok((cs, used)) = sp_parse_call_args(ts, pos0 + 2) {
            assert(Seq::<SpecAst>::empty() + cs =~= cs);
        }
    }
    let ghost namev = ast_view(ident_ast).value;
    let node = AstNode {
        node_type: NodeType::FunctionCall,
        children: args,
        value: ident_ast.value,
    };
    proof {
        assert(ast_view(node) =~= SpecAst {
            kind: NodeType::FunctionCall,
            children: argsv,
            value: namev,
        });
    }
    Ok(node)
}

/// Parse a parenthesized sub-expression, per `sp_parse_parentheses`.
#[verifier::rlimit(100)]
pub fn parse_parentheses(parser: &mut Parser) -> (r: Result<AstNode, SyntaxError>)
    ensures
        final(parser).tokens == old(parser).tokens,
        mirrors(r, sp_parse_parentheses(old(parser).toks(), old(parser).position as int),
            old(parser).position as int, final(parser).position as int),
    decreases rem_at(parser.toks().len() as int, parser.position as int), 3int,
{
    reveal(sp_parse_parentheses);
    reveal(sp_parse_expression);
    let ghost ts = parser.toks();
    let ghost pos0 = parser.position as int;
    consume_token(parser, &Token::LParen)?;
    let inner = match parse_expression(parser) {
        Ok(n) => n,
        Err(e) => {
            return Err(e);
        },
    };
    let ghost innerv = ast_view(inner);
    consume_token(parser, &Token::RParen)?;
    let node = make_node1(NodeType::LParen, inner);
    Ok(node)
}

// ---------------------------------------------------------------------------
// Binary-operator levels
// ---------------------------------------------------------------------------

/// Parse the multiplicative level, per `sp_parse_mul_div`.
pub fn parse_mul_div(parser: &mut Parser) -> (r: Result<AstNode, SyntaxError>)
    ensures
        final(parser).tokens == old(parser).tokens,
        mirrors(r, sp_parse_mul_div(old(parser).toks(), old(parser).position as int),
            old(parser).position as int, final(parser).position as int),
    decreases rem_at(parser.toks().len() as int, parser.position as int), 6int,
{
    reveal(sp_parse_mul_div);
    reveal(sp_parse_factor);
    let ghost ts = parser.toks();
    let ghost pos0 = parser.position as int;
    let left = match parse_factor(parser) {
        Ok(n) => n,
        Err(e) => {
            return Err(e);
        },
    };
    if parser.is_end() {
        return Ok(left);
    }
    let choice: u32 = match &parser.tokens[parser.position].token {
        Token::Operator(Operator::Multiply) => 0,
        Token::Operator(Operator::Divide) => 1,
        Token::Operator(Operator::Mod) => 2,
        _ => 3,
    };
    if choice == 3 {
        return Ok(left);
    }
    consume_one_of(parser, vec![
        Token::Operator(Operator::Multiply),
        Token::Operator(Operator::Divide),
        Token::Operator(Operator::Mod),
    ])?;
    let ghost leftv = ast_view(left);
    let right = match parse_mul_div(parser) {
        Ok(n) => n,
        Err(e) => {
            return Err(e);
        },
    };
    let ghost rightv = ast_view(right);
    let kind = if choice == 0 {
        NodeType::Multiply
    } else if choice == 1 {
        NodeType::Divide
    } else {
        NodeType::Mod
    };
    let node = make_node2(kind, left, right);
    Ok(node)
}

/// Parse the additive level, per `sp_parse_add_sub`.
pub fn parse_add_sub(parser: &mut Parser) -> (r: Result<AstNode, SyntaxError>)
    ensures
        final(parser).tokens == old(parser).tokens,
        mirrors(r, sp_parse_add_sub(old(parser).toks(), old(parser).position as int),
            old(parser).position as int, final(parser).position as int),
    decreases rem_at(parser.toks().len() as int, parser.position as int), 7int,
{
    reveal(sp_parse_add_sub);
    reveal(sp_parse_mul_div);
    let ghost ts = parser.toks();
    let ghost pos0 = parser.position as int;
    let left = match parse_mul_div(parser) {
        Ok(n) => n,
        Err(e) => {
            return Err(e);
        },
    };
    if parser.is_end() {
        return Ok(left);
    }
    let choice: u32 = match &parser.tokens[parser.position].token {
        Token::Operator(Operator::Add) => 0,
        Token::Operator(Operator::Subtract) => 1,
        _ => 2,
    };
    if choice == 2 {
        return Ok(left);
    }
    consume_one_of(parser, vec![
        Token::Operator(Operator::Add),
        Token::Operator(Operator::Subtract),
    ])?;
    let ghost leftv = ast_view(left);
    let right = match parse_add_sub(parser) {
        Ok(n) => n,
        Err(e) => {
            return Err(e);
        },
    };
    let ghost rightv = ast_view(right);
    let kind = if choice == 0 {
        NodeType::Add
    } else {
        NodeType::Subtract
    };
    let node = make_node2(kind, left, right);
    Ok(node)
}

/// Parse the relational level, per `sp_parse_relational`.
pub fn parse_relational(parser: &mut Parser) -> (r: Result<AstNode, SyntaxError>)
    ensures
        final(parser).tokens == old(parser).tokens,
        mirrors(r, sp_parse_relational(old(parser).toks(), old(parser).position as int),
            old(parser).position as int, final(parser).position as int),
    decreases rem_at(parser.toks().len() as int, parser.position as int), 8int,
{
    reveal(sp_parse_relational);
    reveal(sp_parse_add_sub);
    let ghost ts = parser.toks();
    let ghost pos0 = parser.position as int;
    let left = match parse_add_sub(parser) {
        Ok(n) => n,
        Err(e) => {
            return Err(e);
        },
    };
    if parser.is_end() {
        return Ok(left);
    }
    let choice: u32 = match &parser.tokens[parser.position].token {
        Token::LessThan => 0,
        Token::GreaterThan => 1,
        Token::Leq => 2,
        Token::Geq => 3,
        _ => 4,
    };
    if choice == 4 {
        return Ok(left);
    }
    consume_one_of(parser, vec![
        Token::LessThan,
        Token::GreaterThan,
        Token::Leq,
        Token::Geq,
    ])?;
    let ghost leftv = ast_view(left);
    let right = match parse_relational(parser) {
        Ok(n) => n,
        Err(e) => {
            return Err(e);
        },
    };
    let ghost rightv = ast_view(right);
    let kind = if choice == 0 {
        NodeType::LessThan
    } else if choice == 1 {
        NodeType::GreaterThan
    } else if choice == 2 {
        NodeType::Leq
    } else {
        NodeType::Geq
    };
    let node = make_node2(kind, left, right);
    Ok(node)
}

/// Parse the equality level, per `sp_parse_equality`.
pub fn parse_equality(parser: &mut Parser) -> (r: Result<AstNode, SyntaxError>)
    ensures
        final(parser).tokens == old(parser).tokens,
        mirrors(r, sp_parse_equality(old(parser).toks(), old(parser).position as int),
            old(parser).position as int, final(parser).position as int),
    decreases rem_at(parser.toks().len() as int, parser.position as int), 9int,
{
    reveal(sp_parse_equality);
    reveal(sp_parse_relational);
    let ghost ts = parser.toks();
    let ghost pos0 = parser.position as int;
    let left = match parse_relational(parser) {
        Ok(n) => n,
        Err(e) => {
            return Err(e);
        },
    };
    if parser.is_end() {
        return Ok(left);
    }
    let choice: u32 = match &parser.tokens[parser.position].token {
        Token::Eq => 0,
        Token::NotEq => 1,
        _ => 2,
    };
    if choice == 2 {
        return Ok(left);
    }
    consume_one_of(parser, vec![Token::Eq, Token::NotEq])?;
    let ghost leftv = ast_view(left);
    let right = match parse_equality(parser) {
        Ok(n) => n,
        Err(e) => {
            return Err(e);
        },
    };
    let ghost rightv = ast_view(right);
    let kind = if choice == 0 {
        NodeType::Eq
    } else {
        NodeType::NotEq
    };
    let node = make_node2(kind, left, right);
    Ok(node)
}

/// Parse an expression, per `sp_parse_expression`.
pub fn parse_expression(parser: &mut Parser) -> (r: Result<AstNode, SyntaxError>)
    ensures
        final(parser).tokens == old(parser).tokens,
        mirrors(r, sp_parse_expression(old(parser).toks(), old(parser).position as int),
            old(parser).position as int, final(parser).position as int),
    decreases rem_at(parser.toks().len() as int, parser.position as int), 10int,
{
    reveal(sp_parse_expression);
    reveal(sp_parse_equality);
    parse_equality(parser)
}


// ---------------------------------------------------------------------------
// Statements
// ---------------------------------------------------------------------------

/// Parse an assignment, per `sp_parse_assignment`.
#[verifier::rlimit(100)]
pub fn parse_assignment(parser: &mut Parser) -> (r: Result<AstNode, SyntaxError>)
    ensures
        final(parser).tokens == old(parser).tokens,
        mirrors(r, sp_parse_assignment(old(parser).toks(), old(parser).position as int),
            old(parser).position as int, final(parser).position as int),
    decreases rem_at(parser.toks().len() as int, parser.position as int), 11int,
{
    reveal(sp_parse_assignment);
    reveal(sp_parse_identifier);
    reveal(sp_parse_expression);
    let ghost ts = parser.toks();
    let ghost pos0 = parser.position as int;
    let ident_ast = match parse_identifier(parser) {
        Ok(n) => n,
        Err(e) => {
            return Err(e);
        },
    };
    let ghost idv = ast_view(ident_ast);
    consume_token(parser, &Token::Assign)?;
    let expression_ast = match parse_expression(parser) {
        Ok(n) => n,
        Err(e) => {
            return Err(e);
        },
    };
    let ghost ev = ast_view(expression_ast);
    let node = make_node2(NodeType::Assign, ident_ast, expression_ast);
    Ok(node)
}

/// Parse a declaration, per `sp_parse_declare`.
#[verifier::rlimit(100)]
pub fn parse_declare(parser: &mut Parser) -> (r: Result<AstNode, SyntaxError>)
    ensures
        final(parser).tokens == old(parser).tokens,
        mirrors(r, sp_parse_declare(old(parser).toks(), old(parser).position as int),
            old(parser).position as int, final(parser).position as int),
    decreases rem_at(parser.toks().len() as int, parser.position as int), 12int,
{
    reveal(sp_parse_declare);
    reveal(sp_parse_assignment);
    reveal(sp_parse_identifier);
    let ghost ts = parser.toks();
    let ghost pos0 = parser.position as int;
    consume_token(parser, &Token::Declare)?;
    let has_initializer = match parser.get_next(1) {
        Some(lt) => match &lt.token {
            Token::Assign => true,
            _ => false,
        },
        None => false,
    };
    if has_initializer {
        let assign_ast = match parse_assignment(parser) {
            Ok(n) => n,
            Err(e) => {
                return Err(e);
            },
        };
        let node = make_node1(NodeType::Declare, assign_ast);
        Ok(node)
    } else {
        let ident_ast = match parse_identifier(parser) {
            Ok(n) => n,
            Err(e) => {
                return Err(e);
            },
        };
        let bare_assign = make_node1(NodeType::Assign, ident_ast);
        let node = make_node1(NodeType::Declare, bare_assign);
        Ok(node)
    }
}

/// Parse a return statement, per `sp_parse_return`.
#[verifier::rlimit(100)]
pub fn parse_return(parser: &mut Parser) -> (r: Result<AstNode, SyntaxError>)
    ensures
        final(parser).tokens == old(parser).tokens,
        mirrors(r, sp_parse_return(old(parser).toks(), old(parser).position as int),
            old(parser).position as int, final(parser).position as int),
    decreases rem_at(parser.toks().len() as int, parser.position as int), 11int,
{
    reveal(sp_parse_return);
    reveal(sp_parse_expression);
    let ghost ts = parser.toks();
    let ghost pos0 = parser.position as int;
    consume_token(parser, &Token::Return)?;
    let expression = match parse_expression(parser) {
        Ok(n) => n,
        Err(e) => {
            return Err(e);
        },
    };
    let ghost ev = ast_view(expression);
    let node = make_node1(NodeType::Return, expression);
    Ok(node)
}

/// Parse the statements of a block, after the opening brace, appending them
/// to `children` and consuming the closing brace, per `sp_parse_block_stmts`.
#[verifier::rlimit(100)]
fn parse_block_stmts_into(parser: &mut Parser, children: &mut Vec<AstNode>) -> (r: Result<
    (),
    SyntaxError,
>)
    ensures
        final(parser).tokens == old(parser).tokens,
        match r {
            Ok(_) => match sp_parse_block_stmts(old(parser).toks(), old(parser).position as int) {
                Ok((cs, used)) => ast_children_view(final(children)@) == ast_children_view(
                    old(children)@) + cs && final(parser).position == old(parser).position + used,
                Err(_) => false,
            },
            Err(e) => match sp_parse_block_stmts(old(parser).toks(), old(parser).position as int) {
                Ok(_) => false,
                Err(e2) => e2 == e,
            },
        },
    decreases rem_at(parser.toks().len() as int, parser.position as int), 15int,
{
    reveal(sp_parse_block_stmts);
    reveal(sp_parse_statement);
    let ghost ts = parser.toks();
    let ghost pos0 = parser.position as int;
    let ghost cs00 = children@;
    if parser.position >= parser.tokens.len() {
        return Err(SyntaxError::UnexpectedEndOfInput);
    }
    let at_rcurly = match &parser.tokens[parser.position].token {
        Token::RCurly => true,
        _ => false,
    };
    if at_rcurly {
        parser.position = parser.position + 1;
        proof {
            assert(ast_children_view(children@) + Seq::<SpecAst>::empty() =~= ast_children_view(
                children@));
        }
        return Ok(());
    }
    let st = match parse_statement(parser) {
        Ok(n) => n,
        Err(e) => {
            return Err(e);
        },
    };
    let ghost stv = ast_view(st);
    proof {
        lemma_children_view_push(children@, st);
    }
    children.push(st);
    let ghost cs_mid = children@;
    proof {
        assert(ast_children_view(cs_mid) =~= ast_children_view(cs00) + seq![stv]);
    }
    match parse_block_stmts_into(parser, children) {
        Ok(_) => {
            proof {
                if let Ok((rest, used)) = sp_parse_block_stmts(
                    ts,
                    pos0 + 1 + (sp_parse_statement(ts, pos0)->Ok_0.1),
                ) {
                    assert((ast_children_view(cs00) + seq![stv]) + rest =~= ast_children_view(
                        cs00) + (seq![stv] + rest));
                }
            }
            Ok(())
        },
        Err(e) => Err(e),
    }
}

/// Parse a block, per `sp_parse_block`.
#[verifier::rlimit(100)]
pub fn parse_block(parser: &mut Parser) -> (r: Result<AstNode, SyntaxError>)
    ensures
        final(parser).tokens == old(parser).tokens,
        mirrors(r, sp_parse_block(old(parser).toks(), old(parser).position as int),
            old(parser).position as int, final(parser).position as int),
    decreases rem_at(parser.toks().len() as int, parser.position as int), 4int,
{
    reveal(sp_parse_block);
    reveal(sp_parse_block_stmts);
    let ghost ts = parser.toks();
    let ghost pos0 = parser.position as int;
    consume_token(parser, &Token::LCurly)?;
    let mut children: Vec<AstNode> = Vec::new();
    proof {
        lemma_children_view(children@);
        assert(ast_children_view(children@) =~= Seq::<SpecAst>::empty());
    }
    match parse_block_stmts_into(parser, &mut children) {
        Ok(_) => {},
        Err(e) => {
            return Err(e);
        },
    }
    let ghost cv = ast_children_view(children@);
    proof {
        if let Ok((cs, used)) = sp_parse_block_stmts(ts, pos0 + 1) {
            assert(Seq::<SpecAst>::empty() + cs =~= cs);
        }
    }
    let node = AstNode { node_type: NodeType::Block, children, value: None };
    proof {
        assert(ast_view(node) =~= SpecAst { kind: NodeType::Block, children: cv, value: None });
    }
    Ok(node)
}

/// Parse a conditional, per `sp_parse_if`.
#[verifier::rlimit(100)]
pub fn parse_if(parser: &mut Parser) -> (r: Result<AstNode, SyntaxError>)
    ensures
        final(parser).tokens == old(parser).tokens,
        mirrors(r, sp_parse_if(old(parser).toks(), old(parser).position as int),
            old(parser).position as int, final(parser).position as int),
    decreases rem_at(parser.toks().len() as int, parser.position as int), 11int,
{
    reveal(sp_parse_if);
    reveal(sp_parse_expression);
    reveal(sp_parse_block);
    let ghost ts = parser.toks();
    let ghost pos0 = parser.position as int;
    consume_token(parser, &Token::If)?;
    let condition = match parse_expression(parser) {
        Ok(n) => n,
        Err(e) => {
            return Err(e);
        },
    };
    let ghost condv = ast_view(condition);
    let block = match parse_block(parser) {
        Ok(n) => n,
        Err(e) => {
            return Err(e);
        },
    };
    let ghost blkv = ast_view(block);
    if parser.position >= parser.tokens.len() {
        return Err(SyntaxError::UnexpectedEndOfInput);
    }
    let has_else = match &parser.tokens[parser.position].token {
        Token::Else => true,
        _ => false,
    };
    if has_else {
        consume_token(parser, &Token::Else)?;
        let else_block = match parse_block(parser) {
            Ok(n) => n,
            Err(e) => {
                return Err(e);
            },
        };
        let node = make_node3(NodeType::If, condition, block, else_block);
        Ok(node)
    } else {
        let node = make_node2(NodeType::If, condition, block);
        Ok(node)
    }
}

/// Parse a parameter list, after the opening parenthesis, appending the
/// type and name identifiers to `params` and consuming the closing
/// parenthesis, per `sp_parse_params`.
#[verifier::rlimit(100)]
fn parse_params_into(parser: &mut Parser, params: &mut Vec<AstNode>) -> (r: Result<
    (),
    SyntaxError,
>)
    ensures
        final(parser).tokens == old(parser).tokens,
        match r {
            Ok(_) => match sp_parse_params(old(parser).toks(), old(parser).position as int) {
                Ok((cs, used)) => ast_children_view(final(params)@) == ast_children_view(
                    old(params)@) + cs && final(parser).position == old(parser).position + used,
                Err(_) => false,
            },
            Err(e) => match sp_parse_params(old(parser).toks(), old(parser).position as int) {
                Ok(_) => false,
                Err(e2) => e2 == e,
            },
        },
    decreases rem_at(parser.toks().len() as int, parser.position as int), 15int,
{
    reveal(sp_parse_params);
    reveal(sp_parse_identifier);
    let ghost ts = parser.toks();
    let ghost pos0 = parser.position as int;
    let ghost cs00 = params@;
    if parser.position >= parser.tokens.len() {
        return Err(SyntaxError::UnexpectedEndOfInput);
    }
    let at_rparen = match &parser.tokens[parser.position].token {
        Token::RParen => true,
        _ => false,
    };
    if at_rparen {
        parser.position = parser.position + 1;
        proof {
            assert(ast_children_view(params@) + Seq::<SpecAst>::empty() =~= ast_children_view(
                params@));
        }
        return Ok(());
    }
    let ty = match parse_identifier(parser) {
        Ok(n) => n,
        Err(e) => {
            return Err(e);
        },
    };
    let ghost tyv = ast_view(ty);
    proof {
        lemma_children_view_push(params@, ty);
    }
    params.push(ty);
    let nm = match parse_identifier(parser) {
        Ok(n) => n,
        Err(e) => {
            return Err(e);
        },
    };
    let ghost nmv = ast_view(nm);
    proof {
        lemma_children_view_push(params@, nm);
    }
    params.push(nm);
    if parser.position >= parser.tokens.len() {
        return Err(SyntaxError::UnexpectedEndOfInput);
    }
    let at_rparen2 = match &parser.tokens[parser.position].token {
        Token::RParen => true,
        _ => false,
    };
    if at_rparen2 {
        parser.position = parser.position + 1;
        proof {
            assert(ast_children_view(params@) =~= ast_children_view(cs00) + seq![tyv, nmv]);
        }
        return Ok(());
    }
    consume_token(parser, &Token::Comma)?;
    let ghost cs_mid = params@;
    proof {
        assert(ast_children_view(cs_mid) =~= ast_children_view(cs00) + seq![tyv, nmv]);
    }
    match parse_params_into(parser, params) {
        Ok(_) => {
            proof {
                if let Ok((rest, used)) = sp_parse_params(ts, pos0 + 3) {
                    assert((ast_children_view(cs00) + seq![tyv, nmv]) + rest =~= ast_children_view(
                        cs00) + (seq![tyv, nmv] + rest));
                }
            }
            Ok(())
        },
        Err(e) => Err(e),
    }
}

/// Parse a definition, per `sp_parse_function`.
#[verifier::rlimit(100)]
pub fn parse_function(parser: &mut Parser) -> (r: Result<AstNode, SyntaxError>)
    ensures
        final(parser).tokens == old(parser).tokens,
        mirrors(r, sp_parse_function(old(parser).toks(), old(parser).position as int),
            old(parser).position as int, final(parser).position as int),
    decreases rem_at(parser.toks().len() as int, parser.position as int), 11int,
{
    reveal(sp_parse_function);
    reveal(sp_parse_identifier);
    reveal(sp_parse_params);
    reveal(sp_parse_block);
    let ghost ts = parser.toks();
    let ghost pos0 = parser.position as int;
    consume_token(parser, &Token::Function)?;
    let name = match parse_identifier(parser) {
        Ok(n) => n,
        Err(e) => {
            return Err(e);
        },
    };
    consume_token(parser, &Token::LParen)?;
    let mut args: Vec<AstNode> = Vec::new();
    proof {
        lemma_children_view(args@);
        assert(ast_children_view(args@) =~= Seq::<SpecAst>::empty());
    }
    match parse_params_into(parser, &mut args) {
        Ok(_) => {},
        Err(e) => {
            return Err(e);
        },
    }
    let ghost argsv = ast_children_view(args@);
    proof {
        if let Ok((cs, used)) = sp_parse_params(ts, pos0 + 3) {
            assert(Seq::<SpecAst>::empty() + cs =~= cs);
        }
    }
    let params = AstNode { node_type: NodeType::Parameters, children: args, value: None };
    let ghost paramsv = ast_view(params);
    proof {
        assert(paramsv =~= SpecAst {
            kind: NodeType::Parameters,
            children: argsv,
            value: None,
        });
    }
    let block_ast = match parse_block(parser) {
        Ok(n) => n,
        Err(e) => {
            return Err(e);
        },
    };
    let ghost blkv = ast_view(block_ast);
    let ghost namev = ast_view(name).value;
    let node = AstNode {
        node_type: NodeType::FunctionDef,
        children: vec![params, block_ast],
        value: name.value,
    };
    proof {
        lemma_children_view(node.children@);
        assert(ast_children_view(node.children@) =~= seq![paramsv, blkv]);
        assert(ast_view(node) =~= SpecAst {
            kind: NodeType::FunctionDef,
            children: seq![paramsv, blkv],
            value: namev,
        });
    }
    Ok(node)
}


/// Which production starts at a token of this kind: `0` an expression, `1`
/// a declaration, `2` an assignment, `4` a definition, `5` a block, `6` a
/// return, `7` a conditional, `9` an identifier (an assignment when `=`
/// follows, else an expression), `8` none.
pub open spec fn spec_dispatch(t: TokenV) -> u32 {
    match t {
        TokenV::Operator(_) => 0,
        TokenV::Not => 0,
        TokenV::Identifier(_) => 9,
        TokenV::Number(_) => 0,
        TokenV::Declare => 1,
        TokenV::Assign => 2,
        TokenV::LParen => 0,
        TokenV::Function => 4,
        TokenV::LCurly => 5,
        TokenV::Return => 6,
        TokenV::If => 7,
        _ => 8,
    }
}

fn dispatch_choice(t: &Token) -> (c: u32)
    ensures
        c == spec_dispatch(t@),
{
    match t {
        Token::Operator(_) => 0,
        Token::Not => 0,
        Token::Identifier(_) => 9,
        Token::Number(_) => 0,
        Token::Declare => 1,
        Token::Assign => 2,
        Token::LParen => 0,
        Token::Function => 4,
        Token::LCurly => 5,
        Token::Return => 6,
        Token::If => 7,
        _ => 8,
    }
}

/// Parse one construct, dispatched on the current token, per `sp_parse_next`.
#[verifier::rlimit(100)]
pub fn parse_next(parser: &mut Parser) -> (r: Result<AstNode, SyntaxError>)
    ensures
        final(parser).tokens == old(parser).tokens,
        mirrors(r, sp_parse_next(old(parser).toks(), old(parser).position as int),
            old(parser).position as int, final(parser).position as int),
    decreases rem_at(parser.toks().len() as int, parser.position as int), 13int,
{
    let ghost ts = parser.toks();
    let ghost pos0 = parser.position as int;
    if parser.is_end() {
        proof {
            reveal(sp_parse_next);
            assert(sp_parse_next(ts, pos0) == Err::<(SpecAst, nat), SyntaxError>(
                SyntaxError::UnexpectedEndOfInput));
        }
        return Err(SyntaxError::UnexpectedEndOfInput);
    }
    let choice: u32 = dispatch_choice(&parser.tokens[parser.position].token);
    proof {
        assert(spec_dispatch(ts[pos0]) == choice);
    }
    if choice == 0 {
        proof {
            reveal(sp_parse_next);
            reveal(sp_parse_expression);
            assert(sp_parse_next(ts, pos0) == sp_parse_expression(ts, pos0));
        }
        parse_expression(parser)
    } else if choice == 1 {
        proof {
            reveal(sp_parse_next);
            reveal(sp_parse_declare);
            assert(sp_parse_next(ts, pos0) == sp_parse_declare(ts, pos0));
        }
        parse_declare(parser)
    } else if choice == 2 {
        proof {
            reveal(sp_parse_next);
            reveal(sp_parse_assignment);
            assert(sp_parse_next(ts, pos0) == sp_parse_assignment(ts, pos0));
        }
        parse_assignment(parser)
    } else if choice == 9 {
        let is_assign = match parser.get_next(1) {
            Some(lt) => match &lt.token {
                Token::Assign => true,
                _ => false,
            },
            None => false,
        };
        if is_assign {
            proof {
                reveal(sp_parse_next);
                reveal(sp_parse_assignment);
                assert(sp_parse_next(ts, pos0) == sp_parse_assignment(ts, pos0));
            }
            parse_assignment(parser)
        } else {
            proof {
                reveal(sp_parse_next);
                reveal(sp_parse_expression);
                assert(sp_parse_next(ts, pos0) == sp_parse_expression(ts, pos0));
            }
            parse_expression(parser)
        }
    } else if choice == 4 {
        proof {
            reveal(sp_parse_next);
            reveal(sp_parse_function);
            assert(sp_parse_next(ts, pos0) == sp_parse_function(ts, pos0));
        }
        parse_function(parser)
    } else if choice == 5 {
        proof {
            reveal(sp_parse_next);
            reveal(sp_parse_block);
            assert(sp_parse_next(ts, pos0) == sp_parse_block(ts, pos0));
        }
        parse_block(parser)
    } else if choice == 6 {
        proof {
            reveal(sp_parse_next);
            reveal(sp_parse_return);
            assert(sp_parse_next(ts, pos0) == sp_parse_return(ts, pos0));
        }
        parse_return(parser)
    } else if choice == 7 {
        proof {
            reveal(sp_parse_next);
            reveal(sp_parse_if);
            assert(sp_parse_next(ts, pos0) == sp_parse_if(ts, pos0));
        }
        parse_if(parser)
    } else {
        proof {
            reveal(sp_parse_next);
            assert(sp_parse_next(ts, pos0) == Err::<(SpecAst, nat), SyntaxError>(
                SyntaxError::UnexpectedToken));
        }
        Err(SyntaxError::UnexpectedToken)
    }
}

/// Parse a statement, per `sp_parse_statement`.
#[verifier::rlimit(100)]
pub fn parse_statement(parser: &mut Parser) -> (r: Result<AstNode, SyntaxError>)
    ensures
        final(parser).tokens == old(parser).tokens,
        mirrors(r, sp_parse_statement(old(parser).toks(), old(parser).position as int),
            old(parser).position as int, final(parser).position as int),
    decreases rem_at(parser.toks().len() as int, parser.position as int), 14int,
{
    reveal(sp_parse_statement);
    reveal(sp_parse_next);
    let node = match parse_next(parser) {
        Ok(n) => n,
        Err(e) => {
            return Err(e);
        },
    };
    consume_token(parser, &Token::Semi)?;
    Ok(node)
}

/// Parse the top-level statements to the end of the tokens, appending them
/// to `children`, per `sp_parse_stmts`.
#[verifier::rlimit(100)]
fn parse_stmts_into(parser: &mut Parser, children: &mut Vec<AstNode>) -> (r: Result<
    (),
    SyntaxError,
>)
    ensures
        final(parser).tokens == old(parser).tokens,
        match r {
            Ok(_) => match sp_parse_stmts(old(parser).toks(), old(parser).position as int) {
                Ok((cs, used)) => ast_children_view(final(children)@) == ast_children_view(
                    old(children)@) + cs && final(parser).position == old(parser).position + used,
                Err(_) => false,
            },
            Err(e) => match sp_parse_stmts(old(parser).toks(), old(parser).position as int) {
                Ok(_) => false,
                Err(e2) => e2 == e,
            },
        },
    decreases rem_at(parser.toks().len() as int, parser.position as int), 15int,
{
    reveal(sp_parse_stmts);
    reveal(sp_parse_statement);
    let ghost ts = parser.toks();
    let ghost pos0 = parser.position as int;
    let ghost cs00 = children@;
    if parser.position >= parser.tokens.len() {
        proof {
            assert(ast_children_view(children@) + Seq::<SpecAst>::empty() =~= ast_children_view(
                children@));
        }
        return Ok(());
    }
    let st = match parse_statement(parser) {
        Ok(n) => n,
        Err(e) => {
            return Err(e);
        },
    };
    let ghost stv = ast_view(st);
    proof {
        lemma_children_view_push(children@, st);
    }
    children.push(st);
    let ghost cs_mid = children@;
    proof {
        assert(ast_children_view(cs_mid) =~= ast_children_view(cs00) + seq![stv]);
    }
    match parse_stmts_into(parser, children) {
        Ok(_) => {
            proof {
                if let Ok((rest, used)) = sp_parse_stmts(
                    ts,
                    pos0 + 1 + (sp_parse_statement(ts, pos0)->Ok_0.1),
                ) {
                    assert((ast_children_view(cs00) + seq![stv]) + rest =~= ast_children_view(
                        cs00) + (seq![stv] + rest));
                }
            }
            Ok(())
        },
        Err(e) => Err(e),
    }
}

/// Parse a whole program, per `sp_parse`: the top-level statements under one
/// `Block` root, or the first grammar violation.
#[verifier::rlimit(100)]
pub fn parse(tokens: Vec<LexerToken>) -> (r: Result<AstNode, SyntaxError>)
    ensures
        match r {
            Ok(node) => sp_parse(lex_toks(tokens@)) == Ok::<SpecAst, SyntaxError>(ast_view(node)),
            Err(e) => sp_parse(lex_toks(tokens@)) == Err::<SpecAst, SyntaxError>(e),
        },
{
    reveal(sp_parse);
    reveal(sp_parse_stmts);
    let ghost ts = lex_toks(tokens@);
    let mut parser = Parser { tokens, position: 0 };
    let mut children: Vec<AstNode> = Vec::new();
    proof {
        lemma_children_view(children@);
        assert(ast_children_view(children@) =~= Seq::<SpecAst>::empty());
    }
    match parse_stmts_into(&mut parser, &mut children) {
        Ok(_) => {},
        Err(e) => {
            return Err(e);
        },
    }
    let ghost cv = ast_children_view(children@);
    proof {
        if let Ok((cs, used)) = sp_parse_stmts(ts, 0) {
            assert(Seq::<SpecAst>::empty() + cs =~= cs);
        }
    }
    let root = AstNode { node_type: NodeType::Block, children, value: None };
    proof {
        assert(ast_view(root) =~= SpecAst { kind: NodeType::Block, children: cv, value: None });
    }
    Ok(root)
}

} // verus!
