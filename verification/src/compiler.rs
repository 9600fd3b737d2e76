//! The code generator: an abstract syntax tree to C source text.
//!
//! The `sp_*` specification functions state the exact text each node lowers
//! to; every executable function returns exactly that text, or the first
//! violation as a `CompileError`. The whole program is lowered as a fixed
//! include preamble, every top-level function definition in source order,
//! then a `main` function holding the remaining statements, indented one
//! tab, ending in a normal-exit return.

use vstd::prelude::*;
use vstd::string::StringExecFns;
use crate::ast::{AstNode, NodeType, SpecAst, ast_view, ast_children_view, lemma_children_view};
use crate::text::str_eq;

verus! {

/// Errors of the code generator.
#[derive(Debug, Clone, Copy, PartialEq, Eq, Structural)]
pub enum CompileError {
    /// A `Parameters` node outside a definition's parameter position.
    UnexpectedParameters,
    /// A node kind the generator does not support.
    UnsupportedNode,
    /// A node without the children or text payload its kind requires.
    MalformedTree,
}

/// The node kinds lowered to infix operator text.
pub open spec fn is_infix_kind(k: NodeType) -> bool {
    k == NodeType::Add || k == NodeType::Subtract || k == NodeType::Multiply
        || k == NodeType::Divide || k == NodeType::Mod || k == NodeType::Eq
        || k == NodeType::NotEq || k == NodeType::LessThan || k == NodeType::GreaterThan
        || k == NodeType::Leq || k == NodeType::Geq
}

/// The operator symbol of an infix node kind.
pub open spec fn op_symbol(k: NodeType) -> Seq<char> {
    if k == NodeType::Add { "+"@ }
    else if k == NodeType::Subtract { "-"@ }
    else if k == NodeType::Multiply { "*"@ }
    else if k == NodeType::Divide { "/"@ }
    else if k == NodeType::Mod { "%"@ }
    else if k == NodeType::Eq { "=="@ }
    else if k == NodeType::NotEq { "!="@ }
    else if k == NodeType::LessThan { "<"@ }
    else if k == NodeType::GreaterThan { ">"@ }
    else if k == NodeType::Leq { "<="@ }
    else { ">="@ }
}

/// The text a node lowers to.
pub open spec fn sp_compile_node(n: SpecAst) -> Result<Seq<char>, CompileError>
    decreases n, 2int,
{
    if is_infix_kind(n.kind) {
        if n.children.len() < 2 {
            Err(CompileError::MalformedTree)
        } else {
            match sp_compile_node(n.children[0]) {
                Err(e) => Err(e),
                Ok(l) => match sp_compile_node(n.children[1]) {
                    Err(e) => Err(e),
                    Ok(r) => Ok(l + " "@ + op_symbol(n.kind) + " "@ + r),
                },
            }
        }
    } else if n.kind == NodeType::Number || n.kind == NodeType::Identifier {
        match n.value {
            Some(t) => Ok(t),
            None => Err(CompileError::MalformedTree),
        }
    } else if n.kind == NodeType::Block {
        sp_tabbed_lines(n.children)
    } else if n.kind == NodeType::Declare {
        if n.children.len() < 1 || n.children[0].children.len() < 1
            || n.children[0].children[0].value is None {
            Err(CompileError::MalformedTree)
        } else if n.children[0].children.len() == 1 {
            Ok("int "@ + n.children[0].children[0].value->0)
        } else {
            match sp_compile_node(n.children[0].children[1]) {
                Err(e) => Err(e),
                Ok(t) => Ok("int "@ + n.children[0].children[0].value->0 + " = "@ + t),
            }
        }
    } else if n.kind == NodeType::Assign {
        sp_compile_assign(n)
    } else if n.kind == NodeType::LParen {
        if n.children.len() < 1 {
            Err(CompileError::MalformedTree)
        } else {
            match sp_compile_node(n.children[0]) {
                Err(e) => Err(e),
                Ok(t) => Ok("("@ + t + ")"@),
            }
        }
    } else if n.kind == NodeType::FunctionDef {
        if n.value is None || n.children.len() < 2 {
            Err(CompileError::MalformedTree)
        } else {
            match sp_params_text(n.children[0].children) {
                Err(e) => Err(e),
                Ok(ps) => match sp_tabbed_lines(n.children[1].children) {
                    Err(e) => Err(e),
                    Ok(body) => Ok(
                        "int "@ + n.value->0 + "("@ + ps + ") {\n"@ + body + "\n}"@,
                    ),
                },
            }
        }
    } else if n.kind == NodeType::FunctionCall {
        if n.value is None {
            Err(CompileError::MalformedTree)
        } else if n.value->0 == "print"@ {
            sp_print_text(n.children)
        } else {
            match sp_args_text(n.children) {
                Err(e) => Err(e),
                Ok(args) => Ok(n.value->0 + "("@ + args + ")"@),
            }
        }
    } else if n.kind == NodeType::Return {
        if n.children.len() < 1 {
            Err(CompileError::MalformedTree)
        } else {
            match sp_compile_node(n.children[0]) {
                Err(e) => Err(e),
                Ok(t) => Ok("return "@ + t + ";"@),
            }
        }
    } else if n.kind == NodeType::If {
        if n.children.len() < 2 {
            Err(CompileError::MalformedTree)
        } else {
            match sp_compile_node(n.children[0]) {
                Err(e) => Err(e),
                Ok(cond) => match sp_tabbed_lines(n.children[1].children) {
                    Err(e) => Err(e),
                    Ok(body) => if n.children.len() == 2 {
                        Ok("if ("@ + cond + ") {\n"@ + body + "\n}"@)
                    } else {
                        match sp_tabbed_lines(n.children[2].children) {
                            Err(e) => Err(e),
                            Ok(eb) => Ok(
                                "if ("@ + cond + ") {\n"@ + body + "\n} else {\n"@ + eb
                                    + "\n}"@,
                            ),
                        }
                    },
                },
            }
        }
    } else if n.kind == NodeType::Parameters {
        Err(CompileError::UnexpectedParameters)
    } else {
        Err(CompileError::UnsupportedNode)
    }
}

/// The text of an assignment: the target name, `=`, the expression, and a
/// closing semicolon.
pub open spec fn sp_compile_assign(a: SpecAst) -> Result<Seq<char>, CompileError>
    decreases a, 1int,
{
    if a.children.len() < 2 {
        Err(CompileError::MalformedTree)
    } else if a.children[0].value is None {
        Err(CompileError::MalformedTree)
    } else {
        match sp_compile_node(a.children[1]) {
            Err(e) => Err(e),
            Ok(e_text) => Ok(a.children[0].value->0 + " = "@ + e_text + ";"@),
        }
    }
}

/// The statements of a block: each lowered, prefixed with one tab, joined
/// with line breaks.
pub open spec fn sp_tabbed_lines(cs: Seq<SpecAst>) -> Result<Seq<char>, CompileError>
    decreases cs, 0int,
{
    if cs.len() == 0 {
        Ok(Seq::empty())
    } else {
        match sp_compile_node(cs[0]) {
            Err(e) => Err(e),
            Ok(t) => match sp_tabbed_lines(cs.subrange(1, cs.len() as int)) {
                Err(e) => Err(e),
                Ok(rest) => if cs.len() == 1 {
                    Ok("\t"@ + t)
                } else {
                    Ok("\t"@ + t + "\n"@ + rest)
                },
            },
        }
    }
}

/// A definition's parameters: pairs of a type name and a parameter name,
/// joined with commas.
pub open spec fn sp_params_text(cs: Seq<SpecAst>) -> Result<Seq<char>, CompileError>
    decreases cs, 0int,
{
    if cs.len() == 0 {
        Ok(Seq::empty())
    } else if cs.len() == 1 {
        Err(CompileError::MalformedTree)
    } else if cs[0].value is None || cs[1].value is None {
        Err(CompileError::MalformedTree)
    } else {
        match sp_params_text(cs.subrange(2, cs.len() as int)) {
            Err(e) => Err(e),
            Ok(rest) => if cs.len() == 2 {
                Ok(cs[0].value->0 + " "@ + cs[1].value->0)
            } else {
                Ok(cs[0].value->0 + " "@ + cs[1].value->0 + ", "@ + rest)
            },
        }
    }
}

/// A call's arguments: each lowered, joined with commas.
pub open spec fn sp_args_text(cs: Seq<SpecAst>) -> Result<Seq<char>, CompileError>
    decreases cs, 0int,
{
    if cs.len() == 0 {
        Ok(Seq::empty())
    } else {
        match sp_compile_node(cs[0]) {
            Err(e) => Err(e),
            Ok(t) => match sp_args_text(cs.subrange(1, cs.len() as int)) {
                Err(e) => Err(e),
                Ok(rest) => if cs.len() == 1 {
                    Ok(t)
                } else {
                    Ok(t + ", "@ + rest)
                },
            },
        }
    }
}

/// The format placeholders of a built-in print: one `%d` per argument,
/// joined with commas.
pub open spec fn sp_print_format(len: int) -> Seq<char>
    decreases len,
{
    if len <= 0 {
        Seq::empty()
    } else if len == 1 {
        "%d"@
    } else {
        sp_print_format(len - 1) + ", "@ + "%d"@
    }
}

/// The lowering of the built-in `print`: a formatted-output call with one
/// integer placeholder per argument and a trailing line break.
pub open spec fn sp_print_text(cs: Seq<SpecAst>) -> Result<Seq<char>, CompileError>
    decreases cs, 1int,
{
    match sp_args_text(cs) {
        Err(e) => Err(e),
        Ok(args) => Ok(
            "printf(\""@ + sp_print_format(cs.len() as int) + "\\n\", "@ + args + ");"@,
        ),
    }
}

/// The texts of the hoisted function definitions and of the remaining
/// top-level statements, in source order: definitions joined with line
/// breaks, other statements tab-prefixed and joined with line breaks.
/// `has_f` and `has_b` say whether either part already has an entry, so a
/// separator is owed.
pub open spec fn sp_top_texts(cs: Seq<SpecAst>, has_f: bool, has_b: bool) -> Result<
    (Seq<char>, Seq<char>),
    CompileError,
>
    decreases cs,
{
    if cs.len() == 0 {
        Ok((Seq::empty(), Seq::empty()))
    } else {
        match sp_compile_node(cs[0]) {
            Err(e) => Err(e),
            Ok(t) => if cs[0].kind == NodeType::FunctionDef {
                match sp_top_texts(cs.subrange(1, cs.len() as int), true, has_b) {
                    Err(e) => Err(e),
                    Ok((f, b)) => Ok(((if has_f { "\n"@ + t } else { t }) + f, b)),
                }
            } else {
                match sp_top_texts(cs.subrange(1, cs.len() as int), has_f, true) {
                    Err(e) => Err(e),
                    Ok((f, b)) => Ok((f, (if has_b { "\n\t"@ + t } else { "\t"@ + t }) + b)),
                }
            },
        }
    }
}

/// The text of a whole program: the include preamble, the hoisted function
/// definitions, and a `main` function around the remaining statements,
/// ending in a normal-exit return.
pub open spec fn sp_compile(root: SpecAst) -> Result<Seq<char>, CompileError> {
    match sp_top_texts(root.children, false, false) {
        Err(e) => Err(e),
        Ok((f, b)) => Ok(
            "#include <stdio.h>\n"@ + "\n"@ + f + "\n\n"@ + "int main() {\n"@ + b
                + "\n\treturn 0;\n}"@,
        ),
    }
}

// ---------------------------------------------------------------------------
// Executable lowering
// ---------------------------------------------------------------------------

/// Lower one node, per `sp_compile_node`.
#[verifier::rlimit(100)]
pub fn compile_node(node: &AstNode) -> (r: Result<String, CompileError>)
    ensures
        match r {
            Ok(t) => sp_compile_node(ast_view(*node)) == Ok::<Seq<char>, CompileError>(t@),
            Err(e) => sp_compile_node(ast_view(*node)) == Err::<Seq<char>, CompileError>(e),
        },
    decreases *node, (if is_infix_kind(node.node_type) { 2int } else { 3int }),
{
    proof {
        lemma_children_view(node.children@);
    }
    match node.node_type {
        NodeType::Add | NodeType::Subtract | NodeType::Multiply | NodeType::Divide
            | NodeType::Mod | NodeType::Eq | NodeType::NotEq | NodeType::LessThan
            | NodeType::GreaterThan | NodeType::Leq | NodeType::Geq => {
            compile_expression(node)
        },
        NodeType::Number | NodeType::Identifier => {
            match &node.value {
                Some(t) => Ok(t.clone()),
                None => Err(CompileError::MalformedTree),
            }
        },
        NodeType::Block => compile_block(node),
        NodeType::Declare => compile_declare(node),
        NodeType::Assign => compile_assign(node),
        NodeType::LParen => {
            if node.children.len() < 1 {
                return Err(CompileError::MalformedTree);
            }
            compile_parentheses(&node.children[0])
        },
        NodeType::FunctionDef => compile_function_def(node),
        NodeType::FunctionCall => compile_function_call(node),
        NodeType::Return => {
            if node.children.len() < 1 {
                return Err(CompileError::MalformedTree);
            }
            let inner = match compile_node(&node.children[0]) {
                Ok(t) => t,
                Err(e) => {
                    return Err(e);
                },
            };
            let mut out = String::new();
            out.append("return ");
            out.append(inner.as_str());
            out.append(";");
            proof {
                assert(out@ =~= "return "@ + inner@ + ";"@);
            }
            Ok(out)
        },
        NodeType::If => compile_if(node),
        NodeType::Parameters => Err(CompileError::UnexpectedParameters),
        _ => Err(CompileError::UnsupportedNode),
    }
}

/// Lower an infix expression node; on any other kind fall back to the
/// generic lowering. Agrees with `sp_compile_node` on every node.
#[verifier::rlimit(100)]
pub fn compile_expression(node: &AstNode) -> (r: Result<String, CompileError>)
    ensures
        match r {
            Ok(t) => sp_compile_node(ast_view(*node)) == Ok::<Seq<char>, CompileError>(t@),
            Err(e) => sp_compile_node(ast_view(*node)) == Err::<Seq<char>, CompileError>(e),
        },
    decreases *node, (if is_infix_kind(node.node_type) { 1int } else { 4int }),
{
    proof {
        lemma_children_view(node.children@);
    }
    let sym: &str = match node.node_type {
        NodeType::Add => "+",
        NodeType::Subtract => "-",
        NodeType::Multiply => "*",
        NodeType::Divide => "/",
        NodeType::Mod => "%",
        NodeType::Eq => "==",
        NodeType::NotEq => "!=",
        NodeType::LessThan => "<",
        NodeType::GreaterThan => ">",
        NodeType::Leq => "<=",
        NodeType::Geq => ">=",
        _ => {
            return compile_node(node);
        },
    };
    if node.children.len() < 2 {
        return Err(CompileError::MalformedTree);
    }
    let l = match compile_expression(&node.children[0]) {
        Ok(t) => t,
        Err(e) => {
            return Err(e);
        },
    };
    let r = match compile_expression(&node.children[1]) {
        Ok(t) => t,
        Err(e) => {
            return Err(e);
        },
    };
    let mut out = String::new();
    out.append(l.as_str());
    out.append(" ");
    out.append(sym);
    out.append(" ");
    out.append(r.as_str());
    proof {
        assert(out@ =~= l@ + " "@ + op_symbol(node.node_type) + " "@ + r@);
    }
    Ok(out)
}

/// Lower the statements of a block from index `i` on, appending the
/// tab-prefixed, line-break-joined text to `out`, per `sp_tabbed_lines`.
#[verifier::rlimit(100)]
fn compile_tabbed_into(cs: &Vec<AstNode>, i: usize, out: &mut String) -> (r: Result<
    (),
    CompileError,
>)
    requires
        i <= cs@.len(),
    ensures
        match r {
            Ok(_) => sp_tabbed_lines(ast_children_view(cs@).subrange(i as int, cs@.len() as int))
                matches Ok(t) && final(out)@ == old(out)@ + t,
            Err(e) => sp_tabbed_lines(ast_children_view(cs@).subrange(i as int, cs@.len() as int))
                matches Err(e2) && e2 == e,
        },
    decreases cs, cs@.len() - i,
{
    let ghost csv = ast_children_view(cs@);
    proof {
        lemma_children_view(cs@);
    }
    if i >= cs.len() {
        proof {
            assert(csv.subrange(i as int, csv.len() as int) =~= Seq::<SpecAst>::empty());
            assert(old(out)@ + Seq::<char>::empty() =~= old(out)@);
        }
        return Ok(());
    }
    let t = match compile_node(&cs[i]) {
        Ok(t) => t,
        Err(e) => {
            proof {
                assert(csv.subrange(i as int, csv.len() as int)[0] == csv[i as int]);
            }
            return Err(e);
        },
    };
    out.append("\t");
    out.append(t.as_str());
    if i + 1 < cs.len() {
        out.append("\n");
    }
    let ghost out1 = out@;
    let result = compile_tabbed_into(cs, i + 1, out);
    proof {
        let tail = csv.subrange(i as int, csv.len() as int);
        assert(tail[0] == csv[i as int]);
        assert(tail.subrange(1, tail.len() as int) =~= csv.subrange(i + 1, csv.len() as int));
    }
    match result {
        Ok(_) => {
            proof {
                if let Ok(rest) = sp_tabbed_lines(csv.subrange(i + 1, csv.len() as int)) {
                    if i + 1 < cs@.len() {
                        assert(final(out)@ =~= old(out)@ + ("\t"@ + t@ + "\n"@ + rest));
                    } else {
                        assert(rest =~= Seq::<char>::empty());
                        assert(final(out)@ =~= old(out)@ + ("\t"@ + t@));
                    }
                }
            }
            Ok(())
        },
        Err(e) => Err(e),
    }
}

/// Lower a block node: its statements tab-prefixed and joined with line
/// breaks, per `sp_tabbed_lines`.
#[verifier::rlimit(100)]
pub fn compile_block(node: &AstNode) -> (r: Result<String, CompileError>)
    ensures
        match r {
            Ok(t) => sp_tabbed_lines(ast_view(*node).children) == Ok::<Seq<char>, CompileError>(
                t@),
            Err(e) => sp_tabbed_lines(ast_view(*node).children) == Err::<Seq<char>, CompileError>(
                e),
        },
    decreases *node, 1int,
{
    let mut out = String::new();
    let ghost csv = ast_view(*node).children;
    proof {
        assert(csv == ast_children_view(node.children@));
        assert(csv.subrange(0, csv.len() as int) =~= csv);
        assert(ast_children_view(node.children@).subrange(0, node.children@.len() as int)
            == csv.subrange(0, csv.len() as int)) by {
            lemma_children_view(node.children@);
        }
    }
    match compile_tabbed_into(&node.children, 0, &mut out) {
        Ok(_) => {
            proof {
                if let Ok(t) = sp_tabbed_lines(csv) {
                    assert(Seq::<char>::empty() + t =~= t);
                }
            }
            Ok(out)
        },
        Err(e) => Err(e),
    }
}

/// Lower a declaration: the fixed `int` type, the declared name and, when
/// an initializer is present, `=` with its text; no statement terminator
/// either way.
#[verifier::rlimit(100)]
pub fn compile_declare(node: &AstNode) -> (r: Result<String, CompileError>)
    requires
        node.node_type == NodeType::Declare,
    ensures
        match r {
            Ok(t) => sp_compile_node(ast_view(*node)) == Ok::<Seq<char>, CompileError>(t@),
            Err(e) => sp_compile_node(ast_view(*node)) == Err::<Seq<char>, CompileError>(e),
        },
    decreases *node, 1int,
{
    proof {
        lemma_children_view(node.children@);
    }
    if node.children.len() < 1 {
        return Err(CompileError::MalformedTree);
    }
    let a = &node.children[0];
    proof {
        reveal_with_fuel(ast_view, 3);
        lemma_children_view(node.children@[0].children@);
        assert(ast_view(*node).children[0] == ast_view(node.children@[0]));
    }
    if a.children.len() < 1 {
        return Err(CompileError::MalformedTree);
    }
    let name: String = match &a.children[0].value {
        Some(s) => s.clone(),
        None => {
            return Err(CompileError::MalformedTree);
        },
    };
    let mut out = String::new();
    out.append("int ");
    out.append(name.as_str());
    if a.children.len() == 1 {
        proof {
            assert(out@ =~= "int "@ + name@);
        }
        return Ok(out);
    }
    let e_text = match compile_expression(&a.children[1]) {
        Ok(t) => t,
        Err(e) => {
            return Err(e);
        },
    };
    out.append(" = ");
    out.append(e_text.as_str());
    proof {
        assert(out@ =~= "int "@ + name@ + " = "@ + e_text@);
    }
    Ok(out)
}

/// Lower an assignment, per `sp_compile_assign`.
#[verifier::rlimit(100)]
pub fn compile_assign(node: &AstNode) -> (r: Result<String, CompileError>)
    ensures
        match r {
            Ok(t) => sp_compile_assign(ast_view(*node)) == Ok::<Seq<char>, CompileError>(t@),
            Err(e) => sp_compile_assign(ast_view(*node)) == Err::<Seq<char>, CompileError>(e),
        },
    decreases *node, 1int,
{
    proof {
        lemma_children_view(node.children@);
    }
    if node.children.len() < 2 {
        return Err(CompileError::MalformedTree);
    }
    proof {
        lemma_children_view(node.children@[0].children@);
    }
    let ident: String = match &node.children[0].value {
        Some(s) => s.clone(),
        None => {
            return Err(CompileError::MalformedTree);
        },
    };
    let e_text = match compile_expression(&node.children[1]) {
        Ok(t) => t,
        Err(e) => {
            return Err(e);
        },
    };
    let mut out = String::new();
    out.append(ident.as_str());
    out.append(" = ");
    out.append(e_text.as_str());
    out.append(";");
    proof {
        assert(out@ =~= ident@ + " = "@ + e_text@ + ";"@);
    }
    Ok(out)
}

/// Lower a parenthesized expression: explicit grouping around the inner
/// expression's text.
#[verifier::rlimit(100)]
pub fn compile_parentheses(node: &AstNode) -> (r: Result<String, CompileError>)
    ensures
        match r {
            Ok(t) => sp_compile_node(ast_view(*node)) matches Ok(inner) && t@ == "("@ + inner
                + ")"@,
            Err(e) => sp_compile_node(ast_view(*node)) matches Err(e2) && e2 == e,
        },
    decreases *node, 5int,
{
    let inner = match compile_expression(node) {
        Ok(t) => t,
        Err(e) => {
            return Err(e);
        },
    };
    let mut out = String::new();
    out.append("(");
    out.append(inner.as_str());
    out.append(")");
    proof {
        assert(out@ =~= "("@ + inner@ + ")"@);
    }
    Ok(out)
}

/// Lower the parameter pairs of a definition from index `i` on, appending
/// the comma-joined text to `out`, per `sp_params_text`.
#[verifier::rlimit(100)]
fn compile_params_into(cs: &Vec<AstNode>, i: usize, out: &mut String) -> (r: Result<
    (),
    CompileError,
>)
    requires
        i <= cs@.len(),
    ensures
        match r {
            Ok(_) => sp_params_text(ast_children_view(cs@).subrange(i as int, cs@.len() as int))
                matches Ok(t) && final(out)@ == old(out)@ + t,
            Err(e) => sp_params_text(ast_children_view(cs@).subrange(i as int, cs@.len() as int))
                matches Err(e2) && e2 == e,
        },
    decreases cs@.len() - i,
{
    let ghost csv = ast_children_view(cs@);
    proof {
        lemma_children_view(cs@);
        let tail = csv.subrange(i as int, csv.len() as int);
        assert(tail.len() == csv.len() - i);
        if i < csv.len() {
            assert(tail[0] == csv[i as int]);
        }
        if i + 1 < csv.len() {
            assert(tail[1] == csv[i + 1]);
        }
    }
    if i >= cs.len() {
        proof {
            assert(old(out)@ + Seq::<char>::empty() =~= old(out)@);
        }
        return Ok(());
    }
    if i + 1 >= cs.len() {
        return Err(CompileError::MalformedTree);
    }
    let ty: String = match &cs[i].value {
        Some(s) => s.clone(),
        None => {
            return Err(CompileError::MalformedTree);
        },
    };
    let nm: String = match &cs[i + 1].value {
        Some(s) => s.clone(),
        None => {
            return Err(CompileError::MalformedTree);
        },
    };
    out.append(ty.as_str());
    out.append(" ");
    out.append(nm.as_str());
    if i + 2 < cs.len() {
        out.append(", ");
    }
    let result = compile_params_into(cs, i + 2, out);
    proof {
        let tail = csv.subrange(i as int, csv.len() as int);
        assert(tail.subrange(2, tail.len() as int) =~= csv.subrange(i + 2, csv.len() as int));
    }
    match result {
        Ok(_) => {
            proof {
                if let Ok(rest) = sp_params_text(csv.subrange(i + 2, csv.len() as int)) {
                    if i + 2 < cs@.len() {
                        assert(final(out)@ =~= old(out)@ + (ty@ + " "@ + nm@ + ", "@ + rest));
                    } else {
                        assert(rest =~= Seq::<char>::empty());
                        assert(final(out)@ =~= old(out)@ + (ty@ + " "@ + nm@));
                    }
                }
            }
            Ok(())
        },
        Err(e) => Err(e),
    }
}

/// Lower a definition: a function returning `int`, its parameter pairs, and
/// its body as a braced block.
#[verifier::rlimit(100)]
pub fn compile_function_def(node: &AstNode) -> (r: Result<String, CompileError>)
    requires
        node.node_type == NodeType::FunctionDef,
    ensures
        match r {
            Ok(t) => sp_compile_node(ast_view(*node)) == Ok::<Seq<char>, CompileError>(t@),
            Err(e) => sp_compile_node(ast_view(*node)) == Err::<Seq<char>, CompileError>(e),
        },
    decreases *node, 1int,
{
    proof {
        lemma_children_view(node.children@);
    }
    let name: String = match &node.value {
        Some(s) => s.clone(),
        None => {
            return Err(CompileError::MalformedTree);
        },
    };
    if node.children.len() < 2 {
        return Err(CompileError::MalformedTree);
    }
    let ghost paramsv = ast_view(*node).children[0].children;
    proof {
        reveal_with_fuel(ast_view, 3);
        lemma_children_view(node.children@[0].children@);
        assert(ast_view(*node).children[0] == ast_view(node.children@[0]));
        assert(paramsv == ast_children_view(node.children@[0].children@));
        assert(paramsv.subrange(0, paramsv.len() as int) =~= paramsv);
        assert(ast_children_view((node.children@[0].children)@).subrange(0,
            (node.children@[0].children)@.len() as int) == paramsv.subrange(0,
            paramsv.len() as int));
        assert(ast_view(*node).children[1] == ast_view(node.children@[1]));
    }
    let mut param_str = String::new();
    match compile_params_into(&node.children[0].children, 0, &mut param_str) {
        Ok(_) => {},
        Err(e) => {
            return Err(e);
        },
    }
    proof {
        if let Ok(ps) = sp_params_text(paramsv) {
            assert(Seq::<char>::empty() + ps =~= ps);
        }
    }
    let body = match compile_block(&node.children[1]) {
        Ok(t) => t,
        Err(e) => {
            return Err(e);
        },
    };
    let mut out = String::new();
    out.append("int ");
    out.append(name.as_str());
    out.append("(");
    out.append(param_str.as_str());
    out.append(") {\n");
    out.append(body.as_str());
    out.append("\n}");
    proof {
        assert(out@ =~= "int "@ + name@ + "("@ + param_str@ + ") {\n"@ + body@ + "\n}"@);
    }
    Ok(out)
}

/// Lower the arguments of a call from index `i` on, appending the
/// comma-joined text to `out`, per `sp_args_text`.
#[verifier::rlimit(100)]
fn compile_args_into(cs: &Vec<AstNode>, i: usize, out: &mut String) -> (r: Result<
    (),
    CompileError,
>)
    requires
        i <= cs@.len(),
    ensures
        match r {
            Ok(_) => sp_args_text(ast_children_view(cs@).subrange(i as int, cs@.len() as int))
                matches Ok(t) && final(out)@ == old(out)@ + t,
            Err(e) => sp_args_text(ast_children_view(cs@).subrange(i as int, cs@.len() as int))
                matches Err(e2) && e2 == e,
        },
    decreases cs, cs@.len() - i,
{
    let ghost csv = ast_children_view(cs@);
    proof {
        lemma_children_view(cs@);
    }
    if i >= cs.len() {
        proof {
            assert(csv.subrange(i as int, csv.len() as int) =~= Seq::<SpecAst>::empty());
            assert(old(out)@ + Seq::<char>::empty() =~= old(out)@);
        }
        return Ok(());
    }
    let t = match compile_node(&cs[i]) {
        Ok(t) => t,
        Err(e) => {
            proof {
                assert(csv.subrange(i as int, csv.len() as int)[0] == csv[i as int]);
            }
            return Err(e);
        },
    };
    out.append(t.as_str());
    if i + 1 < cs.len() {
        out.append(", ");
    }
    let result = compile_args_into(cs, i + 1, out);
    proof {
        let tail = csv.subrange(i as int, csv.len() as int);
        assert(tail[0] == csv[i as int]);
        assert(tail.subrange(1, tail.len() as int) =~= csv.subrange(i + 1, csv.len() as int));
    }
    match result {
        Ok(_) => {
            proof {
                if let Ok(rest) = sp_args_text(csv.subrange(i + 1, csv.len() as int)) {
                    if i + 1 < cs@.len() {
                        assert(final(out)@ =~= old(out)@ + (t@ + ", "@ + rest));
                    } else {
                        assert(rest =~= Seq::<char>::empty());
                        assert(final(out)@ =~= old(out)@ + t@);
                    }
                }
            }
            Ok(())
        },
        Err(e) => Err(e),
    }
}

/// Lower a call: the callee's name around its comma-joined arguments, with
/// the built-in `print` lowered to a formatted-output call.
#[verifier::rlimit(100)]
pub fn compile_function_call(node: &AstNode) -> (r: Result<String, CompileError>)
    requires
        node.node_type == NodeType::FunctionCall,
    ensures
        match r {
            Ok(t) => sp_compile_node(ast_view(*node)) == Ok::<Seq<char>, CompileError>(t@),
            Err(e) => sp_compile_node(ast_view(*node)) == Err::<Seq<char>, CompileError>(e),
        },
    decreases *node, 1int,
{
    proof {
        lemma_children_view(node.children@);
    }
    let name: String = match &node.value {
        Some(s) => s.clone(),
        None => {
            return Err(CompileError::MalformedTree);
        },
    };
    if str_eq(name.as_str(), "print") {
        return compile_print(node);
    }
    let ghost csv = ast_view(*node).children;
    proof {
        assert(csv.subrange(0, csv.len() as int) =~= csv);
    }
    let mut args = String::new();
    match compile_args_into(&node.children, 0, &mut args) {
        Ok(_) => {},
        Err(e) => {
            return Err(e);
        },
    }
    proof {
        if let Ok(a) = sp_args_text(csv) {
            assert(Seq::<char>::empty() + a =~= a);
        }
    }
    let mut out = String::new();
    out.append(name.as_str());
    out.append("(");
    out.append(args.as_str());
    out.append(")");
    proof {
        assert(out@ =~= name@ + "("@ + args@ + ")"@);
    }
    Ok(out)
}

/// Lower the built-in `print`, per `sp_print_text`.
#[verifier::rlimit(100)]
pub fn compile_print(node: &AstNode) -> (r: Result<String, CompileError>)
    ensures
        match r {
            Ok(t) => sp_print_text(ast_view(*node).children) == Ok::<Seq<char>, CompileError>(t@),
            Err(e) => sp_print_text(ast_view(*node).children) == Err::<Seq<char>, CompileError>(
                e),
        },
    decreases *node, 0int,
{
    let ghost csv = ast_view(*node).children;
    proof {
        lemma_children_view(node.children@);
        assert(csv.subrange(0, csv.len() as int) =~= csv);
    }
    let mut args = String::new();
    match compile_args_into(&node.children, 0, &mut args) {
        Ok(_) => {},
        Err(e) => {
            return Err(e);
        },
    }
    proof {
        if let Ok(a) = sp_args_text(csv) {
            assert(Seq::<char>::empty() + a =~= a);
        }
    }
    let mut fmt = String::new();
    let n = node.children.len();
    let mut i: usize = 0;
    while i < n
        invariant
            i <= n,
            n == csv.len(),
            fmt@ == sp_print_format(i as int),
        decreases n - i,
    {
        if i > 0 {
            fmt.append(", ");
        }
        fmt.append("%d");
        proof {
            if i > 0 {
                assert(fmt@ =~= sp_print_format(i as int) + ", "@ + "%d"@);
            }
        }
        i += 1;
    }
    let mut out = String::new();
    out.append("printf(\"");
    out.append(fmt.as_str());
    out.append("\\n\", ");
    out.append(args.as_str());
    out.append(");");
    proof {
        assert(out@ =~= "printf(\""@ + fmt@ + "\\n\", "@ + args@ + ");"@);
    }
    Ok(out)
}

/// Lower a conditional: the condition and the then-block, and the optional
/// else-block.
#[verifier::rlimit(100)]
pub fn compile_if(node: &AstNode) -> (r: Result<String, CompileError>)
    requires
        node.node_type == NodeType::If,
    ensures
        match r {
            Ok(t) => sp_compile_node(ast_view(*node)) == Ok::<Seq<char>, CompileError>(t@),
            Err(e) => sp_compile_node(ast_view(*node)) == Err::<Seq<char>, CompileError>(e),
        },
    decreases *node, 1int,
{
    proof {
        lemma_children_view(node.children@);
    }
    if node.children.len() < 2 {
        return Err(CompileError::MalformedTree);
    }
    let cond = match compile_expression(&node.children[0]) {
        Ok(t) => t,
        Err(e) => {
            return Err(e);
        },
    };
    let body = match compile_block(&node.children[1]) {
        Ok(t) => t,
        Err(e) => {
            return Err(e);
        },
    };
    if node.children.len() == 2 {
        let mut out = String::new();
        out.append("if (");
        out.append(cond.as_str());
        out.append(") {\n");
        out.append(body.as_str());
        out.append("\n}");
        proof {
            assert(out@ =~= "if ("@ + cond@ + ") {\n"@ + body@ + "\n}"@);
        }
        return Ok(out);
    }
    let else_text = match compile_block(&node.children[2]) {
        Ok(t) => t,
        Err(e) => {
            return Err(e);
        },
    };
    let mut out = String::new();
    out.append("if (");
    out.append(cond.as_str());
    out.append(") {\n");
    out.append(body.as_str());
    out.append("\n} else {\n");
    out.append(else_text.as_str());
    out.append("\n}");
    proof {
        assert(out@ =~= "if ("@ + cond@ + ") {\n"@ + body@ + "\n} else {\n"@ + else_text@
            + "\n}"@);
    }
    Ok(out)
}

/// Lower the top-level statements from index `i` on, appending definition
/// texts to `fs` and other statement texts to `bs`, per `sp_top_texts`.
#[verifier::rlimit(100)]
fn compile_top_into(
    cs: &Vec<AstNode>,
    i: usize,
    has_f: bool,
    has_b: bool,
    fs: &mut String,
    bs: &mut String,
) -> (r: Result<(), CompileError>)
    requires
        i <= cs@.len(),
    ensures
        match r {
            Ok(_) => sp_top_texts(ast_children_view(cs@).subrange(i as int, cs@.len() as int),
                has_f, has_b) matches Ok((f, b)) && final(fs)@ == old(fs)@ + f && final(bs)@
                == old(bs)@ + b,
            Err(e) => sp_top_texts(ast_children_view(cs@).subrange(i as int, cs@.len() as int),
                has_f, has_b) matches Err(e2) && e2 == e,
        },
    decreases cs, cs@.len() - i,
{
    let ghost csv = ast_children_view(cs@);
    proof {
        lemma_children_view(cs@);
    }
    if i >= cs.len() {
        proof {
            assert(csv.subrange(i as int, csv.len() as int) =~= Seq::<SpecAst>::empty());
            assert(old(fs)@ + Seq::<char>::empty() =~= old(fs)@);
            assert(old(bs)@ + Seq::<char>::empty() =~= old(bs)@);
        }
        return Ok(());
    }
    let t = match compile_node(&cs[i]) {
        Ok(t) => t,
        Err(e) => {
            proof {
                assert(csv.subrange(i as int, csv.len() as int)[0] == csv[i as int]);
            }
            return Err(e);
        },
    };
    let is_fdef = match cs[i].node_type {
        NodeType::FunctionDef => true,
        _ => false,
    };
    if is_fdef {
        if has_f {
            fs.append("\n");
        }
        fs.append(t.as_str());
    } else {
        if has_b {
            bs.append("\n\t");
        } else {
            bs.append("\t");
        }
        bs.append(t.as_str());
    }
    let next_has_f = has_f || is_fdef;
    let next_has_b = has_b || !is_fdef;
    let result = compile_top_into(cs, i + 1, next_has_f, next_has_b, fs, bs);
    proof {
        let tail = csv.subrange(i as int, csv.len() as int);
        assert(tail[0] == csv[i as int]);
        assert(tail.subrange(1, tail.len() as int) =~= csv.subrange(i + 1, csv.len() as int));
    }
    match result {
        Ok(_) => {
            proof {
                if let Ok((f, b)) = sp_top_texts(csv.subrange(i + 1, csv.len() as int),
                    next_has_f, next_has_b) {
                    if is_fdef {
                        if has_f {
                            assert(final(fs)@ =~= old(fs)@ + (("\n"@ + t@) + f));
                        } else {
                            assert(final(fs)@ =~= old(fs)@ + (t@ + f));
                        }
                        assert(final(bs)@ == old(bs)@ + b);
                    } else {
                        if has_b {
                            assert(final(bs)@ =~= old(bs)@ + (("\n\t"@ + t@) + b));
                        } else {
                            assert(final(bs)@ =~= old(bs)@ + (("\t"@ + t@) + b));
                        }
                        assert(final(fs)@ == old(fs)@ + f);
                    }
                }
            }
            Ok(())
        },
        Err(e) => Err(e),
    }
}

/// Lower a whole program, per `sp_compile`: the include preamble, the
/// hoisted definitions, and a `main` function around the rest.
#[verifier::rlimit(100)]
pub fn compile(ast: &AstNode) -> (r: Result<String, CompileError>)
    ensures
        match r {
            Ok(t) => sp_compile(ast_view(*ast)) == Ok::<Seq<char>, CompileError>(t@),
            Err(e) => sp_compile(ast_view(*ast)) == Err::<Seq<char>, CompileError>(e),
        },
{
    let ghost csv = ast_view(*ast).children;
    proof {
        lemma_children_view(ast.children@);
        assert(csv.subrange(0, csv.len() as int) =~= csv);
    }
    let mut function_def_str = String::new();
    let mut body = String::new();
    match compile_top_into(&ast.children, 0, false, false, &mut function_def_str, &mut body) {
        Ok(_) => {},
        Err(e) => {
            return Err(e);
        },
    }
    proof {
        if let Ok((f, b)) = sp_top_texts(csv, false, false) {
            assert(Seq::<char>::empty() + f =~= f);
            assert(Seq::<char>::empty() + b =~= b);
        }
    }
    let mut out = String::new();
    out.append("#include <stdio.h>\n");
    out.append("\n");
    out.append(function_def_str.as_str());
    out.append("\n\n");
    out.append("int main() {\n");
    out.append(body.as_str());
    out.append("\n\treturn 0;\n}");
    proof {
        assert(out@ =~= "#include <stdio.h>\n"@ + "\n"@ + function_def_str@ + "\n\n"@
            + "int main() {\n"@ + body@ + "\n\treturn 0;\n}"@);
    }
    Ok(out)
}

} // verus!
