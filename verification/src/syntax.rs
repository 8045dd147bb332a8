//! The parts of a Typst syntax tree that the vault reads, as plain values.
//!
//! `typst_syntax` parses the source; [`parse_source`] hands its tree back in
//! these types, one node for each node of the parser's tree.

use vstd::prelude::*;

use typst_syntax::ast;
use typst_syntax::ast::AstNode;
use typst_syntax::SyntaxNode;

verus! {

#[verifier::external_type_specification]
#[verifier::external_body]
pub struct ExSyntaxNode(SyntaxNode);

/// An expression, as far as the vault reads it.
#[derive(Debug)]
pub enum Expr {
    /// A string literal, with its escape sequences resolved.
    Str(String),
    /// An integer literal.
    Int(i64),
    /// `true` or `false`.
    Bool(bool),
    /// An identifier.
    Ident(String),
    /// An array literal: its items in order, `None` standing for a spread
    /// item `..x`.
    Array(Vec<Option<Expr>>),
    /// A field access: the target and the field's name.
    FieldAccess(Box<Expr>, String),
    /// Any other expression.
    Other,
}

/// An argument of a function call.
#[derive(Debug)]
pub enum Arg {
    /// A positional argument.
    Pos(Expr),
    /// A named argument: the name and the value.
    Named(String, Expr),
    /// A spread argument.
    Spread,
}

/// A function call: the callee and the arguments, in order.
#[derive(Debug)]
pub struct Call {
    pub callee: Expr,
    pub args: Vec<Arg>,
}

/// What a syntax node is, as far as the vault reads it.
#[derive(Debug)]
pub enum NodeKind {
    /// A show rule: whether it has a selector, and its transformation when
    /// that is a function call.
    ShowRule { has_selector: bool, transform: Option<Call> },
    /// A function call.
    FuncCall(Call),
    /// Any other node.
    Other,
}

/// A syntax node and its children, in source order.
#[derive(Debug)]
pub struct Node {
    pub kind: NodeKind,
    pub children: Vec<Node>,
}

/// The tree that `typst_syntax::parse` builds for a source text.
pub uninterp spec fn typst_syntax_tree(source: Seq<char>) -> Node;

/// Parses `source` with `typst_syntax::parse` and gives its tree in the
/// library's types. The contract claims only that the tree is a function of
/// the text: the parser is deterministic. What the tree holds is not stated.
#[verifier::external_body]
pub(crate) fn parse_source(source: &str) -> (tree: Node)
    ensures
        tree == typst_syntax_tree(source@),
{
    lower_node(&typst_syntax::parse(source))
}

/// One node of the parser's tree in the library's types; used by
/// [`parse_source`] only.
#[verifier::external_body]
fn lower_node(node: &SyntaxNode) -> Node {
    let kind = if node.cast::<ast::ShowRule>().is_some() {
        lower_show_rule(node)
    } else if node.cast::<ast::FuncCall>().is_some() {
        NodeKind::FuncCall(lower_call(node))
    } else {
        NodeKind::Other
    };
    Node { kind, children: node.children().map(lower_node).collect() }
}

/// A show-rule node in the library's types; used by [`parse_source`] only.
#[verifier::external_body]
fn lower_show_rule(node: &SyntaxNode) -> NodeKind {
    let rule = node.cast::<ast::ShowRule>().unwrap_or_else(ast::ShowRule::placeholder);
    let transform = match rule.transform() {
        ast::Expr::FuncCall(call) => Some(lower_call(call.to_untyped())),
        _ => None,
    };
    NodeKind::ShowRule { has_selector: rule.selector().is_some(), transform }
}

/// A function-call node in the library's types; used by [`parse_source`] only.
#[verifier::external_body]
fn lower_call(node: &SyntaxNode) -> Call {
    let call = node.cast::<ast::FuncCall>().unwrap_or_else(ast::FuncCall::placeholder);
    let args = call.args().items().map(|arg| lower_arg(arg.to_untyped())).collect();
    Call { callee: lower_expr(call.callee().to_untyped()), args }
}

/// An argument node in the library's types; used by [`parse_source`] only.
#[verifier::external_body]
fn lower_arg(node: &SyntaxNode) -> Arg {
    match node.cast::<ast::Arg>() {
        Some(ast::Arg::Pos(e)) => Arg::Pos(lower_expr(e.to_untyped())),
        Some(ast::Arg::Named(n)) => Arg::Named(n.name().as_str().into(), lower_expr(n.expr().to_untyped())),
        _ => Arg::Spread,
    }
}

/// An expression node in the library's types; used by [`parse_source`] only.
#[verifier::external_body]
fn lower_expr(node: &SyntaxNode) -> Expr {
    match node.cast::<ast::Expr>() {
        Some(ast::Expr::Str(s)) => Expr::Str(s.get().into()),
        Some(ast::Expr::Int(i)) => Expr::Int(i.get()),
        Some(ast::Expr::Bool(b)) => Expr::Bool(b.get()),
        Some(ast::Expr::Ident(i)) => Expr::Ident(i.as_str().into()),
        Some(ast::Expr::Array(a)) => Expr::Array(a.items().map(|item| lower_item(item.to_untyped())).collect()),
        Some(ast::Expr::FieldAccess(f)) => lower_field_access(f.to_untyped()),
        _ => Expr::Other,
    }
}

/// A field-access node in the library's types; used by [`parse_source`] only.
#[verifier::external_body]
fn lower_field_access(node: &SyntaxNode) -> Expr {
    let access = node.cast::<ast::FieldAccess>().unwrap_or_else(ast::FieldAccess::placeholder);
    let target = lower_expr(access.target().to_untyped());
    Expr::FieldAccess(Box::new(target), access.field().as_str().into())
}

/// An array-item node in the library's types (`None` for a spread item); used
/// by [`parse_source`] only.
#[verifier::external_body]
fn lower_item(node: &SyntaxNode) -> Option<Expr> {
    match node.cast::<ast::ArrayItem>() {
        Some(ast::ArrayItem::Pos(e)) => Some(lower_expr(e.to_untyped())),
        _ => None,
    }
}

} // verus!
