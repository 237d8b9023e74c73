//! The abstract syntax tree the parser produces: build-time only, discarded
//! once the tree builder has run.

use vstd::prelude::*;

use crate::tokens::{Tok, Token};
use crate::tree::{lit_model, LitVal, LitValue};

verus! {

/// The right-hand side of one attribute assignment: a literal resolved at
/// build time, or a deferred host-expression token span.
#[derive(Debug)]
pub enum AttrExpr {
    /// A literal, normalized to its typed value.
    Literal(LitValue),
    /// A host-expression token span, deferred for later evaluation.
    Dynamic(Vec<Token>),
}

/// The mathematical model of an [`AttrExpr`].
pub ghost enum AttrExprModel {
    Literal(LitVal),
    Dynamic(Seq<Tok>),
}

/// What an [`AttrExpr`] means.
pub open spec fn attr_expr_model(a: AttrExpr) -> AttrExprModel {
    match a {
        AttrExpr::Literal(v) => AttrExprModel::Literal(lit_model(v)),
        AttrExpr::Dynamic(toks) => AttrExprModel::Dynamic(toks.deep_view()),
    }
}

/// One parsed node, before the runtime tree is built.
#[derive(Debug)]
pub enum AstNode {
    /// `tag { member* }`: the attribute assignments in source order (names
    /// may repeat; the builder resolves overwrites), then the children in
    /// source order.
    ElementNode { tag: String, attrs: Vec<(String, AttrExpr)>, children: Vec<AstNode> },
    /// A quoted text literal.
    TextNode(String),
    /// A brace-delimited embedded host expression.
    ExpressionNode(Vec<Token>),
}

/// The mathematical model of an [`AstNode`].
pub ghost enum AstModel {
    ElementNode { tag: Seq<char>, attrs: Seq<(Seq<char>, AttrExprModel)>, children: Seq<AstModel> },
    TextNode(Seq<char>),
    ExpressionNode(Seq<Tok>),
}

/// What a sequence of raw attribute assignments means.
pub open spec fn raw_attrs_model(es: Seq<(String, AttrExpr)>) -> Seq<(Seq<char>, AttrExprModel)> {
    Seq::new(es.len(), |i: int| (es[i].0@, attr_expr_model(es[i].1)))
}

/// What an [`AstNode`] means.
pub open spec fn ast_model(a: AstNode) -> AstModel
    decreases a,
{
    match a {
        AstNode::ElementNode { tag, attrs, children } => (AstModel::ElementNode {
            tag: tag@,
            attrs: raw_attrs_model(attrs@),
            children: Seq::new(
                children@.len(),
                |i: int|
                    if 0 <= i < children@.len() {
                        ast_model(children@[i])
                    } else {
                        AstModel::TextNode(Seq::empty())
                    },
            ),
        }),
        AstNode::TextNode(s) => AstModel::TextNode(s@),
        AstNode::ExpressionNode(toks) => AstModel::ExpressionNode(toks.deep_view()),
    }
}

/// What a sequence of parsed children means.
pub open spec fn kids_model(s: Seq<AstNode>) -> Seq<AstModel> {
    Seq::new(s.len(), |i: int| ast_model(s[i]))
}

impl AstNode {
    /// What this node means.
    pub open spec fn model(&self) -> AstModel {
        ast_model(*self)
    }
}

} // verus!
