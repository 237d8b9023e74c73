//! The tree builder: walks the parsed AST and constructs the runtime
//! tree. Text nodes become literals; dynamic attribute expressions and
//! embedded-expression children become shared evaluators that capture
//! the expression span by value together with the environment; attribute
//! maps are built by sequential insertion, a later duplicate name
//! overwriting the earlier one.

use std::rc::Rc;

use vstd::prelude::*;

use crate::ast::{ast_model, attr_expr_model, raw_attrs_model, AstModel, AstNode, AttrExpr, AttrExprModel};
use crate::parser::copy_span;
use crate::tree::{
    attr_model, env_model, lit_as_attr, lit_model, node_model, spec_insert, AttrEntries, AttrMap,
    AttrValModel, AttrValue, EvalModel, Evaluator, FloatLit, LitVal, LitValue, NodeModel,
    TemplateNode, VNode, VNodeModel,
};

verus! {

/// The attribute value an assignment builds: a literal as itself, a
/// dynamic expression as a reactive evaluator closing over `env`.
pub open spec fn attr_of_expr(a: AttrExprModel, env: Seq<(Seq<char>, LitVal)>) -> AttrValModel {
    match a {
        AttrExprModel::Literal(lv) => lit_as_attr(lv),
        AttrExprModel::Dynamic(span) => AttrValModel::Reactive(EvalModel { expr: span, env }),
    }
}

/// The attribute mapping built by inserting each assignment in order.
pub open spec fn build_attrs(
    attrs: Seq<(Seq<char>, AttrExprModel)>,
    env: Seq<(Seq<char>, LitVal)>,
) -> AttrEntries
    decreases attrs.len(),
{
    if attrs.len() == 0 {
        Seq::empty()
    } else {
        spec_insert(
            build_attrs(attrs.drop_last(), env),
            attrs.last().0,
            attr_of_expr(attrs.last().1, env),
        )
    }
}

/// The tree a parsed node builds.
pub open spec fn build_node(a: AstModel, env: Seq<(Seq<char>, LitVal)>) -> NodeModel
    decreases a,
{
    match a {
        AstModel::TextNode(s) => NodeModel::Literal(s),
        AstModel::ExpressionNode(span) => NodeModel::ReactiveChild(EvalModel { expr: span, env }),
        AstModel::ElementNode { tag, attrs, children } => (NodeModel::Element {
            tag,
            attrs: build_attrs(attrs, env),
            children: Seq::new(
                children.len(),
                |i: int|
                    if 0 <= i < children.len() {
                        build_node(children[i], env)
                    } else {
                        NodeModel::Literal(Seq::empty())
                    },
            ),
        }),
    }
}

/// The root a parsed template builds: no content for no node.
pub open spec fn build_root(root: Option<AstModel>, env: Seq<(Seq<char>, LitVal)>) -> VNodeModel {
    VNodeModel {
        template: match root {
            Some(a) => Some(build_node(a, env)),
            None => None,
        },
    }
}

/// Every element of a built tree carries a registered tag.
pub open spec fn node_tags_valid(n: NodeModel, reg: Seq<Seq<char>>) -> bool
    decreases n,
{
    match n {
        NodeModel::Element { tag, attrs, children } => {
            &&& crate::registry::registry_contains(reg, tag)
            &&& forall|i: int| 0 <= i < children.len() ==> node_tags_valid(
                #[trigger] children[i],
                reg,
            )
        },
        NodeModel::Literal(s) => true,
        NodeModel::ReactiveChild(e) => true,
    }
}

/// Building keeps every tag registered: a tree built from a parsed node
/// whose tags are registered carries registered tags throughout.
pub proof fn lemma_build_tags_valid(
    a: AstModel,
    env: Seq<(Seq<char>, LitVal)>,
    reg: Seq<Seq<char>>,
)
    requires
        crate::parser::ast_tags_valid(a, reg),
    ensures
        node_tags_valid(build_node(a, env), reg),
    decreases a,
{
    match a {
        AstModel::ElementNode { tag, attrs, children } => {
            let b = build_node(a, env);
            assert forall|i: int| 0 <= i < b->Element_children.len() implies node_tags_valid(
                #[trigger] b->Element_children[i],
                reg,
            ) by {
                lemma_build_tags_valid(children[i], env, reg);
            }
        },
        AstModel::TextNode(s) => {},
        AstModel::ExpressionNode(span) => {},
    }
}

/// A built attribute mapping has unique names.
pub proof fn lemma_build_attrs_unique(
    attrs: Seq<(Seq<char>, AttrExprModel)>,
    env: Seq<(Seq<char>, LitVal)>,
)
    ensures
        crate::tree::keys_unique(build_attrs(attrs, env)),
    decreases attrs.len(),
{
    if attrs.len() > 0 {
        lemma_build_attrs_unique(attrs.drop_last(), env);
        crate::tree::lemma_spec_insert_keys(
            build_attrs(attrs.drop_last(), env),
            attrs.last().0,
            attr_of_expr(attrs.last().1, env),
        );
    }
}

/// A built tree is well-formed: every attribute mapping in it has
/// unique names.
pub proof fn lemma_build_wf(a: AstModel, env: Seq<(Seq<char>, LitVal)>)
    ensures
        crate::tree::node_wf(build_node(a, env)),
    decreases a,
{
    match a {
        AstModel::ElementNode { tag, attrs, children } => {
            lemma_build_attrs_unique(attrs, env);
            let b = build_node(a, env);
            assert forall|i: int| 0 <= i < b->Element_children.len() implies crate::tree::node_wf(
                #[trigger] b->Element_children[i],
            ) by {
                lemma_build_wf(children[i], env);
            }
        },
        AstModel::TextNode(s) => {},
        AstModel::ExpressionNode(span) => {},
    }
}

/// Copies a literal value.
pub fn clone_lit(v: &LitValue) -> (r: LitValue)
    ensures
        lit_model(r) == lit_model(*v),
{
    match v {
        LitValue::Text(s) => LitValue::Text(s.clone()),
        LitValue::Float(f) => LitValue::Float(
            FloatLit { int_digits: f.int_digits.clone(), frac_digits: f.frac_digits.clone() },
        ),
        LitValue::Int(i) => LitValue::Int(*i),
        LitValue::Bool(b) => LitValue::Bool(*b),
    }
}

/// Copies an environment.
pub fn clone_env(env: &Vec<(String, LitValue)>) -> (r: Vec<(String, LitValue)>)
    ensures
        env_model(r@) == env_model(env@),
{
    let n = env.len();
    let mut out: Vec<(String, LitValue)> = Vec::new();
    let mut i: usize = 0;
    while i < n
        invariant
            n == env@.len(),
            i <= n,
            out@.len() == i,
            forall|k: int| 0 <= k < i ==> env_model(out@)[k] == env_model(env@)[k],
        decreases n - i,
    {
        out.push((env[i].0.clone(), clone_lit(&env[i].1)));
        i = i + 1;
    }
    proof {
        assert(env_model(out@) =~= env_model(env@));
    }
    out
}

/// Builds a shared evaluator capturing an expression span and the
/// environment, both by value.
fn make_evaluator(span: &Vec<crate::tokens::Token>, env: &Vec<(String, LitValue)>) -> (r: Rc<
    Evaluator,
>)
    ensures
        r@ == (EvalModel { expr: span.deep_view(), env: env_model(env@) }),
{
    let n = span.len();
    let expr = copy_span(span, 0, n);
    proof {
        assert(span.deep_view().subrange(0, n as int) =~= span.deep_view());
    }
    Rc::new(Evaluator { expr, env: clone_env(env) })
}

/// Builds the attribute value of one assignment.
pub fn attr_value_of_expr(ax: &AttrExpr, env: &Vec<(String, LitValue)>) -> (r: AttrValue)
    ensures
        attr_model(r) == attr_of_expr(attr_expr_model(*ax), env_model(env@)),
{
    match ax {
        AttrExpr::Literal(v) => AttrValue::from_lit(clone_lit(v)),
        AttrExpr::Dynamic(span) => AttrValue::Reactive(make_evaluator(span, env)),
    }
}

/// Builds the tree of one parsed node.
#[verifier::loop_isolation(false)]
pub fn build_node_x(a: &AstNode, env: &Vec<(String, LitValue)>) -> (r: TemplateNode)
    ensures
        node_model(r) == build_node(ast_model(*a), env_model(env@)),
    decreases *a,
{
    match a {
        AstNode::TextNode(s) => TemplateNode::Literal(s.clone()),
        AstNode::ExpressionNode(span) => TemplateNode::ReactiveChild(make_evaluator(span, env)),
        AstNode::ElementNode { tag, attrs, children } => {
            let ghost envm = env_model(env@);
            let ghost attrsm = raw_attrs_model(attrs@);
            let n = attrs.len();
            let mut map = AttrMap::new();
            let mut i: usize = 0;
            proof {
                assert(attrsm.take(0) =~= Seq::<(Seq<char>, AttrExprModel)>::empty());
            }
            while i < n
                invariant
                    n == attrs@.len(),
                    i <= n,
                    attrsm == raw_attrs_model(attrs@),
                    envm == env_model(env@),
                    map.model() == build_attrs(attrsm.take(i as int), envm),
                decreases n - i,
            {
                let av = attr_value_of_expr(&attrs[i].1, env);
                map.insert(attrs[i].0.clone(), av);
                proof {
                    assert(attrsm.take(i + 1 as int).drop_last() =~= attrsm.take(i as int));
                    assert(attrsm.take(i + 1 as int).last() == attrsm[i as int]);
                }
                i = i + 1;
            }
            proof {
                assert(attrsm.take(n as int) =~= attrsm);
            }
            let m = children.len();
            let mut kids: Vec<TemplateNode> = Vec::new();
            let mut j: usize = 0;
            while j < m
                invariant
                    m == children@.len(),
                    envm == env_model(env@),
                    j <= m,
                    kids@.len() == j,
                    forall|k: int| 0 <= k < j ==> node_model(#[trigger] kids@[k]) == build_node(
                        ast_model(children@[k]),
                        envm,
                    ),
                decreases m - j,
            {
                proof {
                    assert(decreases_to!(*a => *children));
                    assert(decreases_to!(*children => children@[j as int]));
                }
                let kid = build_node_x(&children[j], env);
                kids.push(kid);
                j = j + 1;
            }
            let r = TemplateNode::Element { tag: tag.clone(), attrs: map, children: kids };
            proof {
                assert(node_model(r)->Element_children =~= build_node(ast_model(*a), envm)
                    ->Element_children);
            }
            r
        },
    }
}

/// Builds the root wrapper of a whole parsed template.
pub fn build_root_x(root: &Option<AstNode>, env: &Vec<(String, LitValue)>) -> (r: VNode)
    ensures
        r.model() == build_root(
            match *root {
                Some(a) => Some(ast_model(a)),
                None => None,
            },
            env_model(env@),
        ),
{
    match root {
        Some(a) => VNode { template: Some(build_node_x(a, env)) },
        None => VNode { template: None },
    }
}

} // verus!
