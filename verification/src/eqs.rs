//! Structural equality of built trees, and the laws it obeys.
//!
//! Two trees compare structurally: tag, attribute mapping (names matched
//! regardless of insertion order) and children, recursively. A tree
//! holding a reactive value is never equal to anything, itself included:
//! two evaluators cannot be meaningfully compared without invoking them.
//! Beside equality stands similarity, which ignores what the evaluators
//! are: it is what repeated builds of one source guarantee.

use vstd::prelude::*;

use crate::strutil::str_eq;
use crate::tree::{
    attr_model, node_model, AttrEntries, AttrMap, AttrValModel, AttrValue, NodeModel,
    TemplateNode, VNode, VNodeModel,
};

verus! {

/// Structural equality of attribute values: literals by value, any
/// reactive value equal to nothing.
pub open spec fn attr_eq(x: AttrValModel, y: AttrValModel) -> bool {
    match (x, y) {
        (AttrValModel::Text(a), AttrValModel::Text(b)) => a == b,
        (AttrValModel::Float(a), AttrValModel::Float(b)) => a == b,
        (AttrValModel::Int(a), AttrValModel::Int(b)) => a == b,
        (AttrValModel::Bool(a), AttrValModel::Bool(b)) => a == b,
        _ => false,
    }
}

/// Whether an entry has a structurally equal entry under its name in a
/// mapping.
pub open spec fn has_match(e: (Seq<char>, AttrValModel), m: AttrEntries) -> bool {
    exists|j: int| 0 <= j < m.len() && (#[trigger] m[j]).0 == e.0 && attr_eq(e.1, m[j].1)
}

/// Structural equality of attribute mappings: every entry of each side
/// has a structurally equal entry under the same name on the other.
pub open spec fn attrs_eq(a: AttrEntries, b: AttrEntries) -> bool {
    &&& a.len() == b.len()
    &&& forall|i: int| 0 <= i < a.len() ==> has_match(#[trigger] a[i], b)
    &&& forall|j: int| 0 <= j < b.len() ==> has_match(#[trigger] b[j], a)
}

/// Structural equality of trees.
pub open spec fn node_eq(a: NodeModel, b: NodeModel) -> bool
    decreases a,
{
    match (a, b) {
        (
            NodeModel::Element { tag: t1, attrs: a1, children: c1 },
            NodeModel::Element { tag: t2, attrs: a2, children: c2 },
        ) => {
            &&& t1 == t2
            &&& attrs_eq(a1, a2)
            &&& c1.len() == c2.len()
            &&& forall|i: int|
                0 <= i < c1.len() ==> node_eq(#[trigger] c1[i], c2[i])
        },
        (NodeModel::Literal(s1), NodeModel::Literal(s2)) => s1 == s2,
        _ => false,
    }
}

/// Structural equality of roots.
pub open spec fn root_eq(a: VNodeModel, b: VNodeModel) -> bool {
    match (a.template, b.template) {
        (Some(n1), Some(n2)) => node_eq(n1, n2),
        (None, None) => true,
        _ => false,
    }
}

/// An attribute value that is not reactive.
pub open spec fn attr_reactive_free(v: AttrValModel) -> bool {
    !(v is Reactive)
}

/// A tree with no reactive value anywhere in it.
pub open spec fn reactive_free(n: NodeModel) -> bool
    decreases n,
{
    match n {
        NodeModel::Element { tag, attrs, children } => {
            &&& forall|i: int| 0 <= i < attrs.len() ==> attr_reactive_free((#[trigger] attrs[i]).1)
            &&& forall|i: int| 0 <= i < children.len() ==> reactive_free(#[trigger] children[i])
        },
        NodeModel::Literal(s) => true,
        NodeModel::ReactiveChild(e) => false,
    }
}

/// Structural equality of attribute mappings is symmetric: its two
/// quantified clauses trade places.
pub proof fn lemma_attrs_eq_sym(a: AttrEntries, b: AttrEntries)
    ensures
        attrs_eq(a, b) == attrs_eq(b, a),
{
}

/// Structural equality is reflexive on reactive-free trees.
pub proof fn lemma_node_eq_reflexive(n: NodeModel)
    requires
        reactive_free(n),
    ensures
        node_eq(n, n),
    decreases n,
{
    match n {
        NodeModel::Element { tag, attrs, children } => {
            assert forall|i: int| 0 <= i < attrs.len() implies has_match(
                #[trigger] attrs[i],
                attrs,
            ) by {
                assert(attr_reactive_free(attrs[i].1));
                assert(0 <= i < attrs.len() && attrs[i].0 == attrs[i].0 && attr_eq(
                    attrs[i].1,
                    attrs[i].1,
                ));
            }
            assert forall|i: int| 0 <= i < children.len() implies node_eq(
                #[trigger] children[i],
                children[i],
            ) by {
                lemma_node_eq_reflexive(children[i]);
            }
        },
        NodeModel::Literal(s) => {},
        NodeModel::ReactiveChild(e) => {},
    }
}

/// Structural equality is symmetric.
pub proof fn lemma_node_eq_symmetric(a: NodeModel, b: NodeModel)
    ensures
        node_eq(a, b) == node_eq(b, a),
    decreases a,
{
    match (a, b) {
        (
            NodeModel::Element { tag: t1, attrs: a1, children: c1 },
            NodeModel::Element { tag: t2, attrs: a2, children: c2 },
        ) => {
            lemma_attrs_eq_sym(a1, a2);
            if c1.len() == c2.len() {
                assert forall|i: int| 0 <= i < c1.len() implies node_eq(#[trigger] c1[i], c2[i])
                    == node_eq(c2[i], c1[i]) by {
                    lemma_node_eq_symmetric(c1[i], c2[i]);
                }
                assert forall|i: int| 0 <= i < c2.len() implies node_eq(#[trigger] c2[i], c1[i])
                    == node_eq(c1[i], c2[i]) by {
                    lemma_node_eq_symmetric(c1[i], c2[i]);
                }
            }
        },
        _ => {},
    }
}

/// A tree holding a reactive value anywhere is structurally equal to
/// nothing, itself included.
pub proof fn lemma_reactive_never_equal(a: NodeModel, b: NodeModel)
    requires
        !reactive_free(a) || !reactive_free(b),
    ensures
        !node_eq(a, b),
    decreases a,
{
    if node_eq(a, b) {
        match (a, b) {
            (
                NodeModel::Element { tag: t1, attrs: a1, children: c1 },
                NodeModel::Element { tag: t2, attrs: a2, children: c2 },
            ) => {
                if !reactive_free(a) {
                    if !(forall|i: int|
                        0 <= i < a1.len() ==> attr_reactive_free((#[trigger] a1[i]).1)) {
                        let i = choose|i: int|
                            0 <= i < a1.len() && !attr_reactive_free((#[trigger] a1[i]).1);
                        let j = choose|j: int|
                            0 <= j < a2.len() && (#[trigger] a2[j]).0 == a1[i].0 && attr_eq(
                                a1[i].1,
                                a2[j].1,
                            );
                        assert(!attr_eq(a1[i].1, a2[j].1));
                    } else {
                        let i = choose|i: int|
                            0 <= i < c1.len() && !reactive_free(#[trigger] c1[i]);
                        lemma_reactive_never_equal(c1[i], c2[i]);
                    }
                } else {
                    if !(forall|j: int|
                        0 <= j < a2.len() ==> attr_reactive_free((#[trigger] a2[j]).1)) {
                        let j = choose|j: int|
                            0 <= j < a2.len() && !attr_reactive_free((#[trigger] a2[j]).1);
                        let i = choose|i: int|
                            0 <= i < a1.len() && (#[trigger] a1[i]).0 == a2[j].0 && attr_eq(
                                a1[i].1,
                                a2[j].1,
                            );
                        assert(!attr_eq(a1[i].1, a2[j].1));
                    } else {
                        let j = choose|j: int|
                            0 <= j < c2.len() && !reactive_free(#[trigger] c2[j]);
                        lemma_reactive_never_equal(c1[j], c2[j]);
                    }
                }
            },
            (NodeModel::Literal(s1), NodeModel::Literal(s2)) => {},
            _ => {},
        }
    }
}

/// Decides [`attr_eq`] on attribute values.
pub fn attr_value_eq(x: &AttrValue, y: &AttrValue) -> (r: bool)
    ensures
        r == attr_eq(attr_model(*x), attr_model(*y)),
{
    match (x, y) {
        (AttrValue::Text(a), AttrValue::Text(b)) => str_eq(a.as_str(), b.as_str()),
        (AttrValue::Float(a), AttrValue::Float(b)) => str_eq(
            a.int_digits.as_str(),
            b.int_digits.as_str(),
        ) && str_eq(a.frac_digits.as_str(), b.frac_digits.as_str()),
        (AttrValue::Int(a), AttrValue::Int(b)) => *a == *b,
        (AttrValue::Bool(a), AttrValue::Bool(b)) => *a == *b,
        _ => false,
    }
}

/// Every entry of `a` has a structurally equal entry under its name in
/// `b`: one direction of [`attrs_eq`], decided through lookups.
fn attr_maps_match(a: &AttrMap, b: &AttrMap) -> (r: bool)
    ensures
        r == forall|i: int| 0 <= i < a.model().len() ==> has_match(#[trigger] a.model()[i], b.model()),
{
    proof {
        use_type_invariant(b);
    }
    let ghost am = a.model();
    let ghost bm = b.model();
    let n = a.len();
    let mut i: usize = 0;
    while i < n
        invariant
            n == am.len(),
            am == a.model(),
            bm == b.model(),
            crate::tree::keys_unique(bm),
            i <= n,
            forall|x: int| 0 <= x < i ==> has_match(#[trigger] am[x], bm),
        decreases n - i,
    {
        let e = a.entry_at(i);
        let found = match b.get(e.0.as_str()) {
            None => {
                proof {
                    crate::tree::lemma_lookup_none(bm, e.0@);
                    if has_match(am[i as int], bm) {
                        let j = choose|j: int|
                            0 <= j < bm.len() && (#[trigger] bm[j]).0 == am[i as int].0 && attr_eq(
                                am[i as int].1,
                                bm[j].1,
                            );
                        assert(false);
                    }
                }
                false
            },
            Some(v2) => {
                let same = attr_value_eq(&e.1, v2);
                proof {
                    crate::tree::lemma_lookup_some(bm, e.0@);
                    let j0 = choose|j0: int|
                        0 <= j0 < bm.len() && (#[trigger] bm[j0]).0 == e.0@ && bm[j0].1
                            == attr_model(*v2);
                    if same {
                        assert(has_match(am[i as int], bm));
                    } else {
                        if has_match(am[i as int], bm) {
                            let j = choose|j: int|
                                0 <= j < bm.len() && (#[trigger] bm[j]).0 == am[i as int].0
                                    && attr_eq(am[i as int].1, bm[j].1);
                            if j != j0 {
                                assert(bm[j].0 == bm[j0].0);
                                assert(false);
                            }
                            assert(false);
                        }
                    }
                }
                same
            },
        };
        if !found {
            return false;
        }
        i = i + 1;
    }
    true
}

/// Decides [`attrs_eq`] on attribute mappings.
pub fn attr_maps_eq(a: &AttrMap, b: &AttrMap) -> (r: bool)
    ensures
        r == attrs_eq(a.model(), b.model()),
{
    if a.len() != b.len() {
        return false;
    }
    if !attr_maps_match(a, b) {
        return false;
    }
    if !attr_maps_match(b, a) {
        return false;
    }
    true
}

/// Decides [`node_eq`] on built trees.
#[verifier::loop_isolation(false)]
pub fn template_node_eq(a: &TemplateNode, b: &TemplateNode) -> (r: bool)
    ensures
        r == node_eq(node_model(*a), node_model(*b)),
    decreases *a,
{
    match (a, b) {
        (
            TemplateNode::Element { tag: t1, attrs: m1, children: c1 },
            TemplateNode::Element { tag: t2, attrs: m2, children: c2 },
        ) => {
            if !str_eq(t1.as_str(), t2.as_str()) {
                return false;
            }
            if !attr_maps_eq(m1, m2) {
                return false;
            }
            let n = c1.len();
            if n != c2.len() {
                return false;
            }
            let mut i: usize = 0;
            while i < n
                invariant
                    i <= n,
                    forall|x: int| 0 <= x < i ==> node_eq(
                        node_model(#[trigger] c1@[x]),
                        node_model(c2@[x]),
                    ),
                decreases n - i,
            {
                proof {
                    assert(decreases_to!(*a => *c1));
                    assert(decreases_to!(*c1 => c1@[i as int]));
                }
                if !template_node_eq(&c1[i], &c2[i]) {
                    proof {
                        assert(node_model(*a)->Element_children[i as int] == node_model(
                            c1@[i as int],
                        ));
                        assert(node_model(*b)->Element_children[i as int] == node_model(
                            c2@[i as int],
                        ));
                    }
                    return false;
                }
                i = i + 1;
            }
            true
        },
        (TemplateNode::Literal(s1), TemplateNode::Literal(s2)) => str_eq(s1.as_str(), s2.as_str()),
        _ => false,
    }
}

/// Similarity of attribute values: like [`attr_eq`], but any two
/// reactive values count as alike, whatever their evaluators are.
pub open spec fn attr_similar(x: AttrValModel, y: AttrValModel) -> bool {
    match (x, y) {
        (AttrValModel::Text(a), AttrValModel::Text(b)) => a == b,
        (AttrValModel::Float(a), AttrValModel::Float(b)) => a == b,
        (AttrValModel::Int(a), AttrValModel::Int(b)) => a == b,
        (AttrValModel::Bool(a), AttrValModel::Bool(b)) => a == b,
        (AttrValModel::Reactive(a), AttrValModel::Reactive(b)) => true,
        _ => false,
    }
}

/// Entry-by-entry similarity of attribute mappings.
pub open spec fn attrs_pointwise_similar(m1: AttrEntries, m2: AttrEntries) -> bool {
    &&& m1.len() == m2.len()
    &&& forall|i: int|
        0 <= i < m1.len() ==> (#[trigger] m1[i]).0 == m2[i].0 && attr_similar(m1[i].1, m2[i].1)
}

/// Structural equality of trees ignoring evaluators: what repeated
/// builds of one template source guarantee.
pub open spec fn similar(a: NodeModel, b: NodeModel) -> bool
    decreases a,
{
    match (a, b) {
        (
            NodeModel::Element { tag: t1, attrs: a1, children: c1 },
            NodeModel::Element { tag: t2, attrs: a2, children: c2 },
        ) => {
            &&& t1 == t2
            &&& attrs_pointwise_similar(a1, a2)
            &&& c1.len() == c2.len()
            &&& forall|i: int| 0 <= i < c1.len() ==> similar(#[trigger] c1[i], c2[i])
        },
        (NodeModel::Literal(s1), NodeModel::Literal(s2)) => s1 == s2,
        (NodeModel::ReactiveChild(e1), NodeModel::ReactiveChild(e2)) => true,
        _ => false,
    }
}

/// Similarity of roots.
pub open spec fn root_similar(a: VNodeModel, b: VNodeModel) -> bool {
    match (a.template, b.template) {
        (Some(n1), Some(n2)) => similar(n1, n2),
        (None, None) => true,
        _ => false,
    }
}

/// Inserting alike values under one name into entry-by-entry alike
/// mappings keeps them alike.
pub proof fn lemma_insert_parallel(
    m1: AttrEntries,
    m2: AttrEntries,
    k: Seq<char>,
    v1: AttrValModel,
    v2: AttrValModel,
)
    requires
        attrs_pointwise_similar(m1, m2),
        attr_similar(v1, v2),
    ensures
        attrs_pointwise_similar(
            crate::tree::spec_insert(m1, k, v1),
            crate::tree::spec_insert(m2, k, v2),
        ),
    decreases m1.len(),
{
    if m1.len() == 0 {
    } else if m1[0].0 == k {
    } else {
        assert forall|i: int| 0 <= i < m1.drop_first().len() implies (#[trigger] m1.drop_first()[i]).0
            == m2.drop_first()[i].0 && attr_similar(
            m1.drop_first()[i].1,
            m2.drop_first()[i].1,
        ) by {
            assert(m1.drop_first()[i] == m1[i + 1]);
            assert(m2.drop_first()[i] == m2[i + 1]);
        }
        lemma_insert_parallel(m1.drop_first(), m2.drop_first(), k, v1, v2);
    }
}

/// Building one attribute list against two environments gives alike
/// mappings.
pub proof fn lemma_build_attrs_similar(
    attrs: Seq<(Seq<char>, crate::ast::AttrExprModel)>,
    env1: Seq<(Seq<char>, crate::tree::LitVal)>,
    env2: Seq<(Seq<char>, crate::tree::LitVal)>,
)
    ensures
        attrs_pointwise_similar(
            crate::builder::build_attrs(attrs, env1),
            crate::builder::build_attrs(attrs, env2),
        ),
    decreases attrs.len(),
{
    if attrs.len() > 0 {
        lemma_build_attrs_similar(attrs.drop_last(), env1, env2);
        lemma_insert_parallel(
            crate::builder::build_attrs(attrs.drop_last(), env1),
            crate::builder::build_attrs(attrs.drop_last(), env2),
            attrs.last().0,
            crate::builder::attr_of_expr(attrs.last().1, env1),
            crate::builder::attr_of_expr(attrs.last().1, env2),
        );
    }
}

/// Building one parsed node against two environments gives similar
/// trees: the structure is fixed by the source alone.
pub proof fn lemma_build_similar(
    a: crate::ast::AstModel,
    env1: Seq<(Seq<char>, crate::tree::LitVal)>,
    env2: Seq<(Seq<char>, crate::tree::LitVal)>,
)
    ensures
        similar(crate::builder::build_node(a, env1), crate::builder::build_node(a, env2)),
    decreases a,
{
    match a {
        crate::ast::AstModel::ElementNode { tag, attrs, children } => {
            lemma_build_attrs_similar(attrs, env1, env2);
            let b1 = crate::builder::build_node(a, env1);
            let b2 = crate::builder::build_node(a, env2);
            assert forall|i: int| 0 <= i < b1->Element_children.len() implies similar(
                #[trigger] b1->Element_children[i],
                b2->Element_children[i],
            ) by {
                lemma_build_similar(children[i], env1, env2);
            }
        },
        crate::ast::AstModel::TextNode(s) => {},
        crate::ast::AstModel::ExpressionNode(span) => {},
    }
}

impl PartialEq for AttrValue {
    /// Structural equality: literals by value; a reactive value is equal
    /// to nothing, itself included.
    fn eq(&self, other: &Self) -> (r: bool) {
        attr_value_eq(self, other)
    }
}

impl vstd::std_specs::cmp::PartialEqSpecImpl for AttrValue {
    open spec fn obeys_eq_spec() -> bool {
        true
    }

    open spec fn eq_spec(&self, other: &Self) -> bool {
        attr_eq(attr_model(*self), attr_model(*other))
    }
}

impl PartialEq for TemplateNode {
    /// Structural equality: tag, attribute mapping and children,
    /// recursively; a tree holding a reactive value anywhere is equal to
    /// nothing, itself included.
    fn eq(&self, other: &Self) -> (r: bool) {
        template_node_eq(self, other)
    }
}

impl vstd::std_specs::cmp::PartialEqSpecImpl for TemplateNode {
    open spec fn obeys_eq_spec() -> bool {
        true
    }

    open spec fn eq_spec(&self, other: &Self) -> bool {
        node_eq(node_model(*self), node_model(*other))
    }
}

impl PartialEq for VNode {
    /// Structural equality of the optional content.
    fn eq(&self, other: &Self) -> (r: bool) {
        match (&self.template, &other.template) {
            (Some(x), Some(y)) => template_node_eq(x, y),
            (None, None) => true,
            _ => false,
        }
    }
}

impl vstd::std_specs::cmp::PartialEqSpecImpl for VNode {
    open spec fn obeys_eq_spec() -> bool {
        true
    }

    open spec fn eq_spec(&self, other: &Self) -> bool {
        root_eq(self.model(), other.model())
    }
}

} // verus!
