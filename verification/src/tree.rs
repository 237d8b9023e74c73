//! The runtime tree model: the typed tree that a build produces and a
//! rendering layer consumes, together with its mathematical model.
//!
//! Dynamic values are held as [`Evaluator`]s: a captured expression span
//! and the environment it closes over, shared through a reference count so
//! that the same tree can be read by independent consumers.

use std::rc::Rc;

use vstd::prelude::*;

use crate::tokens::{Tok, Token};

verus! {

/// A canonical decimal float literal: no leading zeros on the integer
/// part (except a single `0`), no trailing zeros on the fraction.
#[derive(Debug, Clone)]
pub struct FloatLit {
    /// Digits before the point.
    pub int_digits: String,
    /// Digits after the point; empty when the fraction is zero.
    pub frac_digits: String,
}

/// The mathematical model of a [`FloatLit`].
pub ghost struct FloatVal {
    pub int_digits: Seq<char>,
    pub frac_digits: Seq<char>,
}

impl FloatLit {
    /// What this literal means.
    pub open spec fn model(&self) -> FloatVal {
        FloatVal { int_digits: self.int_digits@, frac_digits: self.frac_digits@ }
    }
}

/// A value fixed at build time: the literal forms an attribute value or an
/// environment binding can take.
#[derive(Debug, Clone)]
pub enum LitValue {
    /// A string.
    Text(String),
    /// A decimal float literal.
    Float(FloatLit),
    /// A 64-bit signed integer.
    Int(i64),
    /// A boolean.
    Bool(bool),
}

/// The mathematical model of a [`LitValue`].
pub ghost enum LitVal {
    Text(Seq<char>),
    Float(FloatVal),
    Int(int),
    Bool(bool),
}

/// What a [`LitValue`] means.
pub open spec fn lit_model(v: LitValue) -> LitVal {
    match v {
        LitValue::Text(s) => LitVal::Text(s@),
        LitValue::Float(f) => LitVal::Float(f.model()),
        LitValue::Int(i) => LitVal::Int(i as int),
        LitValue::Bool(b) => LitVal::Bool(b),
    }
}

/// A deferred computation: the expression span captured from the template,
/// by value, together with the environment it closes over. Invoking it
/// evaluates the expression against that environment; it may be invoked
/// any number of times and never mutates the tree.
#[derive(Debug)]
pub struct Evaluator {
    /// The captured host-expression token span.
    pub expr: Vec<Token>,
    /// The captured bindings, name to value.
    pub env: Vec<(String, LitValue)>,
}

/// The mathematical model of an [`Evaluator`].
pub ghost struct EvalModel {
    pub expr: Seq<Tok>,
    pub env: Seq<(Seq<char>, LitVal)>,
}

/// What an environment means: each binding, name to value.
pub open spec fn env_model(env: Seq<(String, LitValue)>) -> Seq<(Seq<char>, LitVal)> {
    Seq::new(env.len(), |i: int| (env[i].0@, lit_model(env[i].1)))
}


/// One attribute value of a built tree.
#[derive(Debug, Clone)]
pub enum AttrValue {
    /// A string, fixed at build time.
    Text(String),
    /// A decimal float literal, fixed at build time.
    Float(FloatLit),
    /// A 64-bit signed integer, fixed at build time.
    Int(i64),
    /// A boolean, fixed at build time.
    Bool(bool),
    /// A dynamic value, evaluated on demand.
    Reactive(Rc<Evaluator>),
}

/// The mathematical model of an [`AttrValue`].
pub ghost enum AttrValModel {
    Text(Seq<char>),
    Float(FloatVal),
    Int(int),
    Bool(bool),
    Reactive(EvalModel),
}

/// What an [`AttrValue`] means.
pub open spec fn attr_model(v: AttrValue) -> AttrValModel {
    match v {
        AttrValue::Text(s) => AttrValModel::Text(s@),
        AttrValue::Float(f) => AttrValModel::Float(f.model()),
        AttrValue::Int(i) => AttrValModel::Int(i as int),
        AttrValue::Bool(b) => AttrValModel::Bool(b),
        AttrValue::Reactive(e) => AttrValModel::Reactive(e@),
    }
}

impl AttrValue {
    /// What this attribute value means.
    pub open spec fn model(&self) -> AttrValModel {
        attr_model(*self)
    }

    /// Lifts a literal into an attribute value.
    pub fn from_lit(v: LitValue) -> (r: AttrValue)
        ensures
            r.model() == lit_as_attr(lit_model(v)),
    {
        match v {
            LitValue::Text(s) => AttrValue::Text(s),
            LitValue::Float(f) => AttrValue::Float(f),
            LitValue::Int(i) => AttrValue::Int(i),
            LitValue::Bool(b) => AttrValue::Bool(b),
        }
    }
}

/// The attribute value a literal stands for.
pub open spec fn lit_as_attr(v: LitVal) -> AttrValModel {
    match v {
        LitVal::Text(s) => AttrValModel::Text(s),
        LitVal::Float(f) => AttrValModel::Float(f),
        LitVal::Int(i) => AttrValModel::Int(i),
        LitVal::Bool(b) => AttrValModel::Bool(b),
    }
}

/// An attribute mapping as a sequence of entries, name to value.
pub type AttrEntries = Seq<(Seq<char>, AttrValModel)>;

/// No two entries share a name.
pub open spec fn keys_unique(m: AttrEntries) -> bool {
    forall|i: int, j: int| 0 <= i < j < m.len() ==> m[i].0 != m[j].0
}

/// Inserting a binding: the value under an existing name is overwritten in
/// place; a new name is appended.
pub open spec fn spec_insert(m: AttrEntries, k: Seq<char>, v: AttrValModel) -> AttrEntries
    decreases m.len(),
{
    if m.len() == 0 {
        seq![(k, v)]
    } else if m[0].0 == k {
        seq![(k, v)] + m.drop_first()
    } else {
        seq![m[0]] + spec_insert(m.drop_first(), k, v)
    }
}

/// The value under a name, if any.
pub open spec fn spec_lookup(m: AttrEntries, k: Seq<char>) -> Option<AttrValModel>
    decreases m.len(),
{
    if m.len() == 0 {
        None
    } else if m[0].0 == k {
        Some(m[0].1)
    } else {
        spec_lookup(m.drop_first(), k)
    }
}

/// When the name first occurs at `j`, inserting overwrites entry `j`.
pub proof fn lemma_insert_found(m: AttrEntries, k: Seq<char>, v: AttrValModel, j: int)
    requires
        0 <= j < m.len(),
        m[j].0 == k,
        forall|i: int| 0 <= i < j ==> m[i].0 != k,
    ensures
        spec_insert(m, k, v) =~= m.update(j, (k, v)),
    decreases j,
{
    if j == 0 {
    } else {
        lemma_insert_found(m.drop_first(), k, v, j - 1);
    }
}

/// When the name does not occur, inserting appends.
pub proof fn lemma_insert_missing(m: AttrEntries, k: Seq<char>, v: AttrValModel)
    requires
        forall|i: int| 0 <= i < m.len() ==> m[i].0 != k,
    ensures
        spec_insert(m, k, v) =~= m.push((k, v)),
    decreases m.len(),
{
    if m.len() > 0 {
        lemma_insert_missing(m.drop_first(), k, v);
    }
}

/// Names that differ before `j` leave the lookup to the rest.
pub proof fn lemma_lookup_at(m: AttrEntries, k: Seq<char>, j: int)
    requires
        0 <= j <= m.len(),
        forall|i: int| 0 <= i < j ==> m[i].0 != k,
    ensures
        j < m.len() && m[j].0 == k ==> spec_lookup(m, k) == Some(m[j].1),
        j == m.len() ==> spec_lookup(m, k) is None,
    decreases j,
{
    if j > 0 {
        lemma_lookup_at(m.drop_first(), k, j - 1);
    } else {
        if j < m.len() && m[j].0 == k {
        }
    }
}

/// Inserting keeps names unique, and brings in no name but the inserted
/// one.
pub proof fn lemma_spec_insert_keys(m: AttrEntries, k: Seq<char>, v: AttrValModel)
    requires
        keys_unique(m),
    ensures
        keys_unique(spec_insert(m, k, v)),
        forall|i: int|
            0 <= i < spec_insert(m, k, v).len() ==> ((#[trigger] spec_insert(m, k, v)[i]).0 == k
                || exists|j: int| 0 <= j < m.len() && (#[trigger] m[j]).0 == spec_insert(
                m,
                k,
                v,
            )[i].0),
    decreases m.len(),
{
    let r = spec_insert(m, k, v);
    if m.len() == 0 {
    } else if m[0].0 == k {
        assert forall|x: int, y: int| 0 <= x < y < r.len() implies r[x].0 != r[y].0 by {
            assert(r[y] == m[y]);
            if x > 0 {
                assert(r[x] == m[x]);
            } else {
                assert(m[0].0 != m[y].0);
            }
        }
        assert forall|i: int| 0 <= i < r.len() implies (r[i].0 == k || exists|j: int|
            0 <= j < m.len() && (#[trigger] m[j]).0 == r[i].0) by {
            if i > 0 {
                assert(r[i] == m[i]);
                assert(m[i].0 == r[i].0);
            }
        }
    } else {
        let md = m.drop_first();
        assert forall|x: int, y: int| 0 <= x < y < md.len() implies (#[trigger] md[x]).0
            != (#[trigger] md[y]).0 by {
            assert(md[x] == m[x + 1]);
            assert(md[y] == m[y + 1]);
        }
        lemma_spec_insert_keys(md, k, v);
        let rd = spec_insert(md, k, v);
        assert forall|x: int, y: int| 0 <= x < y < r.len() implies r[x].0 != r[y].0 by {
            if x > 0 {
                assert(r[x] == rd[x - 1]);
                assert(r[y] == rd[y - 1]);
            } else {
                assert(r[y] == rd[y - 1]);
                if rd[y - 1].0 == k {
                    assert(m[0].0 != k);
                } else {
                    let j = choose|j: int| 0 <= j < md.len() && (#[trigger] md[j]).0 == rd[y
                        - 1].0;
                    assert(md[j] == m[j + 1]);
                    assert(m[0].0 != m[j + 1].0);
                }
            }
        }
        assert forall|i: int| 0 <= i < r.len() implies (r[i].0 == k || exists|j: int|
            0 <= j < m.len() && (#[trigger] m[j]).0 == r[i].0) by {
            if i == 0 {
                assert(m[0].0 == r[0].0);
            } else {
                assert(r[i] == rd[i - 1]);
                if rd[i - 1].0 != k {
                    let j = choose|j: int| 0 <= j < md.len() && (#[trigger] md[j]).0 == rd[i
                        - 1].0;
                    assert(md[j] == m[j + 1]);
                    assert(m[j + 1].0 == r[i].0);
                }
            }
        }
    }
}

/// A lookup that finds nothing means the name is on no entry.
pub proof fn lemma_lookup_none(m: AttrEntries, k: Seq<char>)
    requires
        spec_lookup(m, k) is None,
    ensures
        forall|j: int| 0 <= j < m.len() ==> (#[trigger] m[j]).0 != k,
    decreases m.len(),
{
    if m.len() > 0 {
        lemma_lookup_none(m.drop_first(), k);
        assert forall|j: int| 0 <= j < m.len() implies (#[trigger] m[j]).0 != k by {
            if j > 0 {
                assert(m.drop_first()[j - 1] == m[j]);
            }
        }
    }
}

/// A lookup that finds a value found it on some entry.
pub proof fn lemma_lookup_some(m: AttrEntries, k: Seq<char>)
    ensures
        match spec_lookup(m, k) {
            Some(v) => exists|j: int|
                0 <= j < m.len() && (#[trigger] m[j]).0 == k && m[j].1 == v,
            None => true,
        },
    decreases m.len(),
{
    if m.len() > 0 && m[0].0 != k {
        lemma_lookup_some(m.drop_first(), k);
        match spec_lookup(m, k) {
            Some(v) => {
                let j = choose|j: int|
                    0 <= j < m.drop_first().len() && (#[trigger] m.drop_first()[j]).0 == k
                        && m.drop_first()[j].1 == v;
                assert(m[j + 1] == m.drop_first()[j]);
                assert(0 <= j + 1 < m.len() && m[j + 1].0 == k && m[j + 1].1 == v);
            },
            None => {},
        }
    }
}

/// What a sequence of owned entries means.
pub open spec fn entries_model(es: Seq<(String, AttrValue)>) -> AttrEntries {
    Seq::new(es.len(), |i: int| (es[i].0@, attr_model(es[i].1)))
}

/// An attribute mapping with unique names, insertion order kept, and
/// last-write-wins overwrite semantics.
#[derive(Debug)]
pub struct AttrMap {
    entries: Vec<(String, AttrValue)>,
}

impl AttrMap {
    /// What this mapping means: its entries in order.
    pub closed spec fn model(&self) -> AttrEntries {
        entries_model(self.entries@)
    }

    /// The names are unique, at all times.
    #[verifier::type_invariant]
    pub open spec fn wf(&self) -> bool {
        keys_unique(self.model())
    }

    /// An empty mapping.
    pub fn new() -> (r: AttrMap)
        ensures
            r.model() =~= Seq::<(Seq<char>, AttrValModel)>::empty(),
    {
        AttrMap { entries: Vec::new() }
    }

    /// How many attributes are in the mapping.
    pub fn len(&self) -> (n: usize)
        ensures
            n == self.model().len(),
    {
        self.entries.len()
    }

    /// Whether the mapping is empty.
    pub fn is_empty(&self) -> (r: bool)
        ensures
            r == (self.model().len() == 0),
    {
        self.entries.len() == 0
    }

    /// Inserts a binding; a later insertion under the same name overwrites
    /// the earlier one, in place.
    #[verifier::loop_isolation(false)]
    pub fn insert(&mut self, k: String, v: AttrValue)
        ensures
            final(self).model() == spec_insert(old(self).model(), k@, attr_model(v)),
    {
        proof {
            use_type_invariant(&*self);
        }
        let ghost m = self.model();
        let mut entries: Vec<(String, AttrValue)> = Vec::new();
        std::mem::swap(&mut entries, &mut self.entries);
        let n = entries.len();
        let mut j: usize = 0;
        while j < n && !crate::strutil::str_eq(entries[j].0.as_str(), k.as_str())
            invariant
                n == entries@.len(),
                j <= n,
                m == entries_model(entries@),
                keys_unique(m),
                forall|i: int| 0 <= i < j ==> m[i].0 != k@,
            decreases n - j,
        {
            j = j + 1;
        }
        if j < n {
            proof {
                lemma_insert_found(m, k@, attr_model(v), j as int);
            }
            entries.set(j, (k, v));
            proof {
                assert(entries_model(entries@) =~= m.update(j as int, (k@, attr_model(v))));
                let mm = entries_model(entries@);
                assert forall|x: int, y: int| 0 <= x < y < mm.len() implies mm[x].0 != mm[y].0 by {
                    assert(m[j as int].0 == k@);
                    assert(m[x].0 != m[y].0);
                }
            }
        } else {
            proof {
                lemma_insert_missing(m, k@, attr_model(v));
            }
            entries.push((k, v));
            proof {
                assert(entries_model(entries@) =~= m.push((k@, attr_model(v))));
                let mm = entries_model(entries@);
                assert forall|x: int, y: int| 0 <= x < y < mm.len() implies mm[x].0 != mm[y].0 by {
                    if y < m.len() {
                        assert(m[x].0 != m[y].0);
                    } else {
                        assert(m[x].0 != k@);
                    }
                }
            }
        }
        self.entries = entries;
    }

    /// The entry at one position, name and value.
    pub fn entry_at(&self, i: usize) -> (r: &(String, AttrValue))
        requires
            i < self.model().len(),
        ensures
            (r.0@, attr_model(r.1)) == self.model()[i as int],
    {
        &self.entries[i]
    }

    /// The value under a name, if any.
    pub fn get(&self, k: &str) -> (r: Option<&AttrValue>)
        ensures
            match r {
                Some(v) => spec_lookup(self.model(), k@) == Some(v.model()),
                None => spec_lookup(self.model(), k@) is None,
            },
    {
        let n = self.entries.len();
        let mut j: usize = 0;
        while j < n
            invariant
                n == self.entries@.len(),
                j <= n,
                forall|i: int| 0 <= i < j ==> self.model()[i].0 != k@,
            decreases n - j,
    {
            if crate::strutil::str_eq(self.entries[j].0.as_str(), k) {
                proof {
                    lemma_lookup_at(self.model(), k@, j as int);
                }
                return Some(&self.entries[j].1);
            }
            j = j + 1;
        }
        proof {
            lemma_lookup_at(self.model(), k@, n as int);
        }
        None
    }
}

/// One node of a built tree.
#[derive(Debug)]
pub enum TemplateNode {
    /// A structural element: a registered tag, its attributes, and its
    /// children in order.
    Element { tag: String, attrs: AttrMap, children: Vec<TemplateNode> },
    /// Static text content.
    Literal(String),
    /// A child computed on demand by a shared evaluator.
    ReactiveChild(Rc<Evaluator>),
}

/// The mathematical model of a [`TemplateNode`].
pub ghost enum NodeModel {
    Element { tag: Seq<char>, attrs: AttrEntries, children: Seq<NodeModel> },
    Literal(Seq<char>),
    ReactiveChild(EvalModel),
}

/// What a node means.
pub open spec fn node_model(n: TemplateNode) -> NodeModel
    decreases n,
{
    match n {
        TemplateNode::Element { tag, attrs, children } => (NodeModel::Element {
            tag: tag@,
            attrs: attrs.model(),
            children: Seq::new(
                children@.len(),
                |i: int|
                    if 0 <= i < children@.len() {
                        node_model(children@[i])
                    } else {
                        NodeModel::Literal(Seq::empty())
                    },
            ),
        }),
        TemplateNode::Literal(s) => NodeModel::Literal(s@),
        TemplateNode::ReactiveChild(e) => NodeModel::ReactiveChild(e@),
    }
}

impl TemplateNode {
    /// What this node means.
    pub open spec fn model(&self) -> NodeModel {
        node_model(*self)
    }
}

/// Every attribute mapping in the tree has unique names.
pub open spec fn node_wf(n: NodeModel) -> bool
    decreases n,
{
    match n {
        NodeModel::Element { tag, attrs, children } => keys_unique(attrs) && forall|i: int|
            0 <= i < children.len() ==> node_wf(#[trigger] children[i]),
        NodeModel::Literal(s) => true,
        NodeModel::ReactiveChild(e) => true,
    }
}

/// The root wrapper: `template` is `None` when the template source held
/// no node at all, which is distinct from an element with no children.
#[derive(Debug)]
pub struct VNode {
    /// The materialized tree, if the template had content.
    pub template: Option<TemplateNode>,
}

/// The mathematical model of a [`VNode`].
pub ghost struct VNodeModel {
    pub template: Option<NodeModel>,
}

impl VNode {
    /// What this root means.
    pub open spec fn model(&self) -> VNodeModel {
        VNodeModel {
            template: match self.template {
                Some(n) => Some(node_model(n)),
                None => None,
            },
        }
    }

    /// A root holding the given tree.
    pub fn new(template: TemplateNode) -> (r: Self)
        ensures
            r.model().template == Some(template.model()),
    {
        Self { template: Some(template) }
    }

    /// A root with no content.
    pub fn empty() -> (r: Self)
        ensures
            r.model().template is None,
    {
        Self { template: None }
    }
}

impl View for Evaluator {
    type V = EvalModel;

    open spec fn view(&self) -> EvalModel {
        EvalModel { expr: self.expr.deep_view(), env: env_model(self.env@) }
    }
}

/// Relies on std's `Rc::clone`: a new reference-counted handle to the
/// same shared evaluator, whose value is unchanged.
#[verifier::external_body]
fn share_evaluator(e: &Rc<Evaluator>) -> (r: Rc<Evaluator>)
    ensures
        r@ == e@,
{
    Rc::clone(e)
}

impl AttrValue {
    /// A reference copy: literals by value, a reactive value as a new
    /// shared handle to the same evaluator.
    pub fn share_clone(&self) -> (r: AttrValue)
        ensures
            r.model() == self.model(),
    {
        match self {
            AttrValue::Text(s) => AttrValue::Text(s.clone()),
            AttrValue::Float(f) => AttrValue::Float(
                FloatLit { int_digits: f.int_digits.clone(), frac_digits: f.frac_digits.clone() },
            ),
            AttrValue::Int(i) => AttrValue::Int(*i),
            AttrValue::Bool(b) => AttrValue::Bool(*b),
            AttrValue::Reactive(e) => AttrValue::Reactive(share_evaluator(e)),
        }
    }
}

impl AttrMap {
    /// A reference copy of the whole mapping.
    pub fn share_clone(&self) -> (r: AttrMap)
        ensures
            r.model() == self.model(),
    {
        proof {
            use_type_invariant(self);
        }
        let n = self.entries.len();
        let mut entries: Vec<(String, AttrValue)> = Vec::new();
        let mut i: usize = 0;
        while i < n
            invariant
                n == self.entries@.len(),
                i <= n,
                entries@.len() == i,
                keys_unique(self.model()),
                forall|k: int| 0 <= k < i ==> entries_model(entries@)[k] == self.model()[k],
            decreases n - i,
        {
            entries.push((self.entries[i].0.clone(), self.entries[i].1.share_clone()));
            i = i + 1;
        }
        proof {
            assert(entries_model(entries@) =~= self.model());
        }
        AttrMap { entries }
    }
}

impl TemplateNode {
    /// A reference copy of the whole tree: structure and literals are
    /// copied by value, evaluators are shared, never duplicated, so the
    /// copy is always legal and cheap.
    #[verifier::loop_isolation(false)]
    pub fn share_clone(&self) -> (r: TemplateNode)
        ensures
            r.model() == self.model(),
        decreases *self,
    {
        match self {
            TemplateNode::Literal(s) => TemplateNode::Literal(s.clone()),
            TemplateNode::ReactiveChild(e) => TemplateNode::ReactiveChild(share_evaluator(e)),
            TemplateNode::Element { tag, attrs, children } => {
                let n = children.len();
                let mut kids: Vec<TemplateNode> = Vec::new();
                let mut i: usize = 0;
                while i < n
                    invariant
                        n == children@.len(),
                        i <= n,
                        kids@.len() == i,
                        forall|k: int| 0 <= k < i ==> node_model(#[trigger] kids@[k])
                            == node_model(children@[k]),
                    decreases n - i,
                {
                    proof {
                        assert(decreases_to!(*self => *children));
                        assert(decreases_to!(*children => children@[i as int]));
                    }
                    kids.push(children[i].share_clone());
                    i = i + 1;
                }
                let r = TemplateNode::Element {
                    tag: tag.clone(),
                    attrs: attrs.share_clone(),
                    children: kids,
                };
                proof {
                    assert(node_model(r)->Element_children =~= node_model(*self)
                        ->Element_children);
                }
                r
            },
        }
    }
}

impl VNode {
    /// A reference copy of the root: see [`TemplateNode::share_clone`].
    pub fn share_clone(&self) -> (r: VNode)
        ensures
            r.model() == self.model(),
    {
        match &self.template {
            Some(n) => VNode { template: Some(n.share_clone()) },
            None => VNode { template: None },
        }
    }
}

} // verus!
