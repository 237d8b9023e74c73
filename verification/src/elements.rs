//! The element kinds of the standard registry, as marker types, and the
//! conversions into tree values that a rendering layer uses.

use vstd::prelude::*;

use crate::tree::{
    attr_model, node_model, AttrValModel, AttrValue, NodeModel, TemplateNode,
};

verus! {

/// A structural element kind: a marker type naming one registered tag.
pub trait TurseElement {
    /// The tag name, as a mathematical value.
    spec fn tag_spec() -> Seq<char>;

    /// The tag name.
    fn tag_name() -> (r: &'static str)
        ensures
            r@ == Self::tag_spec(),
    ;
}

/// The `block` element.
#[allow(non_camel_case_types)]
pub struct block;

impl TurseElement for block {
    open spec fn tag_spec() -> Seq<char> {
        "block"@
    }

    fn tag_name() -> (r: &'static str) {
        "block"
    }
}

/// The `text` element.
#[allow(non_camel_case_types)]
pub struct text;

impl TurseElement for text {
    open spec fn tag_spec() -> Seq<char> {
        "text"@
    }

    fn tag_name() -> (r: &'static str) {
        "text"
    }
}

/// The `input` element.
#[allow(non_camel_case_types)]
pub struct input;

impl TurseElement for input {
    open spec fn tag_spec() -> Seq<char> {
        "input"@
    }

    fn tag_name() -> (r: &'static str) {
        "input"
    }
}

/// The `dropdown` element.
#[allow(non_camel_case_types)]
pub struct dropdown;

impl TurseElement for dropdown {
    open spec fn tag_spec() -> Seq<char> {
        "dropdown"@
    }

    fn tag_name() -> (r: &'static str) {
        "dropdown"
    }
}

/// A value that converts into a tree node.
pub trait IntoTemplateNode: Sized {
    /// The node the value stands for.
    spec fn as_template_node(self) -> NodeModel;

    /// Converts the value into that node.
    fn into_template_node(self) -> (r: TemplateNode)
        ensures
            node_model(r) == self.as_template_node(),
    ;
}

impl IntoTemplateNode for String {
    open spec fn as_template_node(self) -> NodeModel {
        NodeModel::Literal(self@)
    }

    fn into_template_node(self) -> (r: TemplateNode) {
        TemplateNode::Literal(self)
    }
}

impl IntoTemplateNode for &str {
    open spec fn as_template_node(self) -> NodeModel {
        NodeModel::Literal(self@)
    }

    fn into_template_node(self) -> (r: TemplateNode) {
        TemplateNode::Literal(self.to_owned())
    }
}

impl IntoTemplateNode for TemplateNode {
    open spec fn as_template_node(self) -> NodeModel {
        node_model(self)
    }

    fn into_template_node(self) -> (r: TemplateNode) {
        self
    }
}

/// A value that converts into an attribute value, by the boundary
/// coercions: every integer width to the 64-bit integer variant
/// (truncating where it must), booleans to the boolean variant, and text
/// to the text variant.
pub trait IntoAttrValue: Sized {
    /// The attribute value the value stands for.
    spec fn as_attr_value(self) -> AttrValModel;

    /// Converts the value into that attribute value.
    fn into_attr_value(self) -> (r: AttrValue)
        ensures
            attr_model(r) == self.as_attr_value(),
    ;
}

impl IntoAttrValue for i64 {
    open spec fn as_attr_value(self) -> AttrValModel {
        AttrValModel::Int(self as int)
    }

    fn into_attr_value(self) -> (r: AttrValue) {
        AttrValue::Int(self)
    }
}

impl IntoAttrValue for i32 {
    open spec fn as_attr_value(self) -> AttrValModel {
        AttrValModel::Int(self as int)
    }

    fn into_attr_value(self) -> (r: AttrValue) {
        AttrValue::Int(self as i64)
    }
}

impl IntoAttrValue for i16 {
    open spec fn as_attr_value(self) -> AttrValModel {
        AttrValModel::Int(self as int)
    }

    fn into_attr_value(self) -> (r: AttrValue) {
        AttrValue::Int(self as i64)
    }
}

impl IntoAttrValue for i8 {
    open spec fn as_attr_value(self) -> AttrValModel {
        AttrValModel::Int(self as int)
    }

    fn into_attr_value(self) -> (r: AttrValue) {
        AttrValue::Int(self as i64)
    }
}

impl IntoAttrValue for u64 {
    open spec fn as_attr_value(self) -> AttrValModel {
        AttrValModel::Int(self as i64 as int)
    }

    fn into_attr_value(self) -> (r: AttrValue) {
        AttrValue::Int(#[verifier::truncate] (self as i64))
    }
}

impl IntoAttrValue for u32 {
    open spec fn as_attr_value(self) -> AttrValModel {
        AttrValModel::Int(self as int)
    }

    fn into_attr_value(self) -> (r: AttrValue) {
        AttrValue::Int(self as i64)
    }
}

impl IntoAttrValue for u16 {
    open spec fn as_attr_value(self) -> AttrValModel {
        AttrValModel::Int(self as int)
    }

    fn into_attr_value(self) -> (r: AttrValue) {
        AttrValue::Int(self as i64)
    }
}

impl IntoAttrValue for u8 {
    open spec fn as_attr_value(self) -> AttrValModel {
        AttrValModel::Int(self as int)
    }

    fn into_attr_value(self) -> (r: AttrValue) {
        AttrValue::Int(self as i64)
    }
}

/// Relies on std's `char::to_string`: the one-character string holding
/// exactly the character.
#[verifier::external_body]
fn char_to_string(c: char) -> (r: String)
    ensures
        r@ == seq![c],
{
    c.to_string()
}

impl IntoAttrValue for char {
    open spec fn as_attr_value(self) -> AttrValModel {
        AttrValModel::Text(seq![self])
    }

    fn into_attr_value(self) -> (r: AttrValue) {
        AttrValue::Text(char_to_string(self))
    }
}

impl IntoAttrValue for bool {
    open spec fn as_attr_value(self) -> AttrValModel {
        AttrValModel::Bool(self)
    }

    fn into_attr_value(self) -> (r: AttrValue) {
        AttrValue::Bool(self)
    }
}

impl IntoAttrValue for String {
    open spec fn as_attr_value(self) -> AttrValModel {
        AttrValModel::Text(self@)
    }

    fn into_attr_value(self) -> (r: AttrValue) {
        AttrValue::Text(self)
    }
}

impl IntoAttrValue for &str {
    open spec fn as_attr_value(self) -> AttrValModel {
        AttrValModel::Text(self@)
    }

    fn into_attr_value(self) -> (r: AttrValue) {
        AttrValue::Text(self.to_owned())
    }
}

/// Wraps a sequence of convertible values as one `fragment` element
/// holding them as children, in order.
pub fn fragment_of<T: IntoTemplateNode>(items: Vec<T>) -> (r: TemplateNode)
    ensures
        node_model(r) matches NodeModel::Element { tag, attrs, children } && tag == "fragment"@
            && attrs.len() == 0 && children.len() == items@.len() && forall|i: int|
            0 <= i < items@.len() ==> children[i] == (#[trigger] items@[i]).as_template_node(),
{
    let mut items = items;
    let ghost orig = items@;
    let mut kids: Vec<TemplateNode> = Vec::new();
    while items.len() > 0
        invariant
            kids@.len() + items@.len() == orig.len(),
            items@ =~= orig.skip(kids@.len() as int),
            forall|i: int| 0 <= i < kids@.len() ==> node_model(#[trigger] kids@[i])
                == orig[i].as_template_node(),
        decreases items@.len(),
    {
        let x = items.remove(0);
        proof {
            assert(x == orig[kids@.len() as int]);
            assert(items@ =~= orig.skip(kids@.len() as int + 1));
        }
        kids.push(x.into_template_node());
    }
    let r = TemplateNode::Element {
        tag: "fragment".to_owned(),
        attrs: crate::tree::AttrMap::new(),
        children: kids,
    };
    r
}

} // verus!
