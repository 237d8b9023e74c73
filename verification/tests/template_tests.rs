use trs::construct;
use trs::construct_with_env;
use trs::construct_with_registry;
use trs::elements::{block, dropdown, input, text, IntoAttrValue, TurseElement};
use trs::errors::BuildError;
use trs::registry::TagRegistry;
use trs::tree::{AttrValue, FloatLit, LitValue, TemplateNode, VNode};

fn float_attr(int_digits: &str, frac_digits: &str) -> AttrValue {
    AttrValue::Float(FloatLit {
        int_digits: int_digits.to_string(),
        frac_digits: frac_digits.to_string(),
    })
}

#[test]
fn test_trs_macro() {
    let _document = construct(
        "block { class: \"\", id: if true { 1 } else { 2 }, width: 100, text { } text { } \"\" }",
    )
    .unwrap();
}

#[test]
fn test_empty_inner() {
    let document = construct("").unwrap();
    assert!(document.template.is_none());
}

#[test]
fn test_text_node() {
    let document = construct("\"hello world\"").unwrap();
    let inner = document.template.unwrap();
    match inner {
        TemplateNode::Literal(content) => assert_eq!(content, "hello world"),
        _ => panic!("expected Body node"),
    }
}

#[test]
fn test_block_element() {
    let document = construct("block { id: \"my-block\", class: \"container\" }").unwrap();
    let inner = document.template.unwrap();
    match inner {
        TemplateNode::Element {
            tag,
            attrs,
            children,
        } => {
            assert_eq!(tag, "block");
            assert_eq!(
                attrs.get("id"),
                Some(&AttrValue::Text("my-block".to_string()))
            );
            assert_eq!(
                attrs.get("class"),
                Some(&AttrValue::Text("container".to_string()))
            );
            assert!(children.is_empty());
        }
        _ => panic!("expected Element"),
    }
}

#[test]
fn test_nested_elements() {
    let document = construct("block { text { \"inner text\" } }").unwrap();
    let inner = document.template.unwrap();
    match inner {
        TemplateNode::Element { tag, children, .. } => {
            assert_eq!(tag, "block");
            assert_eq!(children.len(), 1);
            match &children[0] {
                TemplateNode::Element { tag: inner_tag, .. } => {
                    assert_eq!(inner_tag, "text");
                }
                _ => panic!("expected nested text element"),
            }
        }
        _ => panic!("expected Element"),
    }
}

#[test]
fn test_all_valid_elements() {
    let _ = construct("block { }").unwrap();
    let _ = construct("text { }").unwrap();
    let _ = construct("input { }").unwrap();
    let _ = construct("dropdown { }").unwrap();
}

#[test]
fn test_integer_attribute() {
    let document = construct("input { value: 42, max: 100 }").unwrap();
    let inner = document.template.unwrap();
    match inner {
        TemplateNode::Element { attrs, .. } => {
            assert_eq!(attrs.get("value"), Some(&AttrValue::Int(42)));
            assert_eq!(attrs.get("max"), Some(&AttrValue::Int(100)));
        }
        _ => panic!("expected Element"),
    }
}

#[test]
fn test_float_attribute() {
    let document = construct("input { price: 19.99, discount: 0.5 }").unwrap();
    let inner = document.template.unwrap();
    match inner {
        TemplateNode::Element { attrs, .. } => {
            assert_eq!(attrs.get("price"), Some(&float_attr("19", "99")));
            assert_eq!(attrs.get("discount"), Some(&float_attr("0", "5")));
        }
        _ => panic!("expected Element"),
    }
}

#[test]
fn test_float_attribute_normalized() {
    let document = construct("input { price: 0019.990, discount: 0.000 }").unwrap();
    let inner = document.template.unwrap();
    match inner {
        TemplateNode::Element { attrs, .. } => {
            assert_eq!(attrs.get("price"), Some(&float_attr("19", "99")));
            assert_eq!(attrs.get("discount"), Some(&float_attr("0", "")));
        }
        _ => panic!("expected Element"),
    }
}

#[test]
fn test_boolean_attribute() {
    let document = construct("input { disabled: true, readonly: false }").unwrap();
    let inner = document.template.unwrap();
    match inner {
        TemplateNode::Element { attrs, .. } => {
            assert_eq!(attrs.get("disabled"), Some(&AttrValue::Bool(true)));
            assert_eq!(attrs.get("readonly"), Some(&AttrValue::Bool(false)));
        }
        _ => panic!("expected Element"),
    }
}

#[test]
fn test_if_expression_attribute() {
    let document = construct("block { id: if true { \"visible\" } else { \"hidden\" } }").unwrap();
    let inner = document.template.unwrap();
    match inner {
        TemplateNode::Element { attrs, .. } => {
            let id = attrs.get("id").unwrap();
            match id {
                AttrValue::Reactive(_) => {}
                _ => panic!("expected Expr attribute"),
            }
        }
        _ => panic!("expected Element"),
    }
}

#[test]
fn test_if_expression_attribute_evaluates() {
    let document = construct("block { id: if true { \"visible\" } else { \"hidden\" } }").unwrap();
    let inner = document.template.unwrap();
    match inner {
        TemplateNode::Element { attrs, .. } => match attrs.get("id").unwrap() {
            AttrValue::Reactive(ev) => {
                let value = ev.invoke_attr().unwrap();
                assert_eq!(value, AttrValue::Text("visible".to_string()));
                let again = ev.invoke_attr().unwrap();
                assert_eq!(again, AttrValue::Text("visible".to_string()));
            }
            _ => panic!("expected Reactive attribute"),
        },
        _ => panic!("expected Element"),
    }
}

#[test]
fn test_match_expression_attribute() {
    let document =
        construct("block { class: match 2 { 1 => \"one\", 2 => \"two\", _ => \"other\" } }")
            .unwrap();
    let inner = document.template.unwrap();
    match inner {
        TemplateNode::Element { attrs, .. } => {
            assert!(matches!(attrs.get("class"), Some(AttrValue::Reactive(_))));
        }
        _ => panic!("expected Element"),
    }
}

#[test]
fn test_expression_child() {
    let env = vec![("x".to_string(), LitValue::Int(10))];
    let document = construct_with_env("block { { x * 2 } }", &env).unwrap();
    let inner = document.template.unwrap();
    match inner {
        TemplateNode::Element { children, .. } => {
            assert_eq!(children.len(), 1);
            match &children[0] {
                TemplateNode::ReactiveChild(ev) => match ev.invoke_node().unwrap() {
                    TemplateNode::Literal(s) => {
                        assert_eq!(s, "20");
                    }
                    _ => panic!("expected Body node"),
                },
                _ => panic!("expected reactive child"),
            }
        }
        _ => panic!("expected Element"),
    }
}

#[test]
fn test_multiple_children() {
    let document =
        construct("block { \"first\" text { } \"second\" block { } \"third\" }").unwrap();
    let inner = document.template.unwrap();
    match inner {
        TemplateNode::Element { children, .. } => {
            assert_eq!(children.len(), 5);
        }
        _ => panic!("expected Element"),
    }
}

#[test]
fn test_mixed_children() {
    let env = vec![("count".to_string(), LitValue::Int(5))];
    let document = construct_with_env(
        "block { \"static text\" { count.to_string() } text { name: \"child\" } }",
        &env,
    )
    .unwrap();
    let inner = document.template.unwrap();
    match inner {
        TemplateNode::Element { children, .. } => {
            assert_eq!(children.len(), 3);
        }
        _ => panic!("expected Element"),
    }
}

#[test]
fn test_unknown_tag() {
    let result = construct("foo { }");
    assert_eq!(result.unwrap_err(), BuildError::UnknownTagError);
}

#[test]
fn test_unknown_nested_tag() {
    let result = construct("block { foo { } }");
    assert_eq!(result.unwrap_err(), BuildError::UnknownTagError);
}

#[test]
fn test_missing_close_brace() {
    let result = construct("block {");
    assert_eq!(result.unwrap_err(), BuildError::SyntaxError);
}

#[test]
fn test_unterminated_string() {
    let result = construct("\"hello");
    assert_eq!(result.unwrap_err(), BuildError::SyntaxError);
}

#[test]
fn test_trailing_tokens() {
    let result = construct("block { } block { }");
    assert_eq!(result.unwrap_err(), BuildError::SyntaxError);
}

#[test]
fn test_integer_overflow() {
    let result = construct("input { value: 99999999999999999999 }");
    assert_eq!(result.unwrap_err(), BuildError::NumberFormatError);
    let edge = construct("input { value: 9223372036854775807 }").unwrap();
    match edge.template.unwrap() {
        TemplateNode::Element { attrs, .. } => {
            assert_eq!(attrs.get("value"), Some(&AttrValue::Int(i64::MAX)));
        }
        _ => panic!("expected Element"),
    }
    let over = construct("input { value: 9223372036854775808 }");
    assert_eq!(over.unwrap_err(), BuildError::NumberFormatError);
}

#[test]
fn test_expected_attribute_value() {
    let result = construct("block { id: @ }");
    assert_eq!(result.unwrap_err(), BuildError::ExpectedAttributeValueError);
}

#[test]
fn test_duplicate_attribute_overwrites() {
    let document = construct("block { id: \"first\", id: \"second\" }").unwrap();
    match document.template.unwrap() {
        TemplateNode::Element { attrs, .. } => {
            assert_eq!(attrs.len(), 1);
            assert_eq!(
                attrs.get("id"),
                Some(&AttrValue::Text("second".to_string()))
            );
        }
        _ => panic!("expected Element"),
    }
}

#[test]
fn test_repeated_builds_structurally_equal() {
    let source = "block { id: \"my-block\" text { \"inner\" } }";
    let first = construct(source).unwrap();
    let second = construct(source).unwrap();
    assert_eq!(first, second);
    assert_eq!(second, first);
}

#[test]
fn test_round_trip_hand_construction() {
    let built = construct("block { id: \"my-block\" \"inner\" }").unwrap();
    let mut attrs = trs::tree::AttrMap::new();
    attrs.insert("id".to_string(), AttrValue::Text("my-block".to_string()));
    let by_hand = VNode::new(TemplateNode::Element {
        tag: "block".to_string(),
        attrs,
        children: vec![TemplateNode::Literal("inner".to_string())],
    });
    assert_eq!(built, by_hand);
    assert_eq!(by_hand, built);
}

#[test]
fn test_reactive_tree_never_equal() {
    let source = "block { id: if true { \"a\" } else { \"b\" } }";
    let one = construct(source).unwrap();
    let two = construct(source).unwrap();
    assert_ne!(one, two);
    assert_ne!(one, one);
}

#[test]
fn test_custom_registry() {
    let registry = TagRegistry::new(vec!["widget".to_string()]);
    let env = Vec::new();
    let ok = construct_with_registry("widget { }", &registry, &env);
    assert!(ok.is_ok());
    let bad = construct_with_registry("block { }", &registry, &env);
    assert_eq!(bad.unwrap_err(), BuildError::UnknownTagError);
}

#[test]
fn test_evaluator_arithmetic() {
    let env = vec![("x".to_string(), LitValue::Int(10))];
    let document = construct_with_env("block { id: { x * 2 + 1 } }", &env).unwrap();
    match document.template.unwrap() {
        TemplateNode::Element { attrs, .. } => match attrs.get("id").unwrap() {
            AttrValue::Reactive(ev) => {
                assert_eq!(ev.invoke_attr().unwrap(), AttrValue::Int(21));
            }
            _ => panic!("expected Reactive attribute"),
        },
        _ => panic!("expected Element"),
    }
}

#[test]
fn test_evaluator_unsupported_form() {
    let document = construct("block { { foo() } }").unwrap();
    match document.template.unwrap() {
        TemplateNode::Element { children, .. } => match &children[0] {
            TemplateNode::ReactiveChild(ev) => {
                assert!(ev.invoke_node().is_none());
            }
            _ => panic!("expected reactive child"),
        },
        _ => panic!("expected Element"),
    }
}

#[test]
fn test_tag_names() {
    assert_eq!(block::tag_name(), "block");
    assert_eq!(text::tag_name(), "text");
    assert_eq!(input::tag_name(), "input");
    assert_eq!(dropdown::tag_name(), "dropdown");
}

#[test]
fn test_into_attr_value() {
    assert_eq!(5i32.into_attr_value(), AttrValue::Int(5));
    assert_eq!(7u8.into_attr_value(), AttrValue::Int(7));
    assert_eq!(true.into_attr_value(), AttrValue::Bool(true));
    assert_eq!(
        "hi".into_attr_value(),
        AttrValue::Text("hi".to_string())
    );
    assert_eq!('z'.into_attr_value(), AttrValue::Text("z".to_string()));
}

#[test]
fn test_fragment_of() {
    let node = trs::elements::fragment_of(vec!["a".to_string(), "b".to_string()]);
    match node {
        TemplateNode::Element {
            tag,
            attrs,
            children,
        } => {
            assert_eq!(tag, "fragment");
            assert_eq!(attrs.len(), 0);
            assert_eq!(children.len(), 2);
            assert_eq!(children[0], TemplateNode::Literal("a".to_string()));
        }
        _ => panic!("expected fragment element"),
    }
}

#[test]
fn test_vnode_constructors() {
    assert!(VNode::empty().template.is_none());
    let v = VNode::new(TemplateNode::Literal("x".to_string()));
    assert!(v.template.is_some());
}

#[test]
fn test_error_descriptions() {
    assert_eq!(BuildError::SyntaxError.describe(), "syntax error");
    assert_eq!(BuildError::UnknownTagError.describe(), "unknown tag");
}

#[test]
fn test_share_clone_preserves_structure() {
    let plain = construct("block { id: \"a\" \"inner\" }").unwrap();
    let copy = plain.share_clone();
    assert_eq!(plain, copy);

    let reactive = construct("block { id: if false { \"a\" } else { \"b\" } }").unwrap();
    let copy = reactive.share_clone();
    match copy.template.unwrap() {
        TemplateNode::Element { attrs, .. } => match attrs.get("id").unwrap() {
            AttrValue::Reactive(ev) => {
                assert_eq!(ev.invoke_attr().unwrap(), AttrValue::Text("b".to_string()));
            }
            _ => panic!("expected Reactive attribute"),
        },
        _ => panic!("expected Element"),
    }
}

#[test]
fn test_match_expression_attribute_evaluates() {
    let document =
        construct("block { class: match 2 { 1 => \"one\", 2 => \"two\", _ => \"other\" } }")
            .unwrap();
    match document.template.unwrap() {
        TemplateNode::Element { attrs, .. } => match attrs.get("class").unwrap() {
            AttrValue::Reactive(ev) => {
                assert_eq!(ev.invoke_attr().unwrap(), AttrValue::Text("two".to_string()));
            }
            _ => panic!("expected Reactive attribute"),
        },
        _ => panic!("expected Element"),
    }
}

#[test]
fn test_match_wildcard_arm_evaluates() {
    let env = vec![("n".to_string(), LitValue::Int(9))];
    let document = construct_with_env(
        "block { class: match n { 1 => \"one\", 2 => \"two\", _ => \"other\" } }",
        &env,
    )
    .unwrap();
    match document.template.unwrap() {
        TemplateNode::Element { attrs, .. } => match attrs.get("class").unwrap() {
            AttrValue::Reactive(ev) => {
                assert_eq!(
                    ev.invoke_attr().unwrap(),
                    AttrValue::Text("other".to_string())
                );
            }
            _ => panic!("expected Reactive attribute"),
        },
        _ => panic!("expected Element"),
    }
}

#[test]
fn test_match_without_matching_arm_yields_nothing() {
    let document = construct("block { class: match 3 { 1 => \"one\", 2 => \"two\" } }").unwrap();
    match document.template.unwrap() {
        TemplateNode::Element { attrs, .. } => match attrs.get("class").unwrap() {
            AttrValue::Reactive(ev) => {
                assert!(ev.invoke_attr().is_none());
            }
            _ => panic!("expected Reactive attribute"),
        },
        _ => panic!("expected Element"),
    }
}

#[test]
fn test_match_string_and_boolean_patterns() {
    let env = vec![("mode".to_string(), LitValue::Text("wide".to_string()))];
    let document = construct_with_env(
        "block { id: match mode { \"narrow\" => 1, \"wide\" => 2, _ => 0 } }",
        &env,
    )
    .unwrap();
    match document.template.unwrap() {
        TemplateNode::Element { attrs, .. } => match attrs.get("id").unwrap() {
            AttrValue::Reactive(ev) => {
                assert_eq!(ev.invoke_attr().unwrap(), AttrValue::Int(2));
            }
            _ => panic!("expected Reactive attribute"),
        },
        _ => panic!("expected Element"),
    }
}

#[test]
fn test_method_call_child_evaluates() {
    let env = vec![("count".to_string(), LitValue::Int(5))];
    let document = construct_with_env(
        "block { \"static text\" { count.to_string() } text { name: \"child\" } }",
        &env,
    )
    .unwrap();
    match document.template.unwrap() {
        TemplateNode::Element { children, .. } => match &children[1] {
            TemplateNode::ReactiveChild(ev) => match ev.invoke_node().unwrap() {
                TemplateNode::Literal(s) => assert_eq!(s, "5"),
                _ => panic!("expected rendered text child"),
            },
            _ => panic!("expected reactive child"),
        },
        _ => panic!("expected Element"),
    }
}

#[test]
fn test_host_only_forms_yield_nothing() {
    let document =
        construct("block { {let a = \"aa\".to_string(); a.split_at(1).0.to_string()} }").unwrap();
    match document.template.unwrap() {
        TemplateNode::Element { tag, children, .. } => {
            assert_eq!(tag, "block");
            assert_eq!(children.len(), 1);
            match &children[0] {
                TemplateNode::ReactiveChild(ev) => {
                    assert!(ev.invoke_node().is_none());
                }
                _ => panic!("expected reactive child"),
            }
        }
        _ => panic!("expected Element"),
    }
}
