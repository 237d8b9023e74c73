//! A declarative-template compiler: it parses a structured, nested
//! description of a UI-like tree (elements, attributes, text, and embedded
//! host expressions) and builds an in-memory typed tree for a rendering
//! layer.
//!
//! The pipeline is `source text -> tokens -> abstract syntax tree -> tree`;
//! [`spec_construct`] is its mathematical definition and [`construct`]
//! computes it. Attribute values and child content are split into static
//! literals, resolved once at build time, and dynamic values deferred to
//! shared zero-argument evaluators invoked on demand.

use vstd::prelude::*;

pub mod ast;
pub mod builder;
pub mod elements;
pub mod eqs;
pub mod eval;
pub mod errors;
pub mod lexer;
pub mod parser;
pub mod registry;
pub mod strutil;
pub mod tokens;
pub mod tree;

use crate::builder::build_root;
use crate::errors::BuildError;
use crate::lexer::{lex, lex_from, lex_spec};
use crate::parser::parse_template;
use crate::registry::{standard_tags, TagRegistry};
use crate::tree::{env_model, LitVal, LitValue, VNode, VNodeModel};

verus! {

/// What a whole build means: lex the source, parse one optional root
/// node against the registry, and build the tree with every dynamic
/// value closing over `env`. Any failure rejects the whole template; no
/// partial tree is produced.
pub open spec fn spec_construct(
    source: Seq<char>,
    reg: Seq<Seq<char>>,
    env: Seq<(Seq<char>, LitVal)>,
) -> Result<VNodeModel, BuildError> {
    match lex_spec(source) {
        None => Err(BuildError::SyntaxError),
        Some(toks) => match parse_template(toks, reg) {
            Err(e) => Err(e),
            Ok(root) => Ok(build_root(root, env)),
        },
    }
}

/// An empty template source always builds the empty root wrapper,
/// whatever the registry and the environment.
pub proof fn lemma_empty_source(reg: Seq<Seq<char>>, env: Seq<(Seq<char>, LitVal)>)
    ensures
        spec_construct(Seq::empty(), reg, env) == Ok::<VNodeModel, BuildError>(
            VNodeModel { template: None },
        ),
{
    assert(lex_from(Seq::empty(), 0) == Some(Seq::<crate::tokens::Tok>::empty()));
}

/// Building is deterministic: one source, against one registry, yields
/// structurally equal trees (evaluators aside) on every build, whatever
/// each build's dynamic values close over; and two builds against the
/// same environment yield the same tree.
pub proof fn lemma_construct_deterministic(
    source: Seq<char>,
    reg: Seq<Seq<char>>,
    env1: Seq<(Seq<char>, LitVal)>,
    env2: Seq<(Seq<char>, LitVal)>,
    v1: VNodeModel,
    v2: VNodeModel,
)
    requires
        spec_construct(source, reg, env1) == Ok::<VNodeModel, BuildError>(v1),
        spec_construct(source, reg, env2) == Ok::<VNodeModel, BuildError>(v2),
    ensures
        crate::eqs::root_similar(v1, v2),
        env1 == env2 ==> v1 == v2,
{
    match lex_spec(source) {
        Some(toks) => {
            match parse_template(toks, reg) {
                Ok(root) => {
                    match root {
                        Some(ast) => {
                            crate::eqs::lemma_build_similar(ast, env1, env2);
                        },
                        None => {},
                    }
                },
                Err(e) => {},
            }
        },
        None => {},
    }
}

/// An unknown tag name never reaches a tree: a successful build carries
/// registered tags throughout, and an unregistered name fails the whole
/// build the instant it is read.
pub proof fn lemma_built_tags_registered(
    source: Seq<char>,
    reg: Seq<Seq<char>>,
    env: Seq<(Seq<char>, LitVal)>,
    v: VNodeModel,
)
    requires
        spec_construct(source, reg, env) == Ok::<VNodeModel, BuildError>(v),
    ensures
        match v.template {
            Some(n) => crate::builder::node_tags_valid(n, reg),
            None => true,
        },
{
    match lex_spec(source) {
        Some(toks) => {
            match parse_template(toks, reg) {
                Ok(root) => {
                    match root {
                        Some(ast) => {
                            crate::parser::lemma_parse_node_tags_valid(toks, 0, reg);
                            crate::builder::lemma_build_tags_valid(ast, env, reg);
                        },
                        None => {},
                    }
                },
                Err(e) => {},
            }
        },
        None => {},
    }
}

/// A successful build yields a well-formed tree: every attribute
/// mapping in it has unique names.
pub proof fn lemma_built_tree_wf(
    source: Seq<char>,
    reg: Seq<Seq<char>>,
    env: Seq<(Seq<char>, LitVal)>,
    v: VNodeModel,
)
    requires
        spec_construct(source, reg, env) == Ok::<VNodeModel, BuildError>(v),
    ensures
        match v.template {
            Some(n) => crate::tree::node_wf(n),
            None => true,
        },
{
    match lex_spec(source) {
        Some(toks) => {
            match parse_template(toks, reg) {
                Ok(root) => {
                    match root {
                        Some(ast) => {
                            crate::builder::lemma_build_wf(ast, env);
                        },
                        None => {},
                    }
                },
                Err(e) => {},
            }
        },
        None => {},
    }
}

/// Builds a template against a chosen registry, with the given
/// environment captured by every dynamic value.
pub fn construct_with_registry(
    source: &str,
    reg: &TagRegistry,
    env: &Vec<(String, LitValue)>,
) -> (r: Result<VNode, BuildError>)
    ensures
        match r {
            Ok(v) => spec_construct(source@, reg.model(), env_model(env@)) == Ok::<
                _,
                BuildError,
            >(v.model()),
            Err(e) => spec_construct(source@, reg.model(), env_model(env@)) == Err::<
                VNodeModel,
                _,
            >(e),
        },
{
    let toks = match lex(source) {
        Ok(t) => t,
        Err(e) => {
            return Err(e);
        },
    };
    let root = match parser::parse_template_x(&toks, reg) {
        Ok(root) => root,
        Err(e) => {
            return Err(e);
        },
    };
    Ok(builder::build_root_x(&root, env))
}

/// Builds a template against the standard registry, with the given
/// environment captured by every dynamic value.
pub fn construct_with_env(source: &str, env: &Vec<(String, LitValue)>) -> (r: Result<
    VNode,
    BuildError,
>)
    ensures
        match r {
            Ok(v) => spec_construct(source@, standard_tags(), env_model(env@)) == Ok::<
                _,
                BuildError,
            >(v.model()),
            Err(e) => spec_construct(source@, standard_tags(), env_model(env@)) == Err::<
                VNodeModel,
                _,
            >(e),
        },
{
    let reg = TagRegistry::standard();
    construct_with_registry(source, &reg, env)
}

/// Builds a template against the standard registry with an empty
/// environment: the single entry point for templates whose dynamic
/// values close over nothing.
pub fn construct(source: &str) -> (r: Result<VNode, BuildError>)
    ensures
        match r {
            Ok(v) => spec_construct(source@, standard_tags(), Seq::empty()) == Ok::<
                _,
                BuildError,
            >(v.model()),
            Err(e) => spec_construct(source@, standard_tags(), Seq::empty()) == Err::<
                VNodeModel,
                _,
            >(e),
        },
        source@.len() == 0 ==> (r matches Ok(v) && v.model().template is None),
{
    let env: Vec<(String, LitValue)> = Vec::new();
    proof {
        assert(env_model(env@) =~= Seq::<(Seq<char>, LitVal)>::empty());
        if source@.len() == 0 {
            assert(source@ =~= Seq::<char>::empty());
            lemma_empty_source(standard_tags(), Seq::empty());
        }
    }
    construct_with_env(source, &env)
}

} // verus!
