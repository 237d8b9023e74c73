//! Invoking evaluators: the deferred computation of dynamic values.
//!
//! An [`Evaluator`] holds a captured host-expression token span and the
//! environment it closes over. Invoking it evaluates the span against
//! that environment, by a single recursive descent over the tokens.
//!
//! Exactly these spans evaluate to a value:
//! - string, integer, float and boolean literals;
//! - names looked up in the captured environment;
//! - `+`, `-` and `*` on integers, checked, with the usual precedence;
//! - parenthesized and braced subexpressions;
//! - `.to_string()` on any of these, rendering the value as its
//!   textual form;
//! - `if`/`else` chains whose condition evaluates to a boolean;
//! - `match` over these expressions, with literal arms and a `_` arm,
//!   selecting the first arm whose pattern equals the scrutinee.
//!
//! Every arm of a conditional or match is evaluated, matched or not.
//! A span holding any other form — a method call, a comparison, a
//! statement block, a binding pattern — evaluates to nothing; invocation
//! is total and never fails.

use vstd::prelude::*;
use vstd::string::StrSliceExecFns;
use vstd::string::StringExecFns;

use crate::parser::{all_digits, canon_frac_digits, canon_int_digits, check_all_digits,
    canon_frac_x, canon_int_x, digits_val, parse_int_token};
use crate::strutil::str_eq;
use crate::tokens::{Tok, Token};
use crate::tree::{
    attr_model, env_model, lit_as_attr, lit_model, node_model, AttrValue, Evaluator, FloatLit,
    FloatVal, LitVal, LitValue, NodeModel, TemplateNode,
};

verus! {

/// An environment's bindings, searched front to back.
pub open spec fn lookup_env(env: Seq<(Seq<char>, LitVal)>, name: Seq<char>) -> Option<LitVal>
    decreases env.len(),
{
    if env.len() == 0 {
        None
    } else if env[0].0 == name {
        Some(env[0].1)
    } else {
        lookup_env(env.drop_first(), name)
    }
}

/// Names that differ before `j` leave the lookup to the rest.
proof fn lemma_lookup_env_at(env: Seq<(Seq<char>, LitVal)>, name: Seq<char>, j: int)
    requires
        0 <= j <= env.len(),
        forall|i: int| 0 <= i < j ==> (#[trigger] env[i]).0 != name,
    ensures
        j < env.len() && env[j].0 == name ==> lookup_env(env, name) == Some(env[j].1),
        j == env.len() ==> lookup_env(env, name) is None,
    decreases j,
{
    if j > 0 {
        assert forall|i: int| 0 <= i < j - 1 implies (#[trigger] env.drop_first()[i]).0
            != name by {
            assert(env.drop_first()[i] == env[i + 1]);
        }
        lemma_lookup_env_at(env.drop_first(), name, j - 1);
    }
}

/// Looks a name up in an environment.
pub fn lookup_env_x(env: &Vec<(String, LitValue)>, name: &String) -> (r: Option<LitValue>)
    ensures
        match r {
            Some(v) => lookup_env(env_model(env@), name@) == Some(lit_model(v)),
            None => lookup_env(env_model(env@), name@) is None,
        },
{
    let n = env.len();
    let mut j: usize = 0;
    while j < n
        invariant
            n == env@.len(),
            j <= n,
            forall|i: int| 0 <= i < j ==> (#[trigger] env_model(env@)[i]).0 != name@,
        decreases n - j,
    {
        if str_eq(env[j].0.as_str(), name.as_str()) {
            proof {
                lemma_lookup_env_at(env_model(env@), name@, j as int);
            }
            return Some(crate::builder::clone_lit(&env[j].1));
        }
        j = j + 1;
    }
    proof {
        lemma_lookup_env_at(env_model(env@), name@, n as int);
    }
    None
}

/// A checked 64-bit signed result.
pub open spec fn checked_i64(v: int) -> Option<LitVal> {
    if i64::MIN as int <= v <= i64::MAX as int {
        Some(LitVal::Int(v))
    } else {
        None
    }
}

/// Applies one arithmetic operator to two values: defined on integers
/// only, and checked.
pub open spec fn apply_op(op: char, x: LitVal, y: LitVal) -> Option<LitVal> {
    match (x, y) {
        (LitVal::Int(a), LitVal::Int(b)) => {
            if op == '+' {
                checked_i64(a + b)
            } else if op == '-' {
                checked_i64(a - b)
            } else if op == '*' {
                checked_i64(a * b)
            } else {
                None
            }
        },
        _ => None,
    }
}

/// Evaluates one atom at `p`: a literal, a name, or a parenthesized or
/// braced subexpression. Returns the value and the position just past it.
pub open spec fn eval_atom(
    toks: Seq<Tok>,
    p: nat,
    env: Seq<(Seq<char>, LitVal)>,
) -> Option<(LitVal, nat)>
    decreases toks.len() - p, 0nat,
    when p <= toks.len()
{
    if p >= toks.len() {
        None
    } else {
        match toks[p as int] {
            Tok::StrLit(s) => Some((LitVal::Text(s), p + 1)),
            Tok::IntLit(ds) => {
                if all_digits(ds) && digits_val(ds) <= i64::MAX as int {
                    Some((LitVal::Int(digits_val(ds)), p + 1))
                } else {
                    None
                }
            },
            Tok::FloatLit { int_digits, frac_digits } => {
                if all_digits(int_digits) && all_digits(frac_digits) {
                    Some(
                        (
                            LitVal::Float(
                                FloatVal {
                                    int_digits: canon_int_digits(int_digits),
                                    frac_digits: canon_frac_digits(frac_digits),
                                },
                            ),
                            p + 1,
                        ),
                    )
                } else {
                    None
                }
            },
            Tok::Ident(w) => {
                if w == "true"@ {
                    Some((LitVal::Bool(true), p + 1))
                } else if w == "false"@ {
                    Some((LitVal::Bool(false), p + 1))
                } else {
                    match lookup_env(env, w) {
                        Some(v) => Some((v, p + 1)),
                        None => None,
                    }
                }
            },
            Tok::LBrace => {
                match eval_expr(toks, p + 1, env) {
                    Some((v, q)) => {
                        if p < q < toks.len() && toks[q as int] is RBrace {
                            Some((v, q + 1))
                        } else {
                            None
                        }
                    },
                    None => None,
                }
            },
            Tok::Punct(c) => {
                if c == '(' {
                    match eval_expr(toks, p + 1, env) {
                        Some((v, q)) => {
                            if p < q < toks.len() && toks[q as int] == Tok::Punct(')') {
                                Some((v, q + 1))
                            } else {
                                None
                            }
                        },
                        None => None,
                    }
                } else {
                    None
                }
            },
            _ => None,
        }
    }
}

/// Evaluates `.to_string()` continuations onto an evaluated value: each
/// renders the value as its textual form.
pub open spec fn eval_postfix(
    toks: Seq<Tok>,
    p: nat,
    v: LitVal,
) -> Option<(LitVal, nat)>
    decreases toks.len() - p, 1nat,
    when p <= toks.len()
{
    if p + 4 <= toks.len() && toks[p as int] == Tok::Punct('.') && toks[p + 1 as int]
        == Tok::Ident("to_string"@) && toks[p + 2 as int] == Tok::Punct('(') && toks[
        p + 3 as int
    ] == Tok::Punct(')') {
        eval_postfix(toks, p + 4, LitVal::Text(text_of_value(v)))
    } else {
        Some((v, p))
    }
}

/// Evaluates `* atom` continuations onto an accumulated value.
pub open spec fn eval_mul_rest(
    toks: Seq<Tok>,
    p: nat,
    acc: LitVal,
    env: Seq<(Seq<char>, LitVal)>,
) -> Option<(LitVal, nat)>
    decreases toks.len() - p, 1nat,
    when p <= toks.len()
{
    if p < toks.len() && toks[p as int] == Tok::Punct('*') {
        match eval_atom(toks, p + 1, env) {
            Some((v, q)) => {
                if p < q <= toks.len() {
                    match apply_op('*', acc, v) {
                        Some(acc2) => eval_mul_rest(toks, q, acc2, env),
                        None => None,
                    }
                } else {
                    None
                }
            },
            None => None,
        }
    } else {
        Some((acc, p))
    }
}

/// Evaluates a product at `p`.
pub open spec fn eval_mul(
    toks: Seq<Tok>,
    p: nat,
    env: Seq<(Seq<char>, LitVal)>,
) -> Option<(LitVal, nat)>
    decreases toks.len() - p, 2nat,
    when p <= toks.len()
{
    match eval_atom(toks, p, env) {
        Some((v, q)) => {
            if p < q <= toks.len() {
                match eval_postfix(toks, q, v) {
                    Some((v2, q2)) => {
                        if p < q2 <= toks.len() {
                            eval_mul_rest(toks, q2, v2, env)
                        } else {
                            None
                        }
                    },
                    None => None,
                }
            } else {
                None
            }
        },
        None => None,
    }
}

/// Evaluates `+ product` and `- product` continuations onto an
/// accumulated value.
pub open spec fn eval_add_rest(
    toks: Seq<Tok>,
    p: nat,
    acc: LitVal,
    env: Seq<(Seq<char>, LitVal)>,
) -> Option<(LitVal, nat)>
    decreases toks.len() - p, 3nat,
    when p <= toks.len()
{
    if p < toks.len() && (toks[p as int] == Tok::Punct('+') || toks[p as int] == Tok::Punct('-')) {
        let op: char = if toks[p as int] == Tok::Punct('+') {
            '+'
        } else {
            '-'
        };
        match eval_mul(toks, p + 1, env) {
            Some((v, q)) => {
                if p < q <= toks.len() {
                    match apply_op(op, acc, v) {
                        Some(acc2) => eval_add_rest(toks, q, acc2, env),
                        None => None,
                    }
                } else {
                    None
                }
            },
            None => None,
        }
    } else {
        Some((acc, p))
    }
}

/// Evaluates a sum at `p`.
pub open spec fn eval_add(
    toks: Seq<Tok>,
    p: nat,
    env: Seq<(Seq<char>, LitVal)>,
) -> Option<(LitVal, nat)>
    decreases toks.len() - p, 4nat,
    when p <= toks.len()
{
    match eval_mul(toks, p, env) {
        Some((v, q)) => {
            if p < q <= toks.len() {
                eval_add_rest(toks, q, v, env)
            } else {
                None
            }
        },
        None => None,
    }
}

/// The pattern of one match arm at `p`: `Some(None)` for the wildcard
/// `_`, `Some(Some(v))` for a literal pattern of value `v`, `None` for
/// any unsupported pattern.
pub open spec fn pat_at(toks: Seq<Tok>, p: nat) -> Option<Option<LitVal>>
    recommends
        p < toks.len(),
{
    match toks[p as int] {
        Tok::IntLit(ds) => {
            if all_digits(ds) && digits_val(ds) <= i64::MAX as int {
                Some(Some(LitVal::Int(digits_val(ds))))
            } else {
                None
            }
        },
        Tok::StrLit(s) => Some(Some(LitVal::Text(s))),
        Tok::Ident(w) => {
            if w == "true"@ {
                Some(Some(LitVal::Bool(true)))
            } else if w == "false"@ {
                Some(Some(LitVal::Bool(false)))
            } else if w == "_"@ {
                Some(None)
            } else {
                None
            }
        },
        _ => None,
    }
}

/// Evaluates the arms of a match from `p` up to and past the closing
/// brace: each arm is `pattern => expression` with an optional trailing
/// comma, every arm's expression is evaluated, and `sel` carries the
/// first matching arm's value.
pub open spec fn eval_arms(
    toks: Seq<Tok>,
    p: nat,
    scrut: LitVal,
    env: Seq<(Seq<char>, LitVal)>,
    sel: Option<LitVal>,
) -> Option<(Option<LitVal>, nat)>
    decreases toks.len() - p, 5nat,
    when p <= toks.len()
{
    if p >= toks.len() {
        None
    } else if toks[p as int] is RBrace {
        Some((sel, p + 1))
    } else {
        match pat_at(toks, p) {
            None => None,
            Some(pat) => {
                if p + 3 <= toks.len() && toks[p + 1 as int] == Tok::Punct('=') && toks[
                    p + 2 as int
                ] == Tok::Punct('>') {
                    match eval_expr(toks, (p + 3) as nat, env) {
                        Some((av, r)) => {
                            let matched = match pat {
                                None => true,
                                Some(v) => v == scrut,
                            };
                            let sel2 = if sel is Some {
                                sel
                            } else if matched {
                                Some(av)
                            } else {
                                sel
                            };
                            let r2: nat = if r < toks.len() && toks[r as int] is Comma {
                                r + 1
                            } else {
                                r
                            };
                            if p < r2 <= toks.len() {
                                eval_arms(toks, r2, scrut, env, sel2)
                            } else {
                                None
                            }
                        },
                        None => None,
                    }
                } else {
                    None
                }
            },
        }
    }
}

/// Evaluates a match whose `match` keyword stands at `p`: the scrutinee
/// is evaluated, every arm is walked, and the first arm whose pattern
/// equals the scrutinee (or is the wildcard) gives the value; with no
/// matching arm the match evaluates to nothing.
pub open spec fn eval_match(
    toks: Seq<Tok>,
    p: nat,
    env: Seq<(Seq<char>, LitVal)>,
) -> Option<(LitVal, nat)>
    decreases toks.len() - p, 5nat,
    when p <= toks.len()
{
    if p >= toks.len() {
        None
    } else {
        match eval_add(toks, p + 1, env) {
            Some((sv, q)) => {
                if p < q < toks.len() && toks[q as int] is LBrace {
                    match eval_arms(toks, q + 1, sv, env, None) {
                        Some((sel, e)) => {
                            match sel {
                                Some(v) => Some((v, e)),
                                None => None,
                            }
                        },
                        None => None,
                    }
                } else {
                    None
                }
            },
            None => None,
        }
    }
}

/// Evaluates a conditional whose `if` stands at `p`: the condition must
/// evaluate to a boolean, both arms are evaluated, and the chosen arm's
/// value is the result.
pub open spec fn eval_if(
    toks: Seq<Tok>,
    p: nat,
    env: Seq<(Seq<char>, LitVal)>,
) -> Option<(LitVal, nat)>
    decreases toks.len() - p, 5nat,
    when p <= toks.len()
{
    if p >= toks.len() {
        None
    } else {
    match eval_add(toks, p + 1, env) {
        Some((c, q)) => {
            if p < q < toks.len() && toks[q as int] is LBrace {
                match eval_expr(toks, q + 1, env) {
                    Some((tv, r)) => {
                        if q < r < toks.len() && toks[r as int] is RBrace && r + 2
                            < toks.len() && toks[r + 1 as int] == Tok::Ident("else"@) {
                            let els: Option<(LitVal, nat)> = if toks[r + 2 as int] == Tok::Ident(
                                "if"@,
                            ) {
                                if r + 2 > p {
                                    eval_if(toks, (r + 2) as nat, env)
                                } else {
                                    None
                                }
                            } else if toks[r + 2 as int] is LBrace {
                                match eval_expr(toks, (r + 3) as nat, env) {
                                    Some((ev, s)) => {
                                        if r + 2 < s < toks.len() && toks[s as int] is RBrace {
                                            Some((ev, s + 1))
                                        } else {
                                            None
                                        }
                                    },
                                    None => None,
                                }
                            } else {
                                None
                            };
                            match els {
                                Some((ev, s)) => {
                                    match c {
                                        LitVal::Bool(b) => Some(
                                            (
                                                if b {
                                                    tv
                                                } else {
                                                    ev
                                                },
                                                s,
                                            ),
                                        ),
                                        _ => None,
                                    }
                                },
                                None => None,
                            }
                        } else {
                            None
                        }
                    },
                    None => None,
                }
            } else {
                None
            }
        },
        None => None,
    }
    }
}

/// Evaluates one expression at `p`: a conditional or a sum.
pub open spec fn eval_expr(
    toks: Seq<Tok>,
    p: nat,
    env: Seq<(Seq<char>, LitVal)>,
) -> Option<(LitVal, nat)>
    decreases toks.len() - p, 6nat,
    when p <= toks.len()
{
    if p < toks.len() && toks[p as int] == Tok::Ident("if"@) {
        eval_if(toks, p, env)
    } else if p < toks.len() && toks[p as int] == Tok::Ident("match"@) {
        eval_match(toks, p, env)
    } else {
        eval_add(toks, p, env)
    }
}

/// Evaluates a whole captured span: the expression must cover every
/// token of it.
pub open spec fn eval_span(span: Seq<Tok>, env: Seq<(Seq<char>, LitVal)>) -> Option<LitVal> {
    match eval_expr(span, 0, env) {
        Some((v, q)) => {
            if q == span.len() {
                Some(v)
            } else {
                None
            }
        },
        None => None,
    }
}

/// Computes [`apply_op`].
fn apply_op_x(op: char, x: &LitValue, y: &LitValue) -> (r: Option<LitValue>)
    ensures
        match r {
            Some(v) => apply_op(op, lit_model(*x), lit_model(*y)) == Some(lit_model(v)),
            None => apply_op(op, lit_model(*x), lit_model(*y)) is None,
        },
{
    match (x, y) {
        (LitValue::Int(a), LitValue::Int(b)) => {
            if op == '+' || op == '-' || op == '*' {
                let aa: i128 = *a as i128;
                let bb: i128 = *b as i128;
                proof {
                    assert(aa * bb <= 0x40000000000000000000000000000000i128 && aa * bb
                        >= -0x40000000000000000000000000000000i128) by (nonlinear_arith)
                        requires
                            -0x8000000000000000i128 <= aa <= 0x7fffffffffffffffi128,
                            -0x8000000000000000i128 <= bb <= 0x7fffffffffffffffi128,
                    ;
                }
                let v: i128 = if op == '+' {
                    aa + bb
                } else if op == '-' {
                    aa - bb
                } else {
                    aa * bb
                };
                if i64::MIN as i128 <= v && v <= i64::MAX as i128 {
                    Some(LitValue::Int(v as i64))
                } else {
                    None
                }
            } else {
                None
            }
        },
        _ => None,
    }
}

/// Computes [`eval_atom`].
fn eval_atom_x(toks: &Vec<Token>, p: usize, env: &Vec<(String, LitValue)>) -> (r: Option<
    (LitValue, usize),
>)
    requires
        p <= toks@.len(),
    ensures
        match r {
            Some((v, q)) => eval_atom(toks.deep_view(), p as nat, env_model(env@)) == Some(
                (lit_model(v), q as nat),
            ) && p < q <= toks@.len(),
            None => eval_atom(toks.deep_view(), p as nat, env_model(env@)) is None,
        },
    decreases toks@.len() - p, 0int,
{
    if p >= toks.len() {
        return None;
    }
    match &toks[p] {
        Token::StrLit(s) => Some((LitValue::Text(s.clone()), p + 1)),
        Token::IntLit(ds) => {
            match parse_int_token(ds.as_str()) {
                Ok(v) => Some((LitValue::Int(v), p + 1)),
                Err(e) => None,
            }
        },
        Token::FloatLit { int_digits, frac_digits } => {
            if check_all_digits(int_digits.as_str()) && check_all_digits(frac_digits.as_str()) {
                let f = FloatLit {
                    int_digits: canon_int_x(int_digits.as_str()),
                    frac_digits: canon_frac_x(frac_digits.as_str()),
                };
                Some((LitValue::Float(f), p + 1))
            } else {
                None
            }
        },
        Token::Ident(w) => {
            if str_eq(w.as_str(), "true") {
                Some((LitValue::Bool(true), p + 1))
            } else if str_eq(w.as_str(), "false") {
                Some((LitValue::Bool(false), p + 1))
            } else {
                match lookup_env_x(env, w) {
                    Some(v) => Some((v, p + 1)),
                    None => None,
                }
            }
        },
        Token::LBrace => {
            match eval_expr_x(toks, p + 1, env) {
                Some((v, q)) => {
                    if q < toks.len() && matches!(&toks[q], Token::RBrace) {
                        Some((v, q + 1))
                    } else {
                        None
                    }
                },
                None => None,
            }
        },
        Token::Punct(c) => {
            if *c == '(' {
                match eval_expr_x(toks, p + 1, env) {
                    Some((v, q)) => {
                        let is_close = q < toks.len() && matches!(&toks[q], Token::Punct(
                            d,
                        ) if *d == ')');
                        if is_close {
                            Some((v, q + 1))
                        } else {
                            None
                        }
                    },
                    None => None,
                }
            } else {
                None
            }
        },
        _ => None,
    }
}

/// Computes [`eval_postfix`].
fn eval_postfix_x(toks: &Vec<Token>, p: usize, v: LitValue) -> (r: Option<(LitValue, usize)>)
    requires
        p <= toks@.len(),
    ensures
        match r {
            Some((v2, q)) => eval_postfix(toks.deep_view(), p as nat, lit_model(v)) == Some(
                (lit_model(v2), q as nat),
            ) && p <= q <= toks@.len(),
            None => eval_postfix(toks.deep_view(), p as nat, lit_model(v)) is None,
        },
    decreases toks@.len() - p, 1int,
{
    let n = toks.len();
    let call = p < n && matches!(&toks[p], Token::Punct(c) if *c == '.') && p + 1 < n
        && crate::parser::is_to_string_kw(&toks[p + 1]) && p + 2 < n && matches!(
        &toks[p + 2],
        Token::Punct(c) if *c == '(',
    ) && p + 3 < n && matches!(&toks[p + 3], Token::Punct(c) if *c == ')');
    if call {
        let rendered = LitValue::Text(text_of_value_x(&v));
        eval_postfix_x(toks, p + 4, rendered)
    } else {
        Some((v, p))
    }
}

/// Computes [`eval_mul_rest`].
fn eval_mul_rest_x(
    toks: &Vec<Token>,
    p: usize,
    acc: LitValue,
    env: &Vec<(String, LitValue)>,
) -> (r: Option<(LitValue, usize)>)
    requires
        p <= toks@.len(),
    ensures
        match r {
            Some((v, q)) => eval_mul_rest(toks.deep_view(), p as nat, lit_model(acc), env_model(env@))
                == Some((lit_model(v), q as nat)) && p <= q <= toks@.len(),
            None => eval_mul_rest(toks.deep_view(), p as nat, lit_model(acc), env_model(env@)) is None,
        },
    decreases toks@.len() - p, 1int,
{
    let at_star = p < toks.len() && matches!(&toks[p], Token::Punct(c) if *c == '*');
    if at_star {
        match eval_atom_x(toks, p + 1, env) {
            Some((v, q)) => {
                match apply_op_x('*', &acc, &v) {
                    Some(acc2) => eval_mul_rest_x(toks, q, acc2, env),
                    None => None,
                }
            },
            None => None,
        }
    } else {
        Some((acc, p))
    }
}

/// Computes [`eval_mul`].
fn eval_mul_x(toks: &Vec<Token>, p: usize, env: &Vec<(String, LitValue)>) -> (r: Option<
    (LitValue, usize),
>)
    requires
        p <= toks@.len(),
    ensures
        match r {
            Some((v, q)) => eval_mul(toks.deep_view(), p as nat, env_model(env@)) == Some(
                (lit_model(v), q as nat),
            ) && p < q <= toks@.len(),
            None => eval_mul(toks.deep_view(), p as nat, env_model(env@)) is None,
        },
    decreases toks@.len() - p, 2int,
{
    match eval_atom_x(toks, p, env) {
        Some((v, q)) => {
            match eval_postfix_x(toks, q, v) {
                Some((v2, q2)) => eval_mul_rest_x(toks, q2, v2, env),
                None => None,
            }
        },
        None => None,
    }
}

/// Computes [`eval_add_rest`].
fn eval_add_rest_x(
    toks: &Vec<Token>,
    p: usize,
    acc: LitValue,
    env: &Vec<(String, LitValue)>,
) -> (r: Option<(LitValue, usize)>)
    requires
        p <= toks@.len(),
    ensures
        match r {
            Some((v, q)) => eval_add_rest(toks.deep_view(), p as nat, lit_model(acc), env_model(env@))
                == Some((lit_model(v), q as nat)) && p <= q <= toks@.len(),
            None => eval_add_rest(toks.deep_view(), p as nat, lit_model(acc), env_model(env@)) is None,
        },
    decreases toks@.len() - p, 3int,
{
    let at_plus = p < toks.len() && matches!(&toks[p], Token::Punct(c) if *c == '+');
    let at_minus = p < toks.len() && matches!(&toks[p], Token::Punct(c) if *c == '-');
    if at_plus || at_minus {
        let op: char = if at_plus {
            '+'
        } else {
            '-'
        };
        match eval_mul_x(toks, p + 1, env) {
            Some((v, q)) => {
                match apply_op_x(op, &acc, &v) {
                    Some(acc2) => eval_add_rest_x(toks, q, acc2, env),
                    None => None,
                }
            },
            None => None,
        }
    } else {
        Some((acc, p))
    }
}

/// Computes [`eval_add`].
fn eval_add_x(toks: &Vec<Token>, p: usize, env: &Vec<(String, LitValue)>) -> (r: Option<
    (LitValue, usize),
>)
    requires
        p <= toks@.len(),
    ensures
        match r {
            Some((v, q)) => eval_add(toks.deep_view(), p as nat, env_model(env@)) == Some(
                (lit_model(v), q as nat),
            ) && p < q <= toks@.len(),
            None => eval_add(toks.deep_view(), p as nat, env_model(env@)) is None,
        },
    decreases toks@.len() - p, 4int,
{
    match eval_mul_x(toks, p, env) {
        Some((v, q)) => eval_add_rest_x(toks, q, v, env),
        None => None,
    }
}

/// Decides model equality of two literal values.
fn lit_eq_x(a: &LitValue, b: &LitValue) -> (r: bool)
    ensures
        r == (lit_model(*a) == lit_model(*b)),
{
    match (a, b) {
        (LitValue::Text(x), LitValue::Text(y)) => str_eq(x.as_str(), y.as_str()),
        (LitValue::Float(x), LitValue::Float(y)) => str_eq(
            x.int_digits.as_str(),
            y.int_digits.as_str(),
        ) && str_eq(x.frac_digits.as_str(), y.frac_digits.as_str()),
        (LitValue::Int(x), LitValue::Int(y)) => *x == *y,
        (LitValue::Bool(x), LitValue::Bool(y)) => *x == *y,
        _ => false,
    }
}

/// What an optional selected value means.
pub open spec fn opt_lit_model(o: Option<LitValue>) -> Option<LitVal> {
    match o {
        Some(v) => Some(lit_model(v)),
        None => None,
    }
}

/// Computes [`pat_at`].
fn pat_at_x(t: &Token) -> (r: Option<Option<LitValue>>)
    ensures
        match r {
            Some(Some(v)) => pat_at(seq![t.deep_view()], 0) == Some(Some(lit_model(v))),
            Some(None) => pat_at(seq![t.deep_view()], 0) == Some(None::<LitVal>),
            None => pat_at(seq![t.deep_view()], 0) is None,
        },
{
    match t {
        Token::IntLit(ds) => {
            match parse_int_token(ds.as_str()) {
                Ok(v) => Some(Some(LitValue::Int(v))),
                Err(e) => None,
            }
        },
        Token::StrLit(s) => Some(Some(LitValue::Text(s.clone()))),
        Token::Ident(w) => {
            if str_eq(w.as_str(), "true") {
                Some(Some(LitValue::Bool(true)))
            } else if str_eq(w.as_str(), "false") {
                Some(Some(LitValue::Bool(false)))
            } else if str_eq(w.as_str(), "_") {
                Some(None)
            } else {
                None
            }
        },
        _ => None,
    }
}

/// Computes [`eval_arms`].
#[verifier::spinoff_prover]
fn eval_arms_x(
    toks: &Vec<Token>,
    p: usize,
    scrut: &LitValue,
    env: &Vec<(String, LitValue)>,
    sel: Option<LitValue>,
) -> (r: Option<(Option<LitValue>, usize)>)
    requires
        p <= toks@.len(),
    ensures
        match r {
            Some((sel2, q)) => eval_arms(
                toks.deep_view(),
                p as nat,
                lit_model(*scrut),
                env_model(env@),
                opt_lit_model(sel),
            ) == Some((opt_lit_model(sel2), q as nat)) && p < q <= toks@.len(),
            None => eval_arms(
                toks.deep_view(),
                p as nat,
                lit_model(*scrut),
                env_model(env@),
                opt_lit_model(sel),
            ) is None,
        },
    decreases toks@.len() - p, 5int,
{
    let n = toks.len();
    if p >= n {
        return None;
    }
    if matches!(&toks[p], Token::RBrace) {
        return Some((sel, p + 1));
    }
    let pat = match pat_at_x(&toks[p]) {
        None => {
            proof {
                assert(toks.deep_view()[p as int] == seq![toks@[p as int].deep_view()][0]);
            }
            return None;
        },
        Some(pat) => pat,
    };
    proof {
        assert(toks.deep_view()[p as int] == seq![toks@[p as int].deep_view()][0]);
    }
    let arrow = p + 1 < n && matches!(&toks[p + 1], Token::Punct(c) if *c == '=') && p + 2 < n
        && matches!(&toks[p + 2], Token::Punct(c) if *c == '>');
    if !arrow {
        return None;
    }
    match eval_expr_x(toks, p + 3, env) {
        Some((av, r1)) => {
            let matched = match &pat {
                None => true,
                Some(v) => lit_eq_x(v, scrut),
            };
            let sel2 = if matches!(&sel, Some(_)) {
                sel
            } else if matched {
                Some(av)
            } else {
                sel
            };
            let r2 = if r1 < n && matches!(&toks[r1], Token::Comma) {
                r1 + 1
            } else {
                r1
            };
            eval_arms_x(toks, r2, scrut, env, sel2)
        },
        None => None,
    }
}

/// Computes [`eval_match`].
#[verifier::spinoff_prover]
fn eval_match_x(toks: &Vec<Token>, p: usize, env: &Vec<(String, LitValue)>) -> (r: Option<
    (LitValue, usize),
>)
    requires
        p <= toks@.len(),
    ensures
        match r {
            Some((v, q)) => eval_match(toks.deep_view(), p as nat, env_model(env@)) == Some(
                (lit_model(v), q as nat),
            ) && p <= q <= toks@.len(),
            None => eval_match(toks.deep_view(), p as nat, env_model(env@)) is None,
        },
    decreases toks@.len() - p, 5int,
{
    let n = toks.len();
    if p >= n {
        return None;
    }
    match eval_add_x(toks, p + 1, env) {
        Some((sv, q)) => {
            if q < n && matches!(&toks[q], Token::LBrace) {
                match eval_arms_x(toks, q + 1, &sv, env, None) {
                    Some((sel, e)) => {
                        match sel {
                            Some(v) => Some((v, e)),
                            None => None,
                        }
                    },
                    None => None,
                }
            } else {
                None
            }
        },
        None => None,
    }
}

/// Computes [`eval_if`].
#[verifier::spinoff_prover]
fn eval_if_x(toks: &Vec<Token>, p: usize, env: &Vec<(String, LitValue)>) -> (r: Option<
    (LitValue, usize),
>)
    requires
        p <= toks@.len(),
    ensures
        match r {
            Some((v, q)) => eval_if(toks.deep_view(), p as nat, env_model(env@)) == Some(
                (lit_model(v), q as nat),
            ) && p <= q <= toks@.len(),
            None => eval_if(toks.deep_view(), p as nat, env_model(env@)) is None,
        },
    decreases toks@.len() - p, 5int,
{
    if p >= toks.len() {
        return None;
    }
    let n = toks.len();
    match eval_add_x(toks, p + 1, env) {
        Some((c, q)) => {
            if p < q && q < n && matches!(&toks[q], Token::LBrace) {
                match eval_expr_x(toks, q + 1, env) {
                    Some((tv, r2)) => {
                        if q < r2 && r2 < n && matches!(&toks[r2], Token::RBrace) && n - r2 > 2
                            && crate::parser::is_else_kw(&toks[r2 + 1]) {
                            let els: Option<(LitValue, usize)> = if crate::parser::is_if_kw(
                                &toks[r2 + 2],
                            ) {
                                eval_if_x(toks, r2 + 2, env)
                            } else if matches!(&toks[r2 + 2], Token::LBrace) {
                                match eval_expr_x(toks, r2 + 3, env) {
                                    Some((ev, s)) => {
                                        if r2 + 2 < s && s < n && matches!(&toks[s], Token::RBrace) {
                                            Some((ev, s + 1))
                                        } else {
                                            None
                                        }
                                    },
                                    None => None,
                                }
                            } else {
                                None
                            };
                            match els {
                                Some((ev, s)) => {
                                    match c {
                                        LitValue::Bool(b) => {
                                            if b {
                                                Some((tv, s))
                                            } else {
                                                Some((ev, s))
                                            }
                                        },
                                        _ => None,
                                    }
                                },
                                None => None,
                            }
                        } else {
                            None
                        }
                    },
                    None => None,
                }
            } else {
                None
            }
        },
        None => None,
    }
}

/// Computes [`eval_expr`].
fn eval_expr_x(toks: &Vec<Token>, p: usize, env: &Vec<(String, LitValue)>) -> (r: Option<
    (LitValue, usize),
>)
    requires
        p <= toks@.len(),
    ensures
        match r {
            Some((v, q)) => eval_expr(toks.deep_view(), p as nat, env_model(env@)) == Some(
                (lit_model(v), q as nat),
            ) && p <= q <= toks@.len(),
            None => eval_expr(toks.deep_view(), p as nat, env_model(env@)) is None,
        },
    decreases toks@.len() - p, 6int,
{
    let at_if = p < toks.len() && crate::parser::is_if_kw(&toks[p]);
    let at_match = p < toks.len() && crate::parser::is_match_kw(&toks[p]);
    if at_if {
        eval_if_x(toks, p, env)
    } else if at_match {
        eval_match_x(toks, p, env)
    } else {
        eval_add_x(toks, p, env)
    }
}

/// The decimal digit characters.
pub open spec fn digit_char_of(d: int) -> char {
    if d == 0 {
        '0'
    } else if d == 1 {
        '1'
    } else if d == 2 {
        '2'
    } else if d == 3 {
        '3'
    } else if d == 4 {
        '4'
    } else if d == 5 {
        '5'
    } else if d == 6 {
        '6'
    } else if d == 7 {
        '7'
    } else if d == 8 {
        '8'
    } else {
        '9'
    }
}

/// The decimal form of a natural number.
pub open spec fn u_dec(n: nat) -> Seq<char>
    decreases n,
{
    if n < 10 {
        seq![digit_char_of(n as int)]
    } else {
        u_dec(n / 10) + seq![digit_char_of((n % 10) as int)]
    }
}

/// The decimal form of an integer, with a leading minus sign when it is
/// negative.
pub open spec fn int_to_dec(i: int) -> Seq<char> {
    if i < 0 {
        seq!['-'] + u_dec((-i) as nat)
    } else {
        u_dec(i as nat)
    }
}

/// The textual form a value renders as when it stands as child content:
/// text as itself, numbers and booleans as their decimal or word form.
pub open spec fn text_of_value(v: LitVal) -> Seq<char> {
    match v {
        LitVal::Text(s) => s,
        LitVal::Int(i) => int_to_dec(i),
        LitVal::Bool(b) => {
            if b {
                "true"@
            } else {
                "false"@
            }
        },
        LitVal::Float(f) => {
            if f.frac_digits.len() == 0 {
                f.int_digits
            } else {
                f.int_digits + seq!['.'] + f.frac_digits
            }
        },
    }
}

/// What invoking an evaluator as a child yields: the computed value
/// rendered as static text, or nothing when the span is outside the
/// supported fragment.
pub open spec fn render_child(span: Seq<Tok>, env: Seq<(Seq<char>, LitVal)>) -> Option<
    NodeModel,
> {
    match eval_span(span, env) {
        Some(v) => Some(NodeModel::Literal(text_of_value(v))),
        None => None,
    }
}

/// One decimal digit as text.
fn digit_str(d: u64) -> (r: &'static str)
    requires
        d < 10,
    ensures
        r@ == seq![digit_char_of(d as int)],
{
    proof {
        reveal_strlit("0");
        reveal_strlit("1");
        reveal_strlit("2");
        reveal_strlit("3");
        reveal_strlit("4");
        reveal_strlit("5");
        reveal_strlit("6");
        reveal_strlit("7");
        reveal_strlit("8");
        reveal_strlit("9");
    }
    let r = if d == 0 {
        "0"
    } else if d == 1 {
        "1"
    } else if d == 2 {
        "2"
    } else if d == 3 {
        "3"
    } else if d == 4 {
        "4"
    } else if d == 5 {
        "5"
    } else if d == 6 {
        "6"
    } else if d == 7 {
        "7"
    } else if d == 8 {
        "8"
    } else {
        "9"
    };
    proof {
        assert(r@ =~= seq![digit_char_of(d as int)]);
    }
    r
}

/// The decimal form of an unsigned number.
pub fn u64_to_dec(n: u64) -> (s: String)
    ensures
        s@ == u_dec(n as nat),
    decreases n,
{
    if n < 10 {
        let s = digit_str(n).to_owned();
        proof {
            assert(s@ =~= u_dec(n as nat));
        }
        s
    } else {
        let mut s = u64_to_dec(n / 10);
        s.append(digit_str(n % 10));
        proof {
            assert(s@ =~= u_dec(n as nat));
        }
        s
    }
}

/// The decimal form of a signed number.
pub fn i64_to_dec(n: i64) -> (s: String)
    ensures
        s@ == int_to_dec(n as int),
{
    if n >= 0 {
        u64_to_dec(n as u64)
    } else {
        let m: u64 = ((-(n + 1)) as u64) + 1;
        proof {
            assert(m as nat == (-(n as int)) as nat);
            reveal_strlit("-");
        }
        let mut s = "-".to_owned();
        let d = u64_to_dec(m);
        s.append(d.as_str());
        proof {
            assert(s@ =~= int_to_dec(n as int));
        }
        s
    }
}

/// Renders a value as the text it shows as child content.
pub fn text_of_value_x(v: &LitValue) -> (s: String)
    ensures
        s@ == text_of_value(lit_model(*v)),
{
    match v {
        LitValue::Text(t) => t.clone(),
        LitValue::Int(i) => i64_to_dec(*i),
        LitValue::Bool(b) => {
            proof {
                reveal_strlit("true");
                reveal_strlit("false");
            }
            if *b {
                "true".to_owned()
            } else {
                "false".to_owned()
            }
        },
        LitValue::Float(f) => {
            if f.frac_digits.as_str().unicode_len() == 0 {
                let s = f.int_digits.clone();
                proof {
                    assert(s@ =~= text_of_value(lit_model(*v)));
                }
                s
            } else {
                proof {
                    reveal_strlit(".");
                }
                let mut s = f.int_digits.clone();
                s.append(".");
                s.append(f.frac_digits.as_str());
                proof {
                    assert(s@ =~= text_of_value(lit_model(*v)));
                }
                s
            }
        },
    }
}

impl Evaluator {
    /// Invokes the evaluator: computes the captured expression against
    /// the captured environment. It may be invoked any number of times;
    /// it mutates nothing, and yields nothing when the span is outside
    /// the supported fragment.
    pub fn invoke(&self) -> (r: Option<LitValue>)
        ensures
            match r {
                Some(v) => eval_span(self@.expr, self@.env) == Some(lit_model(v)),
                None => eval_span(self@.expr, self@.env) is None,
            },
    {
        let n = self.expr.len();
        match eval_expr_x(&self.expr, 0, &self.env) {
            Some((v, q)) => {
                if q == n {
                    Some(v)
                } else {
                    None
                }
            },
            None => None,
        }
    }

    /// Invokes the evaluator for an attribute position: the computed
    /// value is coerced into an attribute value.
    pub fn invoke_attr(&self) -> (r: Option<AttrValue>)
        ensures
            match r {
                Some(av) => eval_span(self@.expr, self@.env) matches Some(v) && attr_model(av)
                    == lit_as_attr(v),
                None => eval_span(self@.expr, self@.env) is None,
            },
    {
        match self.invoke() {
            Some(v) => Some(AttrValue::from_lit(v)),
            None => None,
        }
    }

    /// Invokes the evaluator for a child position: the computed value
    /// renders as static text content.
    pub fn invoke_node(&self) -> (r: Option<TemplateNode>)
        ensures
            match r {
                Some(n) => render_child(self@.expr, self@.env) == Some(node_model(n)),
                None => render_child(self@.expr, self@.env) is None,
            },
    {
        match self.invoke() {
            Some(v) => Some(TemplateNode::Literal(text_of_value_x(&v))),
            None => None,
        }
    }
}

} // verus!
