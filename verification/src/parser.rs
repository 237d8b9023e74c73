//! The structural parser: a deterministic, single-pass, lookahead-1
//! recursive descent over the token sequence, producing one optional AST
//! root and validating tag names against the registry the instant they
//! are read.
//!
//! The spec functions in this module are the grammar's mathematical
//! definition; the exec functions compute them.

use vstd::prelude::*;
use vstd::string::StrSliceExecFns;

use crate::ast::{
    attr_expr_model, kids_model, raw_attrs_model, AstModel, AstNode, AttrExpr, AttrExprModel,
};
use crate::errors::BuildError;
use crate::registry::{registry_contains, TagRegistry};
use crate::strutil::str_eq;
use crate::tokens::{digit_char, is_digit_char, Tok, Token};
use crate::tree::{FloatLit, FloatVal, LitVal, LitValue};

verus! {

/// Every character is a decimal digit.
pub open spec fn all_digits(ds: Seq<char>) -> bool {
    forall|k: int| 0 <= k < ds.len() ==> is_digit_char(#[trigger] ds[k])
}

/// The numeric value of a digit character.
pub open spec fn digit_val(c: char) -> int {
    c as int - '0' as int
}

/// The base-10 value of a digit string.
pub open spec fn digits_val(ds: Seq<char>) -> int
    decreases ds.len(),
{
    if ds.len() == 0 {
        0
    } else {
        digits_val(ds.drop_last()) * 10 + digit_val(ds.last())
    }
}

/// A digit string's value is not negative.
pub proof fn lemma_digits_val_nonneg(ds: Seq<char>)
    requires
        all_digits(ds),
    ensures
        digits_val(ds) >= 0,
    decreases ds.len(),
{
    if ds.len() > 0 {
        assert(all_digits(ds.drop_last()));
        lemma_digits_val_nonneg(ds.drop_last());
    }
}

/// A prefix never has a larger value than the whole digit string.
pub proof fn lemma_digits_val_prefix(ds: Seq<char>, m: int)
    requires
        all_digits(ds),
        0 <= m <= ds.len(),
    ensures
        digits_val(ds.take(m)) <= digits_val(ds),
    decreases ds.len(),
{
    if m < ds.len() {
        assert(all_digits(ds.drop_last()));
        assert(ds.take(m) =~= ds.drop_last().take(m));
        lemma_digits_val_prefix(ds.drop_last(), m);
        lemma_digits_val_nonneg(ds.drop_last());
    } else {
        assert(ds.take(m) =~= ds);
    }
}

/// Dropping leading zeros, but never the last remaining digit.
pub open spec fn canon_int_digits(ds: Seq<char>) -> Seq<char>
    decreases ds.len(),
{
    if ds.len() > 1 && ds[0] == '0' {
        canon_int_digits(ds.drop_first())
    } else {
        ds
    }
}

/// Dropping trailing zeros, possibly to nothing.
pub open spec fn canon_frac_digits(ds: Seq<char>) -> Seq<char>
    decreases ds.len(),
{
    if ds.len() > 0 && ds.last() == '0' {
        canon_frac_digits(ds.drop_last())
    } else {
        ds
    }
}

/// The first index at or after `p` holding `{`, or the length if none.
pub open spec fn first_lbrace(toks: Seq<Tok>, p: nat) -> nat
    decreases toks.len() - p,
    when p <= toks.len()
{
    if p < toks.len() {
        if toks[p as int] is LBrace {
            p
        } else {
            first_lbrace(toks, p + 1)
        }
    } else {
        p
    }
}

/// The scan for `{` moves forward and stays inside the sequence.
pub proof fn lemma_first_lbrace_bound(toks: Seq<Tok>, p: nat)
    requires
        p <= toks.len(),
    ensures
        p <= first_lbrace(toks, p) <= toks.len(),
    decreases toks.len() - p,
{
    if p < toks.len() && !(toks[p as int] is LBrace) {
        lemma_first_lbrace_bound(toks, p + 1);
    }
}

/// The index just past the brace group whose opening `{` stands at the
/// position this scan was started on (with `depth` 0), or `None` when the
/// braces never balance.
pub open spec fn group_end(toks: Seq<Tok>, p: nat, depth: nat) -> Option<nat>
    decreases toks.len() - p,
    when p <= toks.len()
{
    if p >= toks.len() {
        None
    } else if toks[p as int] is LBrace {
        group_end(toks, p + 1, depth + 1)
    } else if toks[p as int] is RBrace {
        if depth <= 1 {
            Some(p + 1)
        } else {
            group_end(toks, p + 1, (depth - 1) as nat)
        }
    } else {
        group_end(toks, p + 1, depth)
    }
}

/// A balanced group ends after where it starts and inside the sequence.
pub proof fn lemma_group_end_bound(toks: Seq<Tok>, p: nat, depth: nat)
    requires
        p <= toks.len(),
    ensures
        match group_end(toks, p, depth) {
            Some(q) => p < q <= toks.len(),
            None => true,
        },
    decreases toks.len() - p,
{
    if p < toks.len() {
        lemma_group_end_bound(toks, p + 1, depth + 1);
        lemma_group_end_bound(toks, p + 1, depth);
        if depth > 1 {
            lemma_group_end_bound(toks, p + 1, (depth - 1) as nat);
        }
    }
}

/// The index just past a conditional expression that starts with the `if`
/// at `p`: its first brace group, then any `else` / `else if` chain.
pub open spec fn if_end(toks: Seq<Tok>, p: nat) -> Option<nat>
    decreases toks.len() - p, 1nat,
    when p <= toks.len()
{
    let b = first_lbrace(toks, p);
    if b <= toks.len() {
        match group_end(toks, b, 0) {
            Some(g) => {
                if p < g <= toks.len() {
                    else_chain(toks, g)
                } else {
                    None
                }
            },
            None => None,
        }
    } else {
        None
    }
}

/// Continues an `if` expression after a brace group: nothing more, or
/// `else {..}`, or `else if ..`.
pub open spec fn else_chain(toks: Seq<Tok>, q: nat) -> Option<nat>
    decreases toks.len() - q, 0nat,
    when q <= toks.len()
{
    if q < toks.len() && toks[q as int] == Tok::Ident("else"@) {
        if q + 1 < toks.len() && toks[q + 1 as int] is LBrace {
            group_end(toks, q + 1, 0)
        } else if q + 1 < toks.len() && toks[q + 1 as int] == Tok::Ident("if"@) {
            if_end(toks, q + 1)
        } else {
            None
        }
    } else {
        Some(q)
    }
}

/// The index just past a `match` expression that starts at `p`: its head,
/// then its one brace group of arms.
pub open spec fn match_end(toks: Seq<Tok>, p: nat) -> Option<nat> {
    if p <= toks.len() {
        let b = first_lbrace(toks, p);
        if b <= toks.len() {
            group_end(toks, b, 0)
        } else {
            None
        }
    } else {
        None
    }
}

/// A conditional expression ends after where it starts and inside the
/// sequence.
pub proof fn lemma_if_end_bound(toks: Seq<Tok>, p: nat)
    requires
        p <= toks.len(),
    ensures
        match if_end(toks, p) {
            Some(q) => p < q <= toks.len(),
            None => true,
        },
    decreases toks.len() - p, 1nat,
{
    lemma_first_lbrace_bound(toks, p);
    let b = first_lbrace(toks, p);
    lemma_group_end_bound(toks, b, 0);
    match group_end(toks, b, 0) {
        Some(g) => {
            if p < g <= toks.len() {
                lemma_else_chain_bound(toks, g);
            }
        },
        None => {},
    }
}

/// An `else` chain ends at or after where it starts and inside the
/// sequence.
pub proof fn lemma_else_chain_bound(toks: Seq<Tok>, q: nat)
    requires
        q <= toks.len(),
    ensures
        match else_chain(toks, q) {
            Some(e) => q <= e <= toks.len(),
            None => true,
        },
    decreases toks.len() - q, 0nat,
{
    if q < toks.len() && toks[q as int] == Tok::Ident("else"@) {
        if q + 1 < toks.len() && toks[q + 1 as int] is LBrace {
            lemma_group_end_bound(toks, q + 1, 0);
        } else if q + 1 < toks.len() && toks[q + 1 as int] == Tok::Ident("if"@) {
            lemma_if_end_bound(toks, q + 1);
        }
    }
}

/// A `match` expression ends after where it starts and inside the
/// sequence.
pub proof fn lemma_match_end_bound(toks: Seq<Tok>, p: nat)
    requires
        p <= toks.len(),
    ensures
        match match_end(toks, p) {
            Some(q) => p < q <= toks.len(),
            None => true,
        },
{
    lemma_first_lbrace_bound(toks, p);
    let b = first_lbrace(toks, p);
    lemma_group_end_bound(toks, b, 0);
}

/// Classifies the right-hand side of one attribute assignment, starting
/// at `p`: a quoted string, an integer literal (base 10, failing on
/// 64-bit overflow), a float literal (normalized), a boolean literal, or
/// a deferred expression (brace-delimited, `if`, or `match`). Returns the
/// classified value and the position just past it.
pub open spec fn classify_value(toks: Seq<Tok>, p: nat) -> Result<(AttrExprModel, nat), BuildError>
    recommends
        p <= toks.len(),
{
    if p >= toks.len() {
        Err(BuildError::ExpectedAttributeValueError)
    } else {
        match toks[p as int] {
            Tok::StrLit(s) => Ok((AttrExprModel::Literal(LitVal::Text(s)), p + 1)),
            Tok::IntLit(ds) => {
                if !all_digits(ds) {
                    Err(BuildError::NumberFormatError)
                } else if digits_val(ds) > i64::MAX as int {
                    Err(BuildError::NumberFormatError)
                } else {
                    Ok((AttrExprModel::Literal(LitVal::Int(digits_val(ds))), p + 1))
                }
            },
            Tok::FloatLit { int_digits, frac_digits } => {
                if all_digits(int_digits) && all_digits(frac_digits) {
                    Ok(
                        (
                            AttrExprModel::Literal(
                                LitVal::Float(
                                    FloatVal {
                                        int_digits: canon_int_digits(int_digits),
                                        frac_digits: canon_frac_digits(frac_digits),
                                    },
                                ),
                            ),
                            p + 1,
                        ),
                    )
                } else {
                    Err(BuildError::NumberFormatError)
                }
            },
            Tok::Ident(w) => {
                if w == "true"@ {
                    Ok((AttrExprModel::Literal(LitVal::Bool(true)), p + 1))
                } else if w == "false"@ {
                    Ok((AttrExprModel::Literal(LitVal::Bool(false)), p + 1))
                } else if w == "if"@ {
                    match if_end(toks, p) {
                        Some(e) => {
                            if p < e <= toks.len() {
                                Ok((AttrExprModel::Dynamic(toks.subrange(p as int, e as int)), e))
                            } else {
                                Err(BuildError::SyntaxError)
                            }
                        },
                        None => Err(BuildError::SyntaxError),
                    }
                } else if w == "match"@ {
                    match match_end(toks, p) {
                        Some(e) => {
                            if p < e <= toks.len() {
                                Ok((AttrExprModel::Dynamic(toks.subrange(p as int, e as int)), e))
                            } else {
                                Err(BuildError::SyntaxError)
                            }
                        },
                        None => Err(BuildError::SyntaxError),
                    }
                } else {
                    Err(BuildError::ExpectedAttributeValueError)
                }
            },
            Tok::LBrace => {
                match group_end(toks, p, 0) {
                    Some(e) => {
                        if p + 1 <= e - 1 && e <= toks.len() {
                            Ok(
                                (
                                    AttrExprModel::Dynamic(toks.subrange(p + 1 as int, e - 1)),
                                    e,
                                ),
                            )
                        } else {
                            Err(BuildError::SyntaxError)
                        }
                    },
                    None => Err(BuildError::SyntaxError),
                }
            },
            _ => Err(BuildError::ExpectedAttributeValueError),
        }
    }
}

/// A classified value ends after where it starts and inside the sequence.
pub proof fn lemma_classify_value_bound(toks: Seq<Tok>, p: nat)
    requires
        p <= toks.len(),
    ensures
        match classify_value(toks, p) {
            Ok((av, q)) => p < q <= toks.len(),
            Err(e) => true,
        },
{
    if p < toks.len() {
        match toks[p as int] {
            Tok::Ident(w) => {
                lemma_if_end_bound(toks, p);
                lemma_match_end_bound(toks, p);
            },
            Tok::LBrace => {
                lemma_group_end_bound(toks, p, 0);
            },
            _ => {},
        }
    }
}

/// Parses one node starting at `p`: a quoted text literal, a
/// brace-delimited embedded expression, or `name { member* }` whose name
/// is tested against the registry the instant it is read. Returns the
/// node and the position just past it.
pub open spec fn parse_node(toks: Seq<Tok>, p: nat, reg: Seq<Seq<char>>) -> Result<
    (AstModel, nat),
    BuildError,
>
    decreases toks.len() - p, 0nat,
    when p <= toks.len()
{
    if p >= toks.len() {
        Err(BuildError::SyntaxError)
    } else {
        match toks[p as int] {
            Tok::StrLit(s) => Ok((AstModel::TextNode(s), p + 1)),
            Tok::LBrace => {
                match group_end(toks, p, 0) {
                    Some(e) => {
                        if p + 1 <= e - 1 && e <= toks.len() {
                            Ok((AstModel::ExpressionNode(toks.subrange(p + 1 as int, e - 1)), e))
                        } else {
                            Err(BuildError::SyntaxError)
                        }
                    },
                    None => Err(BuildError::SyntaxError),
                }
            },
            Tok::Ident(name) => {
                if !registry_contains(reg, name) {
                    Err(BuildError::UnknownTagError)
                } else if p + 1 < toks.len() && toks[p + 1 as int] is LBrace {
                    match parse_members(toks, p + 2, reg) {
                        Ok((attrs, children, q)) => Ok(
                            (AstModel::ElementNode { tag: name, attrs, children }, q),
                        ),
                        Err(e) => Err(e),
                    }
                } else {
                    Err(BuildError::SyntaxError)
                }
            },
            _ => Err(BuildError::SyntaxError),
        }
    }
}

/// Parses the members of an element body up to and past its closing
/// brace: `identifier ':' value [',']` is an attribute assignment,
/// anything else is a child, disambiguated by one token of lookahead.
/// Returns the attribute assignments in source order, the children in
/// source order, and the position just past the closing brace.
pub open spec fn parse_members(toks: Seq<Tok>, p: nat, reg: Seq<Seq<char>>) -> Result<
    (Seq<(Seq<char>, AttrExprModel)>, Seq<AstModel>, nat),
    BuildError,
>
    decreases toks.len() - p, 1nat,
    when p <= toks.len()
{
    if p >= toks.len() {
        Err(BuildError::SyntaxError)
    } else if toks[p as int] is RBrace {
        Ok((Seq::empty(), Seq::empty(), p + 1))
    } else if toks[p as int] is Ident && p + 1 < toks.len() && toks[p + 1 as int] is Colon {
        let name = toks[p as int]->Ident_0;
        match classify_value(toks, p + 2) {
            Err(e) => Err(e),
            Ok((av, q)) => {
                let q2: nat = if q < toks.len() && toks[q as int] is Comma {
                    q + 1
                } else {
                    q
                };
                if p < q2 <= toks.len() {
                    match parse_members(toks, q2, reg) {
                        Err(e) => Err(e),
                        Ok((attrs, children, r)) => Ok((seq![(name, av)] + attrs, children, r)),
                    }
                } else {
                    Err(BuildError::SyntaxError)
                }
            },
        }
    } else {
        match parse_node(toks, p, reg) {
            Err(e) => Err(e),
            Ok((child, q)) => {
                if p < q <= toks.len() {
                    match parse_members(toks, q, reg) {
                        Err(e) => Err(e),
                        Ok((attrs, children, r)) => Ok((attrs, seq![child] + children, r)),
                    }
                } else {
                    Err(BuildError::SyntaxError)
                }
            },
        }
    }
}

/// A parsed node ends after where it starts and inside the sequence; an
/// element body ends after where it starts.
pub proof fn lemma_parse_node_bound(toks: Seq<Tok>, p: nat, reg: Seq<Seq<char>>)
    requires
        p <= toks.len(),
    ensures
        match parse_node(toks, p, reg) {
            Ok((ast, q)) => p < q <= toks.len(),
            Err(e) => true,
        },
    decreases toks.len() - p, 0nat,
{
    if p < toks.len() {
        match toks[p as int] {
            Tok::LBrace => {
                lemma_group_end_bound(toks, p, 0);
            },
            Tok::Ident(name) => {
                if registry_contains(reg, name) && p + 1 < toks.len() && toks[p + 1 as int] is LBrace {
                    lemma_parse_members_bound(toks, (p + 2) as nat, reg);
                }
            },
            _ => {},
        }
    }
}

/// See [`lemma_parse_node_bound`].
pub proof fn lemma_parse_members_bound(toks: Seq<Tok>, p: nat, reg: Seq<Seq<char>>)
    requires
        p <= toks.len(),
    ensures
        match parse_members(toks, p, reg) {
            Ok((attrs, children, q)) => p < q <= toks.len(),
            Err(e) => true,
        },
    decreases toks.len() - p, 1nat,
{
    if p < toks.len() {
        if toks[p as int] is RBrace {
        } else if toks[p as int] is Ident && p + 1 < toks.len() && toks[p + 1 as int] is Colon {
            lemma_classify_value_bound(toks, (p + 2) as nat);
            match classify_value(toks, (p + 2) as nat) {
                Ok((av, q)) => {
                    let q2: nat = if q < toks.len() && toks[q as int] is Comma {
                        q + 1
                    } else {
                        q
                    };
                    lemma_parse_members_bound(toks, q2, reg);
                },
                Err(e) => {},
            }
        } else {
            lemma_parse_node_bound(toks, p, reg);
            match parse_node(toks, p, reg) {
                Ok((child, q)) => {
                    lemma_parse_members_bound(toks, q, reg);
                },
                Err(e) => {},
            }
        }
    }
}

/// Every element of a parsed tree carries a registered tag.
pub open spec fn ast_tags_valid(a: AstModel, reg: Seq<Seq<char>>) -> bool
    decreases a,
{
    match a {
        AstModel::ElementNode { tag, attrs, children } => {
            &&& registry_contains(reg, tag)
            &&& forall|i: int| 0 <= i < children.len() ==> ast_tags_valid(
                #[trigger] children[i],
                reg,
            )
        },
        AstModel::TextNode(s) => true,
        AstModel::ExpressionNode(span) => true,
    }
}

/// The parser rejects an unregistered name the instant it reads one: a
/// node it accepts carries registered tags throughout.
pub proof fn lemma_parse_node_tags_valid(toks: Seq<Tok>, p: nat, reg: Seq<Seq<char>>)
    requires
        p <= toks.len(),
    ensures
        match parse_node(toks, p, reg) {
            Ok((ast, q)) => ast_tags_valid(ast, reg),
            Err(e) => true,
        },
    decreases toks.len() - p, 0nat,
{
    if p < toks.len() {
        match toks[p as int] {
            Tok::Ident(name) => {
                if registry_contains(reg, name) && p + 1 < toks.len() && toks[p + 1 as int]
                    is LBrace {
                    lemma_parse_members_tags_valid(toks, (p + 2) as nat, reg);
                }
            },
            _ => {},
        }
    }
}

/// See [`lemma_parse_node_tags_valid`].
pub proof fn lemma_parse_members_tags_valid(toks: Seq<Tok>, p: nat, reg: Seq<Seq<char>>)
    requires
        p <= toks.len(),
    ensures
        match parse_members(toks, p, reg) {
            Ok((attrs, children, q)) => forall|i: int|
                0 <= i < children.len() ==> ast_tags_valid(#[trigger] children[i], reg),
            Err(e) => true,
        },
    decreases toks.len() - p, 1nat,
{
    if p < toks.len() {
        if toks[p as int] is RBrace {
        } else if toks[p as int] is Ident && p + 1 < toks.len() && toks[p + 1 as int] is Colon {
            lemma_classify_value_bound(toks, (p + 2) as nat);
            match classify_value(toks, (p + 2) as nat) {
                Ok((av, q)) => {
                    let q2: nat = if q < toks.len() && toks[q as int] is Comma {
                        q + 1
                    } else {
                        q
                    };
                    lemma_parse_members_tags_valid(toks, q2, reg);
                },
                Err(e) => {},
            }
        } else {
            lemma_parse_node_bound(toks, p, reg);
            lemma_parse_node_tags_valid(toks, p, reg);
            match parse_node(toks, p, reg) {
                Ok((child, q)) => {
                    lemma_parse_members_tags_valid(toks, q, reg);
                },
                Err(e) => {},
            }
        }
    }
}

/// Parses a whole template: one optional root node, with nothing allowed
/// to follow it.
pub open spec fn parse_template(toks: Seq<Tok>, reg: Seq<Seq<char>>) -> Result<
    Option<AstModel>,
    BuildError,
> {
    if toks.len() == 0 {
        Ok(None)
    } else {
        match parse_node(toks, 0, reg) {
            Err(e) => Err(e),
            Ok((ast, q)) => {
                if q == toks.len() {
                    Ok(Some(ast))
                } else {
                    Err(BuildError::SyntaxError)
                }
            },
        }
    }
}

/// Copies one token.
pub fn clone_token(t: &Token) -> (r: Token)
    ensures
        r.deep_view() == t.deep_view(),
{
    match t {
        Token::Ident(s) => Token::Ident(s.clone()),
        Token::StrLit(s) => Token::StrLit(s.clone()),
        Token::IntLit(s) => Token::IntLit(s.clone()),
        Token::FloatLit { int_digits, frac_digits } => Token::FloatLit {
            int_digits: int_digits.clone(),
            frac_digits: frac_digits.clone(),
        },
        Token::LBrace => Token::LBrace,
        Token::RBrace => Token::RBrace,
        Token::Colon => Token::Colon,
        Token::Comma => Token::Comma,
        Token::Punct(c) => Token::Punct(*c),
    }
}

/// Copies the tokens of positions `a` to `b`, `b` excluded.
pub fn copy_span(toks: &Vec<Token>, a: usize, b: usize) -> (r: Vec<Token>)
    requires
        a <= b <= toks@.len(),
    ensures
        r.deep_view() == toks.deep_view().subrange(a as int, b as int),
{
    let mut out: Vec<Token> = Vec::new();
    let mut j: usize = a;
    while j < b
        invariant
            a <= j <= b <= toks@.len(),
            out.deep_view() =~= toks.deep_view().subrange(a as int, j as int),
        decreases b - j,
    {
        let ghost pre = out.deep_view();
        out.push(clone_token(&toks[j]));
        proof {
            assert(out.deep_view() =~= pre.push(toks.deep_view()[j as int]));
            assert(out.deep_view() =~= toks.deep_view().subrange(a as int, j + 1 as int));
        }
        j = j + 1;
    }
    proof {
        assert(out.deep_view() =~= toks.deep_view().subrange(a as int, b as int));
    }
    out
}

/// Decides [`all_digits`].
pub fn check_all_digits(s: &str) -> (r: bool)
    ensures
        r == all_digits(s@),
{
    let n = s.unicode_len();
    let mut j: usize = 0;
    while j < n
        invariant
            n == s@.len(),
            j <= n,
            forall|k: int| 0 <= k < j ==> is_digit_char(#[trigger] s@[k]),
        decreases n - j,
    {
        if !digit_char(s.get_char(j)) {
            return false;
        }
        j = j + 1;
    }
    true
}

/// Parses an all-digit token as a base-10 64-bit signed integer, failing
/// on any other shape and on overflow.
pub fn parse_int_token(s: &str) -> (r: Result<i64, BuildError>)
    ensures
        match r {
            Ok(v) => all_digits(s@) && digits_val(s@) == v as int,
            Err(e) => e == BuildError::NumberFormatError && (!all_digits(s@) || digits_val(s@)
                > i64::MAX as int),
        },
{
    if !check_all_digits(s) {
        return Err(BuildError::NumberFormatError);
    }
    let n = s.unicode_len();
    let mut acc: u128 = 0;
    let mut j: usize = 0;
    while j < n
        invariant
            n == s@.len(),
            j <= n,
            all_digits(s@),
            acc <= i64::MAX as u128,
            acc as int == digits_val(s@.take(j as int)),
        decreases n - j,
    {
        let c = s.get_char(j);
        proof {
            assert(is_digit_char(s@[j as int]));
        }
        let d: u128 = (c as u32 - '0' as u32) as u128;
        let next: u128 = acc * 10 + d;
        proof {
            assert(s@.take(j + 1 as int).drop_last() =~= s@.take(j as int));
            assert(s@.take(j + 1 as int).last() == s@[j as int]);
            assert(digits_val(s@.take(j + 1 as int)) == digits_val(s@.take(j as int)) * 10
                + digit_val(s@[j as int]));
        }
        if next > i64::MAX as u128 {
            proof {
                lemma_digits_val_prefix(s@, j + 1 as int);
            }
            return Err(BuildError::NumberFormatError);
        }
        acc = next;
        j = j + 1;
    }
    proof {
        assert(s@.take(n as int) =~= s@);
    }
    Ok(acc as i64)
}

/// Drops leading zeros, but never the last remaining digit.
pub fn canon_int_x(s: &str) -> (r: String)
    ensures
        r@ == canon_int_digits(s@),
{
    let n = s.unicode_len();
    let mut j: usize = 0;
    proof {
        assert(s@.skip(0) =~= s@);
    }
    while n - j > 1 && s.get_char(j) == '0'
        invariant
            n == s@.len(),
            j <= n,
            canon_int_digits(s@) == canon_int_digits(s@.skip(j as int)),
        decreases n - j,
    {
        proof {
            assert(s@.skip(j as int).len() > 1);
            assert(s@.skip(j as int)[0] == '0');
            assert(s@.skip(j as int).drop_first() =~= s@.skip(j + 1 as int));
        }
        j = j + 1;
    }
    let r = s.substring_char(j, n).to_owned();
    proof {
        assert(s@.skip(j as int) =~= s@.subrange(j as int, n as int));
        assert(canon_int_digits(s@.skip(j as int)) == s@.skip(j as int));
    }
    r
}

/// Drops trailing zeros, possibly to nothing.
pub fn canon_frac_x(s: &str) -> (r: String)
    ensures
        r@ == canon_frac_digits(s@),
{
    let n = s.unicode_len();
    let mut k: usize = n;
    proof {
        assert(s@.take(n as int) =~= s@);
    }
    while k > 0 && s.get_char(k - 1) == '0'
        invariant
            n == s@.len(),
            k <= n,
            canon_frac_digits(s@) == canon_frac_digits(s@.take(k as int)),
        decreases k,
    {
        proof {
            assert(s@.take(k as int).len() > 0);
            assert(s@.take(k as int).last() == s@[k - 1 as int]);
            assert(s@.take(k as int).drop_last() =~= s@.take(k - 1 as int));
        }
        k = k - 1;
    }
    let r = s.substring_char(0, k).to_owned();
    proof {
        assert(s@.take(k as int) =~= s@.subrange(0, k as int));
        assert(canon_frac_digits(s@.take(k as int)) == s@.take(k as int));
    }
    r
}

/// Computes [`first_lbrace`].
pub fn first_lbrace_x(toks: &Vec<Token>, p: usize) -> (r: usize)
    requires
        p <= toks@.len(),
    ensures
        r == first_lbrace(toks.deep_view(), p as nat),
        p <= r <= toks@.len(),
    decreases toks@.len() - p,
{
    if p < toks.len() {
        if matches!(&toks[p], Token::LBrace) {
            p
        } else {
            first_lbrace_x(toks, p + 1)
        }
    } else {
        p
    }
}

/// Computes [`group_end`].
pub fn group_end_x(toks: &Vec<Token>, p: usize, depth: usize) -> (r: Option<usize>)
    requires
        p <= toks@.len(),
        depth <= p,
    ensures
        match r {
            Some(q) => group_end(toks.deep_view(), p as nat, depth as nat) == Some(q as nat) && p
                < q <= toks@.len(),
            None => group_end(toks.deep_view(), p as nat, depth as nat) is None,
        },
    decreases toks@.len() - p,
{
    if p >= toks.len() {
        return None;
    }
    match &toks[p] {
        Token::LBrace => group_end_x(toks, p + 1, depth + 1),
        Token::RBrace => {
            if depth <= 1 {
                Some(p + 1)
            } else {
                group_end_x(toks, p + 1, depth - 1)
            }
        },
        _ => group_end_x(toks, p + 1, depth),
    }
}

/// Computes [`if_end`].
pub fn if_end_x(toks: &Vec<Token>, p: usize) -> (r: Option<usize>)
    requires
        p <= toks@.len(),
    ensures
        match r {
            Some(q) => if_end(toks.deep_view(), p as nat) == Some(q as nat) && p < q
                <= toks@.len(),
            None => if_end(toks.deep_view(), p as nat) is None,
        },
    decreases toks@.len() - p, 1int,
{
    let b = first_lbrace_x(toks, p);
    match group_end_x(toks, b, 0) {
        Some(g) => {
            if p < g {
                else_chain_x(toks, g)
            } else {
                None
            }
        },
        None => None,
    }
}

/// Computes [`else_chain`].
pub fn else_chain_x(toks: &Vec<Token>, q: usize) -> (r: Option<usize>)
    requires
        q <= toks@.len(),
    ensures
        match r {
            Some(e) => else_chain(toks.deep_view(), q as nat) == Some(e as nat) && q <= e
                <= toks@.len(),
            None => else_chain(toks.deep_view(), q as nat) is None,
        },
    decreases toks@.len() - q, 0int,
{
    let n = toks.len();
    let at_else = q < n && is_kw(&toks[q], "else");
    if at_else {
        if q + 1 < n && matches!(&toks[q + 1], Token::LBrace) {
            group_end_x(toks, q + 1, 0)
        } else if q + 1 < n && is_kw(&toks[q + 1], "if") {
            if_end_x(toks, q + 1)
        } else {
            None
        }
    } else {
        Some(q)
    }
}

/// Computes [`match_end`].
pub fn match_end_x(toks: &Vec<Token>, p: usize) -> (r: Option<usize>)
    requires
        p <= toks@.len(),
    ensures
        match r {
            Some(q) => match_end(toks.deep_view(), p as nat) == Some(q as nat) && p < q
                <= toks@.len(),
            None => match_end(toks.deep_view(), p as nat) is None,
        },
{
    let b = first_lbrace_x(toks, p);
    group_end_x(toks, b, 0)
}

/// Whether a token is the `if` keyword.
pub fn is_if_kw(t: &Token) -> (r: bool)
    ensures
        r == (t.deep_view() == Tok::Ident("if"@)),
{
    is_kw(t, "if")
}

/// Whether a token is the `else` keyword.
pub fn is_else_kw(t: &Token) -> (r: bool)
    ensures
        r == (t.deep_view() == Tok::Ident("else"@)),
{
    is_kw(t, "else")
}

/// Whether a token is the `match` keyword.
pub fn is_match_kw(t: &Token) -> (r: bool)
    ensures
        r == (t.deep_view() == Tok::Ident("match"@)),
{
    is_kw(t, "match")
}

/// Whether a token is the `to_string` identifier.
pub fn is_to_string_kw(t: &Token) -> (r: bool)
    ensures
        r == (t.deep_view() == Tok::Ident("to_string"@)),
{
    is_kw(t, "to_string")
}

/// Whether a token is the given keyword identifier.
fn is_kw(t: &Token, w: &str) -> (r: bool)
    ensures
        r == (t.deep_view() == Tok::Ident(w@)),
{
    match t {
        Token::Ident(s) => str_eq(s.as_str(), w),
        _ => false,
    }
}

/// Computes [`classify_value`].
pub fn classify_value_x(toks: &Vec<Token>, p: usize) -> (r: Result<(AttrExpr, usize), BuildError>)
    requires
        p <= toks@.len(),
    ensures
        match r {
            Ok((av, q)) => classify_value(toks.deep_view(), p as nat) == Ok::<_, BuildError>(
                (attr_expr_model(av), q as nat),
            ) && p < q <= toks@.len(),
            Err(e) => classify_value(toks.deep_view(), p as nat) == Err::<
                (AttrExprModel, nat),
                _,
            >(e),
        },
{
    let n = toks.len();
    if p >= n {
        return Err(BuildError::ExpectedAttributeValueError);
    }
    match &toks[p] {
        Token::StrLit(s) => Ok((AttrExpr::Literal(LitValue::Text(s.clone())), p + 1)),
        Token::IntLit(ds) => {
            match parse_int_token(ds.as_str()) {
                Ok(v) => Ok((AttrExpr::Literal(LitValue::Int(v)), p + 1)),
                Err(e) => Err(e),
            }
        },
        Token::FloatLit { int_digits, frac_digits } => {
            if check_all_digits(int_digits.as_str()) && check_all_digits(frac_digits.as_str()) {
                let f = FloatLit {
                    int_digits: canon_int_x(int_digits.as_str()),
                    frac_digits: canon_frac_x(frac_digits.as_str()),
                };
                Ok((AttrExpr::Literal(LitValue::Float(f)), p + 1))
            } else {
                Err(BuildError::NumberFormatError)
            }
        },
        Token::Ident(w) => {
            if str_eq(w.as_str(), "true") {
                Ok((AttrExpr::Literal(LitValue::Bool(true)), p + 1))
            } else if str_eq(w.as_str(), "false") {
                Ok((AttrExpr::Literal(LitValue::Bool(false)), p + 1))
            } else if str_eq(w.as_str(), "if") {
                match if_end_x(toks, p) {
                    Some(e) => Ok((AttrExpr::Dynamic(copy_span(toks, p, e)), e)),
                    None => Err(BuildError::SyntaxError),
                }
            } else if str_eq(w.as_str(), "match") {
                match match_end_x(toks, p) {
                    Some(e) => Ok((AttrExpr::Dynamic(copy_span(toks, p, e)), e)),
                    None => Err(BuildError::SyntaxError),
                }
            } else {
                Err(BuildError::ExpectedAttributeValueError)
            }
        },
        Token::LBrace => {
            match group_end_x(toks, p, 0) {
                Some(e) => {
                    if p + 1 <= e - 1 {
                        Ok((AttrExpr::Dynamic(copy_span(toks, p + 1, e - 1)), e))
                    } else {
                        Err(BuildError::SyntaxError)
                    }
                },
                None => Err(BuildError::SyntaxError),
            }
        },
        _ => Err(BuildError::ExpectedAttributeValueError),
    }
}

/// Computes [`parse_node`].
pub fn parse_node_x(toks: &Vec<Token>, p: usize, reg: &TagRegistry) -> (r: Result<
    (AstNode, usize),
    BuildError,
>)
    requires
        p <= toks@.len(),
    ensures
        match r {
            Ok((ast, q)) => parse_node(toks.deep_view(), p as nat, reg.model()) == Ok::<
                _,
                BuildError,
            >((ast.model(), q as nat)) && p < q <= toks@.len(),
            Err(e) => parse_node(toks.deep_view(), p as nat, reg.model()) == Err::<
                (AstModel, nat),
                _,
            >(e),
        },
    decreases toks@.len() - p, 0int,
{
    let n = toks.len();
    if p >= n {
        return Err(BuildError::SyntaxError);
    }
    match &toks[p] {
        Token::StrLit(s) => Ok((AstNode::TextNode(s.clone()), p + 1)),
        Token::LBrace => {
            match group_end_x(toks, p, 0) {
                Some(e) => {
                    if p + 1 <= e - 1 {
                        Ok((AstNode::ExpressionNode(copy_span(toks, p + 1, e - 1)), e))
                    } else {
                        Err(BuildError::SyntaxError)
                    }
                },
                None => Err(BuildError::SyntaxError),
            }
        },
        Token::Ident(name) => {
            if !reg.contains(name.as_str()) {
                Err(BuildError::UnknownTagError)
            } else if p + 1 < n && matches!(&toks[p + 1], Token::LBrace) {
                match parse_members_x(toks, p + 2, reg) {
                    Ok((attrs, children, q)) => {
                        let ast = AstNode::ElementNode { tag: name.clone(), attrs, children };
                        proof {
                            assert(ast.model() matches AstModel::ElementNode {
                                tag,
                                attrs: am,
                                children: cm,
                            } && cm =~= kids_model(ast->ElementNode_children@));
                        }
                        Ok((ast, q))
                    },
                    Err(e) => Err(e),
                }
            } else {
                Err(BuildError::SyntaxError)
            }
        },
        _ => Err(BuildError::SyntaxError),
    }
}

/// Computes [`parse_members`].
pub fn parse_members_x(toks: &Vec<Token>, p: usize, reg: &TagRegistry) -> (r: Result<
    (Vec<(String, AttrExpr)>, Vec<AstNode>, usize),
    BuildError,
>)
    requires
        p <= toks@.len(),
    ensures
        match r {
            Ok((attrs, children, q)) => parse_members(toks.deep_view(), p as nat, reg.model())
                == Ok::<_, BuildError>(
                (raw_attrs_model(attrs@), kids_model(children@), q as nat),
            ) && p < q <= toks@.len(),
            Err(e) => parse_members(toks.deep_view(), p as nat, reg.model()) == Err::<
                (Seq<(Seq<char>, AttrExprModel)>, Seq<AstModel>, nat),
                _,
            >(e),
        },
    decreases toks@.len() - p, 1int,
{
    let n = toks.len();
    if p >= n {
        return Err(BuildError::SyntaxError);
    }
    if matches!(&toks[p], Token::RBrace) {
        let attrs: Vec<(String, AttrExpr)> = Vec::new();
        let children: Vec<AstNode> = Vec::new();
        proof {
            assert(raw_attrs_model(attrs@) =~= Seq::<(Seq<char>, AttrExprModel)>::empty());
            assert(kids_model(children@) =~= Seq::<AstModel>::empty());
        }
        return Ok((attrs, children, p + 1));
    }
    let attr_form = matches!(&toks[p], Token::Ident(_)) && p + 1 < n && matches!(
        &toks[p + 1],
        Token::Colon,
    );
    if attr_form {
        let name = ident_text(&toks[p]);
        match classify_value_x(toks, p + 2) {
            Err(e) => Err(e),
            Ok((av, q)) => {
                let q2 = if q < n && matches!(&toks[q], Token::Comma) {
                    q + 1
                } else {
                    q
                };
                match parse_members_x(toks, q2, reg) {
                    Err(e) => Err(e),
                    Ok((mut attrs, children, r2)) => {
                        let ghost pre = raw_attrs_model(attrs@);
                        let ghost avm = attr_expr_model(av);
                        attrs.insert(0, (name, av));
                        proof {
                            assert(raw_attrs_model(attrs@) =~= seq![
                                (name@, avm),
                            ] + pre);
                        }
                        Ok((attrs, children, r2))
                    },
                }
            },
        }
    } else {
        match parse_node_x(toks, p, reg) {
            Err(e) => Err(e),
            Ok((child, q)) => {
                match parse_members_x(toks, q, reg) {
                    Err(e) => Err(e),
                    Ok((attrs, mut children, r2)) => {
                        let ghost pre = kids_model(children@);
                        let ghost chm = child.model();
                        children.insert(0, child);
                        proof {
                            assert(kids_model(children@) =~= seq![chm] + pre);
                        }
                        Ok((attrs, children, r2))
                    },
                }
            },
        }
    }
}

/// The text of an identifier token.
fn ident_text(t: &Token) -> (r: String)
    requires
        t.deep_view() is Ident,
    ensures
        t.deep_view() == Tok::Ident(r@),
{
    match t {
        Token::Ident(s) => s.clone(),
        _ => unreached(),
    }
}

/// Computes [`parse_template`].
pub fn parse_template_x(toks: &Vec<Token>, reg: &TagRegistry) -> (r: Result<
    Option<AstNode>,
    BuildError,
>)
    ensures
        match r {
            Ok(Some(ast)) => parse_template(toks.deep_view(), reg.model()) == Ok::<_, BuildError>(
                Some(ast.model()),
            ),
            Ok(None) => parse_template(toks.deep_view(), reg.model()) == Ok::<_, BuildError>(
                None::<AstModel>,
            ),
            Err(e) => parse_template(toks.deep_view(), reg.model()) == Err::<
                Option<AstModel>,
                _,
            >(e),
        },
{
    if toks.len() == 0 {
        return Ok(None);
    }
    match parse_node_x(toks, 0, reg) {
        Err(e) => Err(e),
        Ok((ast, q)) => {
            if q == toks.len() {
                Ok(Some(ast))
            } else {
                Err(BuildError::SyntaxError)
            }
        },
    }
}

} // verus!
