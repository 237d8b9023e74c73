//! The lexer: template source text to a token sequence.
//!
//! [`lex_from`] is the mathematical definition; [`lex`] computes it. The
//! only lexical error is an unterminated string literal.

use vstd::prelude::*;
use vstd::string::StrSliceExecFns;

use crate::errors::BuildError;
use crate::tokens::{
    digit_char, ident_char, ident_start_char, is_digit_char, is_ident_char, is_ident_start_char,
    is_ws_char, ws_char, Tok, Token,
};

verus! {

/// How many consecutive identifier characters stand at `i`.
pub open spec fn ident_len(s: Seq<char>, i: nat) -> nat
    decreases s.len() - i,
    when i <= s.len()
{
    if i < s.len() && is_ident_char(s[i as int]) {
        1 + ident_len(s, i + 1)
    } else {
        0
    }
}

/// How many consecutive digits stand at `i`.
pub open spec fn digit_len(s: Seq<char>, i: nat) -> nat
    decreases s.len() - i,
    when i <= s.len()
{
    if i < s.len() && is_digit_char(s[i as int]) {
        1 + digit_len(s, i + 1)
    } else {
        0
    }
}

/// The first index at or after `i` holding a double quote, or `s.len()`
/// if there is none.
pub open spec fn str_end(s: Seq<char>, i: nat) -> nat
    decreases s.len() - i,
    when i <= s.len()
{
    if i < s.len() {
        if s[i as int] == '"' {
            i
        } else {
            str_end(s, i + 1)
        }
    } else {
        i
    }
}

/// Prepends a token to a token sequence that may have failed to lex.
pub open spec fn cons_tok(t: Tok, rest: Option<Seq<Tok>>) -> Option<Seq<Tok>> {
    match rest {
        Some(ts) => Some(seq![t] + ts),
        None => None,
    }
}

/// The tokens of `s` from position `i` on, or `None` on an unterminated
/// string literal.
///
/// Whitespace separates tokens and is dropped. An identifier is a letter
/// or underscore followed by identifier characters; a digit run is an
/// integer literal, or a float literal when a point and another digit run
/// follow at once; a double quote opens a string literal that runs to the
/// next double quote; every other character is one punctuation token.
pub open spec fn lex_from(s: Seq<char>, i: nat) -> Option<Seq<Tok>>
    decreases s.len() - i,
    when i <= s.len()
{
    if i >= s.len() {
        Some(Seq::empty())
    } else {
        let c = s[i as int];
        if is_ws_char(c) {
            lex_from(s, i + 1)
        } else if is_ident_start_char(c) {
            let j = i + ident_len(s, i);
            if i < j <= s.len() {
                cons_tok(Tok::Ident(s.subrange(i as int, j as int)), lex_from(s, j))
            } else {
                None
            }
        } else if is_digit_char(c) {
            let j = i + digit_len(s, i);
            if i < j <= s.len() {
                if j + 1 < s.len() && s[j as int] == '.' && is_digit_char(s[j + 1 as int]) {
                    let k = j + 1 + digit_len(s, j + 1);
                    if k <= s.len() {
                        cons_tok(
                            Tok::FloatLit {
                                int_digits: s.subrange(i as int, j as int),
                                frac_digits: s.subrange(j + 1 as int, k as int),
                            },
                            lex_from(s, k),
                        )
                    } else {
                        None
                    }
                } else {
                    cons_tok(Tok::IntLit(s.subrange(i as int, j as int)), lex_from(s, j))
                }
            } else {
                None
            }
        } else if c == '"' {
            let j = str_end(s, i + 1);
            if i + 1 <= j < s.len() {
                cons_tok(Tok::StrLit(s.subrange(i + 1 as int, j as int)), lex_from(s, j + 1))
            } else {
                None
            }
        } else {
            let t = if c == '{' {
                Tok::LBrace
            } else if c == '}' {
                Tok::RBrace
            } else if c == ':' {
                Tok::Colon
            } else if c == ',' {
                Tok::Comma
            } else {
                Tok::Punct(c)
            };
            cons_tok(t, lex_from(s, i + 1))
        }
    }
}

/// The tokens of the whole text.
pub open spec fn lex_spec(s: Seq<char>) -> Option<Seq<Tok>> {
    lex_from(s, 0)
}

/// Lexes the whole text. Fails only on an unterminated string literal.
pub fn lex(s: &str) -> (r: Result<Vec<Token>, BuildError>)
    ensures
        match r {
            Ok(toks) => lex_spec(s@) == Some(toks.deep_view()),
            Err(e) => lex_spec(s@) is None && e == BuildError::SyntaxError,
        },
{
    let n: usize = s.unicode_len();
    let mut out: Vec<Token> = Vec::new();
    let mut i: usize = 0;
    while i < n
        invariant
            n == s@.len(),
            i <= n,
            cons_all(out.deep_view(), lex_from(s@, i as nat)) == lex_spec(s@),
        decreases n - i,
    {
        let ghost pre = out.deep_view();
        let c = s.get_char(i);
        if ws_char(c) {
            i = i + 1;
        } else if ident_start_char(c) {
            let j = scan_ident(s, i, n);
            let tok = Token::Ident(s.substring_char(i, j).to_owned());
            proof {
                assert(lex_from(s@, i as nat) == cons_tok(tok.deep_view(), lex_from(s@, j as nat)));
                lemma_cons_all_snoc(pre, tok.deep_view(), lex_from(s@, j as nat));
            }
            out.push(tok);
            proof {
                assert(out.deep_view() =~= pre.push(Tok::Ident(s@.subrange(i as int, j as int))));
            }
            i = j;
        } else if digit_char(c) {
            let j = scan_digits(s, i, n);
            if j < n && s.get_char(j) == '.' && j + 1 < n && digit_char(s.get_char(j + 1)) {
                let k = scan_digits(s, j + 1, n);
                let tok = Token::FloatLit {
                    int_digits: s.substring_char(i, j).to_owned(),
                    frac_digits: s.substring_char(j + 1, k).to_owned(),
                };
                proof {
                    assert(lex_from(s@, i as nat) == cons_tok(
                        tok.deep_view(),
                        lex_from(s@, k as nat),
                    ));
                    lemma_cons_all_snoc(pre, tok.deep_view(), lex_from(s@, k as nat));
                }
                let ghost tkm = tok.deep_view();
                out.push(tok);
                proof {
                    assert(out.deep_view() =~= pre.push(tkm));
                }
                i = k;
            } else {
                let tok = Token::IntLit(s.substring_char(i, j).to_owned());
                proof {
                    assert(lex_from(s@, i as nat) == cons_tok(
                        tok.deep_view(),
                        lex_from(s@, j as nat),
                    ));
                    lemma_cons_all_snoc(pre, tok.deep_view(), lex_from(s@, j as nat));
                }
                let ghost tkm = tok.deep_view();
                out.push(tok);
                proof {
                    assert(out.deep_view() =~= pre.push(tkm));
                }
                i = j;
            }
        } else if c == '"' {
            let j = scan_to_quote(s, i + 1, n);
            if j >= n {
                proof {
                    assert(lex_from(s@, i as nat) is None);
                }
                return Err(BuildError::SyntaxError);
            }
            let tok = Token::StrLit(s.substring_char(i + 1, j).to_owned());
            proof {
                assert(lex_from(s@, i as nat) == cons_tok(
                    tok.deep_view(),
                    lex_from(s@, (j + 1) as nat),
                ));
                lemma_cons_all_snoc(pre, tok.deep_view(), lex_from(s@, (j + 1) as nat));
            }
            let ghost tkm = tok.deep_view();
            out.push(tok);
            proof {
                assert(out.deep_view() =~= pre.push(tkm));
            }
            i = j + 1;
        } else {
            let tok = if c == '{' {
                Token::LBrace
            } else if c == '}' {
                Token::RBrace
            } else if c == ':' {
                Token::Colon
            } else if c == ',' {
                Token::Comma
            } else {
                Token::Punct(c)
            };
            proof {
                assert(lex_from(s@, i as nat) == cons_tok(
                    tok.deep_view(),
                    lex_from(s@, (i + 1) as nat),
                ));
                lemma_cons_all_snoc(pre, tok.deep_view(), lex_from(s@, (i + 1) as nat));
            }
            let ghost tkm = tok.deep_view();
            out.push(tok);
            proof {
                assert(out.deep_view() =~= pre.push(tkm));
            }
            i = i + 1;
        }
    }
    proof {
        assert(lex_from(s@, i as nat) == Some(Seq::<Tok>::empty()));
        assert(out.deep_view() + Seq::<Tok>::empty() =~= out.deep_view());
    }
    Ok(out)
}

/// Prepends a whole token sequence to a token sequence that may have
/// failed to lex.
pub open spec fn cons_all(pre: Seq<Tok>, rest: Option<Seq<Tok>>) -> Option<Seq<Tok>> {
    match rest {
        Some(ts) => Some(pre + ts),
        None => None,
    }
}

/// Moving one token from the tail to the prefix keeps the whole the same.
proof fn lemma_cons_all_snoc(pre: Seq<Tok>, t: Tok, rest: Option<Seq<Tok>>)
    ensures
        cons_all(pre, cons_tok(t, rest)) == cons_all(pre.push(t), rest),
{
    match rest {
        Some(ts) => {
            assert(pre + (seq![t] + ts) =~= pre.push(t) + ts);
        },
        None => {},
    }
}

/// Scans an identifier run: returns `i + ident_len(s@, i)`.
fn scan_ident(s: &str, i: usize, n: usize) -> (j: usize)
    requires
        n == s@.len(),
        i <= n,
    ensures
        j == i + ident_len(s@, i as nat),
        i <= j <= n,
{
    let mut j: usize = i;
    while j < n && ident_char(s.get_char(j))
        invariant
            n == s@.len(),
            i <= j <= n,
            ident_len(s@, i as nat) == (j - i) + ident_len(s@, j as nat),
        decreases n - j,
    {
        j = j + 1;
    }
    j
}

/// Scans a digit run: returns `i + digit_len(s@, i)`.
fn scan_digits(s: &str, i: usize, n: usize) -> (j: usize)
    requires
        n == s@.len(),
        i <= n,
    ensures
        j == i + digit_len(s@, i as nat),
        i <= j <= n,
{
    let mut j: usize = i;
    while j < n && digit_char(s.get_char(j))
        invariant
            n == s@.len(),
            i <= j <= n,
            digit_len(s@, i as nat) == (j - i) + digit_len(s@, j as nat),
        decreases n - j,
    {
        j = j + 1;
    }
    j
}

/// Scans for a closing double quote: returns `str_end(s@, i)`.
fn scan_to_quote(s: &str, i: usize, n: usize) -> (j: usize)
    requires
        n == s@.len(),
        i <= n,
    ensures
        j == str_end(s@, i as nat),
        i <= j <= n,
{
    let mut j: usize = i;
    while j < n && s.get_char(j) != '"'
        invariant
            n == s@.len(),
            i <= j <= n,
            str_end(s@, i as nat) == str_end(s@, j as nat),
        decreases n - j,
    {
        j = j + 1;
    }
    j
}

} // verus!
