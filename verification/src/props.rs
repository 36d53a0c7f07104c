//! Laws of the pipeline, stated and proved over the specification
//! functions.

use crate::ast::{spec_bin, spec_lit, Node};
use crate::eval::{apply_op, eval_node, spec_eval};
use crate::num::spec_parse_float;
use crate::parse::{addsub_op, is_addsub, is_muldiv, is_space, muldiv_op, spec_atom, spec_expr,
    spec_expr_chain, spec_factor, spec_formula, spec_normalize, spec_paren_or_atom, spec_term,
    spec_term_chain, LPAREN, MINUS};
use vstd::prelude::*;

verus! {

/// An input without whitespace is already normalized.
pub proof fn lemma_normalize_nospace(s: Seq<u8>)
    requires
        forall|j: int| 0 <= j < s.len() ==> !is_space(s[j]),
    ensures
        spec_normalize(s) == s,
    decreases s.len(),
{
    if s.len() == 0 {
        assert(spec_normalize(s) =~= s);
    } else {
        lemma_normalize_nospace(s.drop_first());
        assert(seq![s[0]] + s.drop_first() =~= s);
    }
}

/// Normalization leaves no whitespace behind.
pub proof fn lemma_normalize_no_space_left(s: Seq<u8>)
    ensures
        forall|j: int| 0 <= j < spec_normalize(s).len() ==> !is_space(spec_normalize(s)[j]),
    decreases s.len(),
{
    if s.len() == 0 {
    } else {
        lemma_normalize_no_space_left(s.drop_first());
        let rest = spec_normalize(s.drop_first());
        if is_space(s[0]) {
            assert(spec_normalize(s) == rest);
            assert forall|j: int| 0 <= j < spec_normalize(s).len() implies !is_space(
                spec_normalize(s)[j],
            ) by {
                assert(spec_normalize(s)[j] == rest[j]);
            }
        } else {
            assert(spec_normalize(s) == seq![s[0]] + rest);
            assert forall|j: int| 0 <= j < spec_normalize(s).len() implies !is_space(
                spec_normalize(s)[j],
            ) by {
                if j == 0 {
                    assert(spec_normalize(s)[0] == s[0]);
                } else {
                    assert(spec_normalize(s)[j] == rest[j - 1]);
                }
            }
        }
    }
}

/// Normalization is idempotent: normalizing an already-normalized input is
/// a no-op.
pub proof fn lemma_normalize_idempotent(s: Seq<u8>)
    ensures
        spec_normalize(spec_normalize(s)) == spec_normalize(s),
{
    lemma_normalize_no_space_left(s);
    lemma_normalize_nospace(spec_normalize(s));
}

/// Whitespace anywhere in the input never changes the result: two inputs
/// that agree after normalization evaluate alike.
pub proof fn lemma_eval_ignores_whitespace(a: Seq<u8>, b: Seq<u8>)
    requires
        spec_normalize(a) == spec_normalize(b),
    ensures
        spec_eval(a) == spec_eval(b),
{
}

/// A single decimal literal evaluates to its own value: on an input that is
/// one whole literal (so it holds no whitespace, does not open with a
/// parenthesis, and does not open with the unary-minus form), the pipeline
/// returns exactly the literal's bits.
pub proof fn lemma_literal_evaluates_to_itself(s: Seq<u8>, b: u32)
    requires
        s.len() >= 1,
        forall|j: int| 0 <= j < s.len() ==> !is_space(s[j]),
        s[0] != LPAREN,
        !(s[0] == MINUS && 1 < s.len() && s[1] == LPAREN),
    ensures
        spec_parse_float(s) == Some((s.len() as int, b)) ==> spec_eval(s) == Some(b),
{
    if spec_parse_float(s) == Some((s.len() as int, b)) {
        lemma_normalize_nospace(s);
        let len = s.len() as int;
        assert(s.skip(0) =~= s);
        assert(spec_atom(s, 0) == Some((spec_lit(b), len)));
        assert(spec_paren_or_atom(s, 0) == Some((spec_lit(b), len)));
        assert(spec_factor(s, 0) == Some((spec_lit(b), len)));
        assert(spec_term_chain(s, len, spec_lit(b)) == Some((spec_lit(b), len)));
        assert(spec_term(s, 0) == Some((spec_lit(b), len)));
        assert(spec_expr_chain(s, len, spec_lit(b)) == Some((spec_lit(b), len)));
        assert(spec_expr(s, 0) == Some((spec_lit(b), len)));
        assert(spec_formula(s) == Some(spec_lit(b)));
        assert(eval_node(spec_lit(b)) == b);
    }
}

/// An input that is blank once normalized — empty, or whitespace alone —
/// always yields an absent result, never a default value.
pub proof fn lemma_blank_input_yields_nothing(s: Seq<u8>)
    requires
        spec_normalize(s).len() == 0,
    ensures
        spec_eval(s) == None::<u32>,
{
    let n = spec_normalize(s);
    assert(n.skip(0) =~= n);
    assert(spec_atom(n, 0) is None);
    assert(spec_paren_or_atom(n, 0) is None);
    assert(spec_factor(n, 0) is None);
    assert(spec_term(n, 0) is None);
    assert(spec_expr(n, 0) is None);
    assert(spec_formula(n) is None);
}

/// The fold at the expression level is left-associative: whatever tree the
/// rest of an expression builds on top of `acc`, either nothing follows and
/// the tree is `acc` itself, or the root of the tree is the last operator
/// of the chain and its right operand is the final term alone.
pub proof fn lemma_expr_chain_left_associative(s: Seq<u8>, pos: int, acc: Node)
    ensures
        match spec_expr_chain(s, pos, acc) {
            Some((a, p)) => (a == acc && p == pos) || (exists|q: int, l: Node, t: Node|
                #![trigger spec_bin(addsub_op(s[q]), l, t)]
                pos <= q < p && is_addsub(s[q]) && spec_term(s, q + 1) == Some((t, p)) && a
                    == spec_bin(addsub_op(s[q]), l, t)),
            None => true,
        },
    decreases s.len() - pos,
{
    if 0 <= pos && pos < s.len() && is_addsub(s[pos]) {
        match spec_term(s, pos + 1) {
            Some((t1, p1)) => {
                if pos + 1 < p1 && p1 <= s.len() {
                    let acc1 = spec_bin(addsub_op(s[pos]), acc, t1);
                    lemma_expr_chain_left_associative(s, p1, acc1);
                    match spec_expr_chain(s, p1, acc1) {
                        Some((a, p)) => {
                            if a == acc1 && p == p1 {
                                assert(pos <= pos < p && is_addsub(s[pos]) && spec_term(s, pos + 1)
                                    == Some((t1, p)) && a == spec_bin(addsub_op(s[pos]), acc, t1));
                            } else {
                                let (q, l, t) = choose|q: int, l: Node, t: Node|
                                    #![trigger spec_bin(addsub_op(s[q]), l, t)]
                                    p1 <= q < p && is_addsub(s[q]) && spec_term(s, q + 1) == Some(
                                        (t, p),
                                    ) && a == spec_bin(addsub_op(s[q]), l, t);
                                assert(pos <= q < p && is_addsub(s[q]) && spec_term(s, q + 1)
                                    == Some((t, p)) && a == spec_bin(addsub_op(s[q]), l, t));
                            }
                        },
                        None => {},
                    }
                }
            },
            None => {},
        }
    }
}

/// The fold at the term level is left-associative in the same way: either a
/// term is its first factor alone, or its root is the last `*` or `/` of
/// the chain with the final factor alone as its right operand.
pub proof fn lemma_term_chain_left_associative(s: Seq<u8>, pos: int, acc: Node)
    ensures
        match spec_term_chain(s, pos, acc) {
            Some((a, p)) => (a == acc && p == pos) || (exists|q: int, l: Node, f: Node|
                #![trigger spec_bin(muldiv_op(s[q]), l, f)]
                pos <= q < p && is_muldiv(s[q]) && spec_factor(s, q + 1) == Some((f, p)) && a
                    == spec_bin(muldiv_op(s[q]), l, f)),
            None => true,
        },
    decreases s.len() - pos,
{
    if 0 <= pos && pos < s.len() && is_muldiv(s[pos]) {
        match spec_factor(s, pos + 1) {
            Some((f1, p1)) => {
                if pos + 1 < p1 && p1 <= s.len() {
                    let acc1 = spec_bin(muldiv_op(s[pos]), acc, f1);
                    lemma_term_chain_left_associative(s, p1, acc1);
                    match spec_term_chain(s, p1, acc1) {
                        Some((a, p)) => {
                            if a == acc1 && p == p1 {
                                assert(pos <= pos < p && is_muldiv(s[pos]) && spec_factor(
                                    s,
                                    pos + 1,
                                ) == Some((f1, p)) && a == spec_bin(muldiv_op(s[pos]), acc, f1));
                            } else {
                                let (q, l, f) = choose|q: int, l: Node, f: Node|
                                    #![trigger spec_bin(muldiv_op(s[q]), l, f)]
                                    p1 <= q < p && is_muldiv(s[q]) && spec_factor(s, q + 1) == Some(
                                        (f, p),
                                    ) && a == spec_bin(muldiv_op(s[q]), l, f);
                                assert(pos <= q < p && is_muldiv(s[q]) && spec_factor(s, q + 1)
                                    == Some((f, p)) && a == spec_bin(muldiv_op(s[q]), l, f));
                            }
                        },
                        None => {},
                    }
                }
            },
            None => {},
        }
    }
}

/// Precedence and left-associativity at the term level: a parsed term is
/// either its first factor alone, or a tree whose root is the last `*` or
/// `/` of the chain and whose right operand is the final factor alone
/// (never a term, and never anything with `+` or `-` at its top), so
/// `a/b/c` groups as `(a/b)/c` and `*`/`/` never capture a following sum.
pub proof fn lemma_term_left_associative(s: Seq<u8>, pos: int)
    ensures
        match spec_term(s, pos) {
            Some((a, p)) => spec_factor(s, pos) == Some((a, p)) || (exists|
                q: int,
                l: Node,
                f: Node,
            |
                #![trigger spec_bin(muldiv_op(s[q]), l, f)]
                pos <= q < p && is_muldiv(s[q]) && spec_factor(s, q + 1) == Some((f, p)) && a
                    == spec_bin(muldiv_op(s[q]), l, f)),
            None => true,
        },
{
    match spec_factor(s, pos) {
        Some((f0, p0)) => {
            if pos < p0 && p0 <= s.len() {
                lemma_term_chain_left_associative(s, p0, f0);
            }
        },
        None => {},
    }
}

/// Left-associativity and precedence at the top of a parsed input: either
/// the whole input is one term, or the root of the tree is the *last*
/// expression-level operator and its right operand is the final term alone
/// (never an expression), so `a-b-c` groups as `(a-b)-c` for chains of any
/// length, and `*`/`/` bind tighter than `+`/`-`.
pub proof fn lemma_formula_left_associative(s: Seq<u8>)
    ensures
        match spec_formula(s) {
            Some(a) => spec_term(s, 0) == Some((a, s.len() as int)) || (exists|
                q: int,
                l: Node,
                t: Node,
            |
                #![trigger spec_bin(addsub_op(s[q]), l, t)]
                0 <= q < s.len() && is_addsub(s[q]) && spec_term(s, q + 1) == Some(
                    (t, s.len() as int),
                ) && a == spec_bin(addsub_op(s[q]), l, t)),
            None => true,
        },
{
    match spec_expr(s, 0) {
        Some((a, p)) => {
            if p == s.len() {
                match spec_term(s, 0) {
                    Some((t0, p0)) => {
                        if 0 < p0 && p0 <= s.len() {
                            lemma_expr_chain_left_associative(s, p0, t0);
                        }
                    },
                    None => {},
                }
            }
        },
        None => {},
    }
}

/// Chained terms evaluate left to right: when a whole input parses as two
/// or more terms joined by `+` or `-`, its value is the value of everything
/// before the last operator, combined by that operator with the value of
/// the final term alone — `((-3+10)-5)-100`, never `-3+(10-(5-100))`.
pub proof fn lemma_chain_evaluates_left_to_right(s: Seq<u8>, a: Node)
    requires
        spec_formula(s) == Some(a),
        spec_term(s, 0) != Some((a, s.len() as int)),
    ensures
        exists|q: int, l: Node, t: Node|
            #![trigger spec_bin(addsub_op(s[q]), l, t)]
            0 <= q < s.len() && is_addsub(s[q]) && spec_term(s, q + 1) == Some(
                (t, s.len() as int),
            ) && a == spec_bin(addsub_op(s[q]), l, t) && eval_node(a) == apply_op(
                addsub_op(s[q]),
                eval_node(l),
                eval_node(t),
            ),
{
    lemma_formula_left_associative(s);
    let (q, l, t) = choose|q: int, l: Node, t: Node|
        #![trigger spec_bin(addsub_op(s[q]), l, t)]
        0 <= q < s.len() && is_addsub(s[q]) && spec_term(s, q + 1) == Some((t, s.len() as int))
            && a == spec_bin(addsub_op(s[q]), l, t);
    assert(eval_node(spec_bin(addsub_op(s[q]), l, t)) == apply_op(
        addsub_op(s[q]),
        eval_node(l),
        eval_node(t),
    ));
    assert(0 <= q < s.len() && is_addsub(s[q]) && spec_term(s, q + 1) == Some((t, s.len() as int))
        && a == spec_bin(addsub_op(s[q]), l, t) && eval_node(a) == apply_op(
        addsub_op(s[q]),
        eval_node(l),
        eval_node(t),
    ));
}

} // verus!

