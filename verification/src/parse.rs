//! Normalization and the recursive-descent grammar parser.
//!
//! The grammar, left-associative at each level:
//! ```text
//! expression := term { ('+' | '-') term }
//! term       := factor { ('*' | '/') factor }
//! factor     := '-' '(' expression ')' | '(' expression ')' | atom
//! atom       := decimal literal
//! ```
//! The unary-minus form is sugar: `-(e)` parses as `(-1) * e`. A minus
//! directly before a number is not an operator: the decimal-literal grammar
//! permits a leading sign, so `-3.0` is one atom. Operator chains fold from
//! the left, so `a-b-c` is `(a-b)-c` for chains of any length, and `*`/`/`
//! bind tighter than `+`/`-`.

use crate::ast::{bin_node, lit_node, spec_bin, spec_lit, wf, Node, Op};
use crate::num::{parse_float_prefix, spec_parse_float};
use vstd::prelude::*;
use vstd::slice::slice_subrange;

verus! {

/// The bit pattern of the single-precision value negative one, the left
/// operand that the unary-minus sugar multiplies by.
pub const NEG_ONE_BITS: u32 = 0xBF80_0000;

/// The byte `(`.
pub const LPAREN: u8 = 40;

/// The byte `)`.
pub const RPAREN: u8 = 41;

/// The byte `*`.
pub const STAR: u8 = 42;

/// The byte `+`.
pub const PLUS: u8 = 43;

/// The byte `-`.
pub const MINUS: u8 = 45;

/// The byte `/`.
pub const SLASH: u8 = 47;

/// The whitespace bytes that normalization removes: tab, line feed,
/// vertical tab, form feed, carriage return and space.
pub open spec fn is_space(b: u8) -> bool {
    b == 9 || b == 10 || b == 11 || b == 12 || b == 13 || b == 32
}

/// The input with every whitespace byte removed, order otherwise kept.
pub open spec fn spec_normalize(s: Seq<u8>) -> Seq<u8>
    decreases s.len(),
{
    if s.len() == 0 {
        Seq::empty()
    } else if is_space(s[0]) {
        spec_normalize(s.drop_first())
    } else {
        seq![s[0]] + spec_normalize(s.drop_first())
    }
}

/// Tests a byte for whitespace.
fn space_byte(b: u8) -> (r: bool)
    ensures
        r == is_space(b),
{
    b == 9 || b == 10 || b == 11 || b == 12 || b == 13 || b == 32
}

/// Removes every whitespace byte from the input, keeping the rest in order.
pub fn normalize(input: &[u8]) -> (r: Vec<u8>)
    ensures
        r@ == spec_normalize(input@),
{
    let mut r: Vec<u8> = Vec::new();
    let mut i: usize = 0;
    proof {
        assert(input@.skip(0) =~= input@);
        assert(r@ + spec_normalize(input@) =~= spec_normalize(input@));
    }
    while i < input.len()
        invariant
            i <= input@.len(),
            spec_normalize(input@) == r@ + spec_normalize(input@.skip(i as int)),
        decreases input@.len() - i,
    {
        let b = input[i];
        proof {
            let rest = input@.skip(i as int);
            assert(rest.len() > 0);
            assert(rest[0] == input@[i as int]);
            assert(rest.drop_first() =~= input@.skip(i as int + 1));
        }
        if space_byte(b) {
            proof {
                assert(r@ + spec_normalize(input@.skip(i as int))
                    == r@ + spec_normalize(input@.skip(i as int + 1)));
            }
        } else {
            let ghost r_old = r@;
            r.push(b);
            proof {
                assert(r@ =~= r_old + seq![b]);
                assert(r_old + (seq![b] + spec_normalize(input@.skip(i as int + 1)))
                    =~= (r_old + seq![b]) + spec_normalize(input@.skip(i as int + 1)));
            }
        }
        i = i + 1;
    }
    proof {
        assert(input@.skip(input@.len() as int) =~= Seq::<u8>::empty());
        assert(r@ + Seq::<u8>::empty() =~= r@);
    }
    r
}

/// True of the two operator bytes of the expression level.
pub open spec fn is_addsub(b: u8) -> bool {
    b == PLUS || b == MINUS
}

/// True of the two operator bytes of the term level.
pub open spec fn is_muldiv(b: u8) -> bool {
    b == STAR || b == SLASH
}

/// The operator an expression-level byte stands for.
pub open spec fn addsub_op(b: u8) -> Op {
    if b == PLUS {
        Op::Add
    } else {
        Op::Sub
    }
}

/// The operator a term-level byte stands for.
pub open spec fn muldiv_op(b: u8) -> Op {
    if b == STAR {
        Op::Mul
    } else {
        Op::Div
    }
}

/// What the atom level yields at `pos`: a literal node and the position
/// just past it, if a decimal literal starts there. A literal occupies at
/// least one byte and never more than the input holds.
pub open spec fn spec_atom(s: Seq<u8>, pos: int) -> Option<(Node, int)> {
    match spec_parse_float(s.skip(pos)) {
        Some((n, b)) => if 1 <= n && pos + n <= s.len() {
            Some((spec_lit(b), pos + n))
        } else {
            None
        },
        None => None,
    }
}

/// A parenthesized expression at `pos`, or else an atom. Mirrors the parse
/// order of the factor level: the parenthesized form is tried first and any
/// failure in it falls back to the atom.
pub open spec fn spec_paren_or_atom(s: Seq<u8>, pos: int) -> Option<(Node, int)>
    decreases s.len() - pos, 0int,
{
    if 0 <= pos && pos < s.len() && s[pos] == LPAREN {
        match spec_expr(s, pos + 1) {
            Some((e, p)) => if p < s.len() && s[p] == RPAREN {
                Some((e, p + 1))
            } else {
                spec_atom(s, pos)
            },
            None => spec_atom(s, pos),
        }
    } else {
        spec_atom(s, pos)
    }
}

/// What the factor level yields at `pos`: the unary-minus form
/// `-( expression )` desugared to a multiplication by negative one, tried
/// first; on any failure, a parenthesized expression or an atom.
pub open spec fn spec_factor(s: Seq<u8>, pos: int) -> Option<(Node, int)>
    decreases s.len() - pos, 1int,
{
    if 0 <= pos && pos + 1 < s.len() && s[pos] == MINUS && s[pos + 1] == LPAREN {
        match spec_expr(s, pos + 2) {
            Some((e, p)) => if p < s.len() && s[p] == RPAREN {
                Some((spec_bin(Op::Mul, spec_lit(NEG_ONE_BITS), e), p + 1))
            } else {
                spec_paren_or_atom(s, pos)
            },
            None => spec_paren_or_atom(s, pos),
        }
    } else {
        spec_paren_or_atom(s, pos)
    }
}

/// The rest of a term after its first factor: while an operator byte of the
/// term level follows, the next factor is folded onto the accumulator from
/// the left. Every factor consumes at least one byte, so the guarded arms
/// asking otherwise are never taken.
pub open spec fn spec_term_chain(s: Seq<u8>, pos: int, acc: Node) -> Option<(Node, int)>
    decreases s.len() - pos, 0int,
{
    if 0 <= pos && pos < s.len() && is_muldiv(s[pos]) {
        match spec_factor(s, pos + 1) {
            Some((f, p)) => if pos + 1 < p && p <= s.len() {
                spec_term_chain(s, p, spec_bin(muldiv_op(s[pos]), acc, f))
            } else {
                None
            },
            None => None,
        }
    } else {
        Some((acc, pos))
    }
}

/// What the term level yields at `pos`: a factor, then a left-associative
/// fold over `*` and `/`.
pub open spec fn spec_term(s: Seq<u8>, pos: int) -> Option<(Node, int)>
    decreases s.len() - pos, 2int,
{
    match spec_factor(s, pos) {
        Some((f, p)) => if pos < p && p <= s.len() {
            spec_term_chain(s, p, f)
        } else {
            None
        },
        None => None,
    }
}

/// The rest of an expression after its first term: while an operator byte
/// of the expression level follows, the next term is folded onto the
/// accumulator from the left.
pub open spec fn spec_expr_chain(s: Seq<u8>, pos: int, acc: Node) -> Option<(Node, int)>
    decreases s.len() - pos, 0int,
{
    if 0 <= pos && pos < s.len() && is_addsub(s[pos]) {
        match spec_term(s, pos + 1) {
            Some((t, p)) => if pos + 1 < p && p <= s.len() {
                spec_expr_chain(s, p, spec_bin(addsub_op(s[pos]), acc, t))
            } else {
                None
            },
            None => None,
        }
    } else {
        Some((acc, pos))
    }
}

/// What the expression level yields at `pos`: a term, then a
/// left-associative fold over `+` and `-`.
pub open spec fn spec_expr(s: Seq<u8>, pos: int) -> Option<(Node, int)>
    decreases s.len() - pos, 3int,
{
    match spec_term(s, pos) {
        Some((t, p)) => if pos < p && p <= s.len() {
            spec_expr_chain(s, p, t)
        } else {
            None
        },
        None => None,
    }
}

/// What the whole input yields: the tree of one expression that consumes
/// every byte, or nothing at all.
pub open spec fn spec_formula(s: Seq<u8>) -> Option<Node> {
    match spec_expr(s, 0) {
        Some((n, p)) => if p == s.len() {
            Some(n)
        } else {
            None
        },
        None => None,
    }
}

/// Parses one decimal literal at `pos` into a literal node.
pub fn atom(i: &[u8], pos: usize) -> (r: Option<(Node, usize)>)
    requires
        pos <= i@.len(),
    ensures
        match r {
            Some((n, p)) => spec_atom(i@, pos as int) == Some((n, p as int)) && pos < p <= i@.len()
                && wf(n),
            None => spec_atom(i@, pos as int) is None,
        },
{
    let ilen = i.len();
    let rest = slice_subrange(i, pos, ilen);
    proof {
        assert(i@.subrange(pos as int, i@.len() as int) =~= i@.skip(pos as int));
    }
    match parse_float_prefix(rest) {
        Some((rem, b)) => {
            let used = rest.len() - rem;
            Some((lit_node(b), pos + used))
        },
        None => None,
    }
}

/// Parses a parenthesized expression at `pos`, falling back to an atom.
fn paren_or_atom(i: &[u8], pos: usize) -> (r: Option<(Node, usize)>)
    requires
        pos <= i@.len(),
    ensures
        match r {
            Some((n, p)) => spec_paren_or_atom(i@, pos as int) == Some((n, p as int))
                && pos < p <= i@.len() && wf(n),
            None => spec_paren_or_atom(i@, pos as int) is None,
        },
    decreases i@.len() - pos, 0int,
{
    if pos < i.len() && i[pos] == LPAREN {
        match expr(i, pos + 1) {
            Some((e, p)) => {
                if p < i.len() && i[p] == RPAREN {
                    return Some((e, p + 1));
                }
            },
            None => {},
        }
    }
    atom(i, pos)
}

/// Parses a factor at `pos`: the unary-minus form, a parenthesized
/// expression, or an atom.
pub fn factor(i: &[u8], pos: usize) -> (r: Option<(Node, usize)>)
    requires
        pos <= i@.len(),
    ensures
        match r {
            Some((n, p)) => spec_factor(i@, pos as int) == Some((n, p as int))
                && pos < p <= i@.len() && wf(n),
            None => spec_factor(i@, pos as int) is None,
        },
    decreases i@.len() - pos, 1int,
{
    if pos < i.len() && i[pos] == MINUS && pos + 1 < i.len() && i[pos + 1] == LPAREN {
        match expr(i, pos + 2) {
            Some((e, p)) => {
                if p < i.len() && i[p] == RPAREN {
                    let node = bin_node(Op::Mul, lit_node(NEG_ONE_BITS), e);
                    return Some((node, p + 1));
                }
            },
            None => {},
        }
    }
    paren_or_atom(i, pos)
}

/// Parses a term at `pos`: a factor, then a left-associative fold over the
/// `*` and `/` operators.
pub fn term(i: &[u8], pos: usize) -> (r: Option<(Node, usize)>)
    requires
        pos <= i@.len(),
    ensures
        match r {
            Some((n, p)) => spec_term(i@, pos as int) == Some((n, p as int)) && pos < p <= i@.len()
                && wf(n),
            None => spec_term(i@, pos as int) is None,
        },
    decreases i@.len() - pos, 2int,
{
    match factor(i, pos) {
        None => None,
        Some((f0, p0)) => {
            let mut acc = f0;
            let mut p = p0;
            while p < i.len() && (i[p] == STAR || i[p] == SLASH)
                invariant
                    pos < p <= i@.len(),
                    wf(acc),
                    spec_term(i@, pos as int) == spec_term_chain(i@, p as int, acc),
                decreases i@.len() - p,
            {
                let opb = i[p];
                match factor(i, p + 1) {
                    None => {
                        return None;
                    },
                    Some((f, p2)) => {
                        let op = if opb == STAR {
                            Op::Mul
                        } else {
                            Op::Div
                        };
                        acc = bin_node(op, acc, f);
                        p = p2;
                    },
                }
            }
            Some((acc, p))
        },
    }
}

/// Parses an expression at `pos`: a term, then a left-associative fold over
/// the `+` and `-` operators.
pub fn expr(i: &[u8], pos: usize) -> (r: Option<(Node, usize)>)
    requires
        pos <= i@.len(),
    ensures
        match r {
            Some((n, p)) => spec_expr(i@, pos as int) == Some((n, p as int)) && pos < p <= i@.len()
                && wf(n),
            None => spec_expr(i@, pos as int) is None,
        },
    decreases i@.len() - pos, 3int,
{
    match term(i, pos) {
        None => None,
        Some((t0, p0)) => {
            let mut acc = t0;
            let mut p = p0;
            while p < i.len() && (i[p] == PLUS || i[p] == MINUS)
                invariant
                    pos < p <= i@.len(),
                    wf(acc),
                    spec_expr(i@, pos as int) == spec_expr_chain(i@, p as int, acc),
                decreases i@.len() - p,
            {
                let opb = i[p];
                match term(i, p + 1) {
                    None => {
                        return None;
                    },
                    Some((t, p2)) => {
                        let op = if opb == PLUS {
                            Op::Add
                        } else {
                            Op::Sub
                        };
                        acc = bin_node(op, acc, t);
                        p = p2;
                    },
                }
            }
            Some((acc, p))
        },
    }
}

/// Parses the whole input as one expression: fails unless every byte is
/// consumed.
pub fn formula(i: &[u8]) -> (r: Option<Node>)
    ensures
        match r {
            Some(n) => spec_formula(i@) == Some(n) && wf(n),
            None => spec_formula(i@) is None,
        },
{
    match expr(i, 0) {
        Some((n, p)) => if p == i.len() {
            Some(n)
        } else {
            None
        },
        None => None,
    }
}

} // verus!
