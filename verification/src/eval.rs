//! The evaluator: a post-order traversal of the tree over an explicit value
//! stack, and the whole normalize-parse-evaluate pipeline.

use crate::ast::{wf, Node, Op};
use crate::num::{add_bits, add_bits_of, div_bits, div_bits_of, mul_bits, mul_bits_of, sub_bits,
    sub_bits_of};
use crate::parse::{formula, normalize, spec_formula, spec_normalize};
use vstd::prelude::*;

verus! {

/// The bit pattern the operator yields on the two operands' bit patterns,
/// left operand first.
pub open spec fn apply_op(op: Op, a: u32, b: u32) -> u32 {
    match op {
        Op::Add => add_bits_of(a, b),
        Op::Sub => sub_bits_of(a, b),
        Op::Mul => mul_bits_of(a, b),
        Op::Div => div_bits_of(a, b),
        Op::Id(x) => x,
    }
}

/// The value of a well-formed tree: a literal's own bits, or the operator
/// applied to the values of the left and right subtrees, in that order.
pub open spec fn eval_node(n: Node) -> u32
    decreases n,
{
    match n.op {
        Op::Id(b) => b,
        _ => match (n.left, n.right) {
            (Some(l), Some(r)) => apply_op(n.op, eval_node(*l), eval_node(*r)),
            _ => 0,
        },
    }
}

/// Post-order traversal: evaluates the left subtree, then the right, then
/// pops the right and left operands and pushes the operator's result; a
/// literal's value is pushed directly. Exactly one value is added to the
/// stack.
pub fn traverse(stack: &mut Vec<u32>, node: &Node)
    requires
        wf(*node),
    ensures
        final(stack)@ == old(stack)@.push(eval_node(*node)),
    decreases *node,
{
    match &node.left {
        Some(l) => traverse(stack, &**l),
        None => {},
    }
    match &node.right {
        Some(r) => traverse(stack, &**r),
        None => {},
    }
    match &node.op {
        Op::Add => {
            let v1 = stack.pop().unwrap();
            let v2 = stack.pop().unwrap();
            stack.push(add_bits(v2, v1));
        },
        Op::Sub => {
            let v1 = stack.pop().unwrap();
            let v2 = stack.pop().unwrap();
            stack.push(sub_bits(v2, v1));
        },
        Op::Mul => {
            let v1 = stack.pop().unwrap();
            let v2 = stack.pop().unwrap();
            stack.push(mul_bits(v2, v1));
        },
        Op::Div => {
            let v1 = stack.pop().unwrap();
            let v2 = stack.pop().unwrap();
            stack.push(div_bits(v2, v1));
        },
        Op::Id(x) => stack.push(*x),
    }
}

/// The result of the whole pipeline on a raw line: the value of the
/// normalized input's tree, or nothing exactly when the normalized input is
/// not one complete expression.
pub open spec fn spec_eval(s: Seq<u8>) -> Option<u32> {
    match spec_formula(spec_normalize(s)) {
        Some(n) => Some(eval_node(n)),
        None => None,
    }
}

/// Normalizes, parses and evaluates one input line.
pub fn eval(input: &[u8]) -> (r: Option<u32>)
    ensures
        r == spec_eval(input@),
{
    let norm = normalize(input);
    match formula(norm.as_slice()) {
        Some(node) => {
            let mut stack: Vec<u32> = Vec::new();
            traverse(&mut stack, &node);
            stack.pop()
        },
        None => None,
    }
}

} // verus!
