//! The syntax tree produced by the parser and consumed by the evaluator.

use vstd::prelude::*;

verus! {

/// What a node carries: one of the four binary operators, or a literal
/// number held as the bit pattern of an IEEE single-precision value.
#[derive(Debug, PartialEq)]
pub enum Op {
    Add,
    Sub,
    Mul,
    Div,
    Id(u32),
}

/// One node of the syntax tree. A literal node (`Op::Id`) has no children;
/// an operator node owns exactly two subtrees, `left` and `right`.
#[derive(Debug, PartialEq)]
pub struct Node {
    pub left: Option<Box<Node>>,
    pub op: Op,
    pub right: Option<Box<Node>>,
}

/// Well-formedness: a literal node has no children, and an operator node has
/// exactly two well-formed children. The parser only ever produces
/// well-formed trees, and the evaluator requires one.
pub open spec fn wf(n: Node) -> bool
    decreases n,
{
    match n.op {
        Op::Id(_) => n.left is None && n.right is None,
        _ => match (n.left, n.right) {
            (Some(l), Some(r)) => wf(*l) && wf(*r),
            _ => false,
        },
    }
}

/// The literal node holding the value whose bit pattern is `bits`.
pub open spec fn spec_lit(bits: u32) -> Node {
    Node { left: None, op: Op::Id(bits), right: None }
}

/// The operator node `l op r`.
pub open spec fn spec_bin(op: Op, l: Node, r: Node) -> Node {
    Node { left: Some(Box::new(l)), op, right: Some(Box::new(r)) }
}

/// Builds a literal node.
pub fn lit_node(bits: u32) -> (r: Node)
    ensures
        r == spec_lit(bits),
        wf(r),
{
    Node { left: None, op: Op::Id(bits), right: None }
}

/// Builds an operator node from two subtrees.
pub fn bin_node(op: Op, l: Node, r: Node) -> (res: Node)
    requires
        !(op is Id),
        wf(l),
        wf(r),
    ensures
        res == spec_bin(op, l, r),
        wf(res),
{
    Node { left: Some(Box::new(l)), op, right: Some(Box::new(r)) }
}

} // verus!
