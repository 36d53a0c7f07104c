//! A verified calculator core: arithmetic expressions over decimal numbers
//! with the four binary operators, parentheses and a restricted unary minus.
//!
//! A raw input line is normalized (all whitespace removed), parsed by a
//! recursive-descent grammar into a syntax tree, and reduced by a stack
//! evaluator to a single IEEE single-precision value, carried everywhere as
//! its bit pattern (`u32`).

pub mod ast;
pub mod eval;
pub mod num;
pub mod parse;
pub mod props;
