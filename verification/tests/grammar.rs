use calc::ast::{Node, Op};
use calc::parse::{atom, factor, formula, term};

fn lit(x: f32) -> Node {
    Node { left: None, op: Op::Id(x.to_bits()), right: None }
}

fn bin(op: Op, l: Node, r: Node) -> Node {
    Node { left: Some(Box::new(l)), op, right: Some(Box::new(r)) }
}

#[test]
fn atom_test() {
    let (node, used) = atom(b"3.2", 0).unwrap();
    assert_eq!(used, 3);
    assert_eq!(node, lit(3.2));
}

#[test]
fn factor_test() {
    let (node, used) = factor(b"3.14", 0).unwrap();
    assert_eq!(used, 4);
    assert_eq!(node, lit(3.14));
}

#[test]
fn factor_and_expr() {
    let (node, used) = factor(b"(3.2)", 0).unwrap();
    assert_eq!(used, 5);
    assert_eq!(node, lit(3.2));
}

#[test]
fn term_test() {
    let (node, used) = term(b"3*2", 0).unwrap();
    assert_eq!(used, 3);
    assert_eq!(node, bin(Op::Mul, lit(3.0), lit(2.0)));
}

#[test]
fn expr_test() {
    let node = formula(b"3*4+4/3").unwrap();
    let test_node = bin(
        Op::Add,
        bin(Op::Mul, lit(3.0), lit(4.0)),
        bin(Op::Div, lit(4.0), lit(3.0)),
    );
    assert_eq!(node, test_node);
    let node = formula(b"(3+4)/3").unwrap();
    let test_node = bin(Op::Div, bin(Op::Add, lit(3.0), lit(4.0)), lit(3.0));
    assert_eq!(node, test_node);
    let node = formula(b"((3+4)/(3))").unwrap();
    let test_node = bin(Op::Div, bin(Op::Add, lit(3.0), lit(4.0)), lit(3.0));
    assert_eq!(node, test_node);
}

#[test]
fn unary_minus_desugars_to_multiplication() {
    let node = formula(b"-(100+2)").unwrap();
    let test_node = bin(Op::Mul, lit(-1.0), bin(Op::Add, lit(100.0), lit(2.0)));
    assert_eq!(node, test_node);
}

#[test]
fn signed_literal_is_one_atom() {
    let (node, used) = atom(b"-3.0+10.0", 0).unwrap();
    assert_eq!(used, 4);
    assert_eq!(node, lit(-3.0));
}

#[test]
fn left_associative_chain_parses_left_nested() {
    let node = formula(b"10-5-100").unwrap();
    let test_node = bin(Op::Sub, bin(Op::Sub, lit(10.0), lit(5.0)), lit(100.0));
    assert_eq!(node, test_node);
}

#[test]
fn malformed_inputs_produce_no_tree() {
    assert_eq!(formula(b""), None);
    assert_eq!(formula(b"+"), None);
    assert_eq!(formula(b"(3+4"), None);
    assert_eq!(formula(b"3+"), None);
}
