use calc::eval::eval;
use calc::parse::{formula, normalize};

#[test]
fn eval_test() {
    let ans = eval(b"(2+2)/2");
    assert_eq!(ans, Some(2.0f32.to_bits()));
}

#[test]
fn minus_test() {
    let node = formula(b"-(100+2)").unwrap();
    println!("{:?}", node);
    assert_eq!(eval(b"-(100+2)"), Some((-102.0f32).to_bits()));
    let node = formula(b"-3.0+10.0-5.0-100.0").unwrap();
    println!("{:?}", node);
    assert_eq!(eval(b"-3.0+10.0-5.0-100.0"), Some((-98.0f32).to_bits()));
    let node = formula(b"-122.72-245.44-68.27-27.85-27.48+28.13+28.86").unwrap();
    println!("{:?}", node);
    assert_eq!(
        eval(b"-122.72-245.44-68.27-27.85-27.48+28.13+28.86"),
        Some((-122.72f32 - 245.44 - 68.27 - 27.85 - 27.48 + 28.13 + 28.86).to_bits())
    );
}

#[test]
fn single_literal_evaluates_to_itself() {
    assert_eq!(eval(b"3"), Some(3.0f32.to_bits()));
    assert_eq!(eval(b"3.14"), Some(3.14f32.to_bits()));
    assert_eq!(eval(b"-3.0"), Some((-3.0f32).to_bits()));
}

#[test]
fn subtraction_chain_is_left_associative() {
    assert_eq!(eval(b"10-5-100"), Some((-95.0f32).to_bits()));
}

#[test]
fn multiplication_binds_tighter_than_addition() {
    assert_eq!(eval(b"3*4+4/3"), Some((3.0f32 * 4.0 + 4.0f32 / 3.0).to_bits()));
}

#[test]
fn parenthesization_round_trip() {
    let plain = eval(b"(3+4)/3");
    let wrapped = eval(b"((3+4)/(3))");
    assert_eq!(plain, wrapped);
    assert_eq!(plain, Some((7.0f32 / 3.0).to_bits()));
}

#[test]
fn whitespace_never_changes_the_result() {
    assert_eq!(eval(b"2 + 2"), eval(b"2+2"));
    assert_eq!(eval(b" ( 3 + 4 ) / 3 "), eval(b"(3+4)/3"));
    assert_eq!(eval(b"\t10 -\n5 - 100\r"), Some((-95.0f32).to_bits()));
}

#[test]
fn normalize_strips_all_whitespace() {
    assert_eq!(normalize(b" 2 +\t2\n"), b"2+2".to_vec());
    assert_eq!(normalize(b"12"), b"12".to_vec());
    assert_eq!(normalize(b" \t\r\n"), Vec::<u8>::new());
}

#[test]
fn malformed_inputs_yield_no_result() {
    assert_eq!(eval(b""), None);
    assert_eq!(eval(b"+"), None);
    assert_eq!(eval(b"(3+4"), None);
    assert_eq!(eval(b"3+"), None);
}

#[test]
fn division_by_zero_is_a_non_finite_value() {
    let ans = eval(b"1/0").unwrap();
    assert!(!f32::from_bits(ans).is_finite());
    assert_eq!(ans, f32::INFINITY.to_bits());
    let neg = eval(b"-(1)/0").unwrap();
    assert_eq!(neg, f32::NEG_INFINITY.to_bits());
}
