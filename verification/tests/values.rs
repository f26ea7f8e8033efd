use roz::literal::{equal, is_nan, less, negated, ArithOp, Literal};
use roz::text::{contains_char, decimal, ends_with, same_text};
use std::cmp::Ordering;

fn bits(x: f32) -> u32 {
    x.to_bits()
}

fn float_host(op: ArithOp, a: u32, b: u32) -> u32 {
    let (x, y) = (f32::from_bits(a), f32::from_bits(b));
    let r = match op {
        ArithOp::Add => x + y,
        ArithOp::Sub => x - y,
        ArithOp::Mul => x * y,
        ArithOp::Div => x / y,
    };
    r.to_bits()
}

fn number(x: f32) -> Literal {
    Literal::Number(bits(x))
}

fn text(s: &str) -> Literal {
    Literal::String(s.to_string())
}

fn samples() -> Vec<f32> {
    vec![
        0.0,
        -0.0,
        1.0,
        -1.0,
        2.5,
        -2.5,
        1.0e-40,
        -1.0e-40,
        f32::MAX,
        f32::MIN,
        f32::MIN_POSITIVE,
        f32::INFINITY,
        f32::NEG_INFINITY,
        f32::NAN,
        -f32::NAN,
        3.0e38,
        16777216.0,
    ]
}

#[test]
fn decimal_writes_numerals() {
    assert_eq!(decimal(0), "0");
    assert_eq!(decimal(7), "7");
    assert_eq!(decimal(10), "10");
    assert_eq!(decimal(255), "255");
    assert_eq!(decimal(1234567890), "1234567890");
}

#[test]
fn text_helpers_agree_with_std() {
    assert!(contains_char("2.5", '.'));
    assert!(!contains_char("25", '.'));
    assert!(!contains_char("", '.'));
    assert!(ends_with("5.0", ".0"));
    assert!(!ends_with("5.01", ".0"));
    assert!(!ends_with("0", ".0"));
    assert!(ends_with("abc", ""));
    assert!(same_text("while", "while"));
    assert!(!same_text("while", "whale"));
    assert!(!same_text("if", "iff"));
    assert!(same_text("", ""));
}

#[test]
fn less_agrees_with_floats() {
    for x in samples() {
        for y in samples() {
            assert_eq!(less(bits(x), bits(y)), x < y, "{} < {}", x, y);
        }
    }
}

#[test]
fn equal_agrees_with_floats() {
    for x in samples() {
        for y in samples() {
            assert_eq!(equal(bits(x), bits(y)), x == y, "{} == {}", x, y);
        }
    }
}

#[test]
fn negated_agrees_with_floats() {
    for x in samples() {
        assert_eq!(negated(bits(x)), bits(-x), "-{}", x);
        assert_eq!(is_nan(bits(x)), x.is_nan(), "{}", x);
    }
}

#[test]
fn zero_and_minus_zero_are_equal_and_nan_equals_nothing() {
    assert!(equal(bits(0.0), bits(-0.0)));
    assert!(!less(bits(-0.0), bits(0.0)));
    assert!(!equal(bits(f32::NAN), bits(f32::NAN)));
    assert!(number(0.0) == number(-0.0));
    assert!(number(f32::NAN) != number(f32::NAN));
}

#[test]
fn number_text_gets_a_fraction() {
    assert_eq!(number(5.0).to_string("5", "5.0"), "5.0");
    assert_eq!(number(2.5).to_string("2.5", "2.5"), "2.5");
    assert_eq!(number(f32::INFINITY).to_string("inf", "inf"), "inf");
    assert_eq!(number(0.1).to_string("0.1", "0.1"), "0.1");
    assert_eq!(number(1.0).to_string("1.0", "one"), "one");
}

#[test]
fn values_have_text() {
    assert_eq!(text("hello").to_string("", ""), "hello");
    assert_eq!(Literal::Bool(true).to_string("", ""), "true");
    assert_eq!(Literal::Bool(false).to_string("", ""), "false");
    assert_eq!(Literal::Null.to_string("", ""), "null");
    assert_eq!(Literal::Function(0).to_string("", ""), "<fn>");
}

#[test]
fn values_name_their_types() {
    assert_eq!(number(1.0).literal_type(), "number");
    assert_eq!(text("").literal_type(), "string");
    assert_eq!(Literal::Bool(true).literal_type(), "bool");
    assert_eq!(Literal::Null.literal_type(), "null");
    assert_eq!(Literal::Function(3).literal_type(), "function");
    assert!(number(1.0).is_double());
    assert!(!text("1").is_double());
    assert!(text("1").is_string());
    assert!(Literal::Bool(false).is_bool());
    assert!(Literal::Null.is_null());
    assert!(Literal::Function(0).is_function());
    assert!(!Literal::Null.is_function());
}

#[test]
fn numbers_are_added_by_the_host() {
    assert_eq!(number(2.0).add(number(3.0), &float_host), Ok(number(5.0)));
    assert_eq!(number(2.0).sub(number(3.0), &float_host), Ok(number(-1.0)));
    assert_eq!(number(2.0).mul(number(3.0), &float_host), Ok(number(6.0)));
    assert_eq!(number(3.0).div(number(2.0), &float_host), Ok(number(1.5)));
}

#[test]
fn division_by_zero_is_no_error() {
    assert_eq!(number(1.0).div(number(0.0), &float_host), Ok(number(f32::INFINITY)));
    assert_eq!(number(-1.0).div(number(0.0), &float_host), Ok(number(f32::NEG_INFINITY)));
    match number(0.0).div(number(0.0), &float_host) {
        Ok(Literal::Number(n)) => assert!(f32::from_bits(n).is_nan()),
        other => panic!("{:?}", other),
    }
}

#[test]
fn arithmetic_hands_the_operands_to_the_host_in_order() {
    let spy = |op: ArithOp, a: u32, b: u32| -> u32 {
        assert_eq!(op, ArithOp::Sub);
        assert_eq!((a, b), (7, 9));
        42
    };
    assert_eq!(Literal::Number(7).sub(Literal::Number(9), &spy), Ok(Literal::Number(42)));
}

#[test]
fn strings_are_concatenated() {
    assert_eq!(text("ab").add(text("cd"), &float_host), Ok(text("abcd")));
    assert_eq!(text("").add(text(""), &float_host), Ok(text("")));
}

#[test]
fn mismatched_operands_are_errors() {
    assert_eq!(
        text("a").add(number(1.0), &float_host),
        Err("Cannot add 'string' and 'number'".to_string())
    );
    assert_eq!(
        number(1.0).add(Literal::Null, &float_host),
        Err("Cannot add 'number' and 'null'".to_string())
    );
    assert_eq!(
        text("a").sub(Literal::Bool(true), &float_host),
        Err("Cannot subtract 'bool' from 'string'".to_string())
    );
    assert_eq!(
        text("a").sub(text("b"), &float_host),
        Err("Cannot subtract 'string' from 'string'".to_string())
    );
    assert_eq!(
        number(1.0).mul(text("b"), &float_host),
        Err("Cannot multiply 'number' by 'string'".to_string())
    );
    assert_eq!(
        Literal::Function(0).div(number(2.0), &float_host),
        Err("Cannot multiply 'function' by 'number'".to_string())
    );
}

#[test]
fn negation_is_defined_on_numbers_and_booleans() {
    assert_eq!(number(2.0).neg(), Ok(number(-2.0)));
    assert_eq!(number(-0.0).neg(), Ok(number(0.0)));
    assert_eq!(Literal::Bool(true).neg(), Ok(Literal::Bool(false)));
    assert_eq!(text("a").neg(), Err("Cannot negate a string.".to_string()));
    assert_eq!(Literal::Null.neg(), Err("Cannot negate a nil.".to_string()));
    assert_eq!(Literal::Function(1).neg(), Err("Cannot negate a function.".to_string()));
}

#[test]
fn only_numbers_are_ordered() {
    assert_eq!(number(1.0).partial_cmp(&number(2.0)), Some(Ordering::Less));
    assert_eq!(number(2.0).partial_cmp(&number(1.0)), Some(Ordering::Greater));
    assert_eq!(number(2.0).partial_cmp(&number(2.0)), Some(Ordering::Equal));
    assert_eq!(number(f32::NAN).partial_cmp(&number(2.0)), Some(Ordering::Equal));
    assert_eq!(text("a").partial_cmp(&text("b")), None);
    assert_eq!(number(1.0).partial_cmp(&text("b")), None);
    assert_eq!(Literal::Null.partial_cmp(&Literal::Null), None);
    assert!(number(1.0) < number(2.0));
    assert!(!(text("a") < text("b")));
}

#[test]
fn values_are_equal_by_variant_and_contents() {
    assert!(text("a") == text("a"));
    assert!(text("a") != text("b"));
    assert!(Literal::Bool(true) == Literal::Bool(true));
    assert!(Literal::Null == Literal::Null);
    assert!(Literal::Function(1) == Literal::Function(1));
    assert!(Literal::Function(1) != Literal::Function(2));
    assert!(number(1.0) != text("1"));
    assert_eq!(text("copy").clone(), text("copy"));
}
