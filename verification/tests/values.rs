use goryl::interpreter::compute;
use goryl::interpreter::run::print_value;
use goryl::interpreter::value::Value;
use goryl::number::{before, equal, nan, negate, zero, NumberOp};

fn arithmetic(op: NumberOp) -> u64 {
    match op {
        NumberOp::Read(n) => n.text().parse::<f64>().unwrap().to_bits(),
        NumberOp::Add(a, b) => (f64::from_bits(a) + f64::from_bits(b)).to_bits(),
        NumberOp::Sub(a, b) => (f64::from_bits(a) - f64::from_bits(b)).to_bits(),
        NumberOp::Mul(a, b) => (f64::from_bits(a) * f64::from_bits(b)).to_bits(),
        NumberOp::Div(a, b) => (f64::from_bits(a) / f64::from_bits(b)).to_bits(),
    }
}

fn show_bits(bits: u64) -> String {
    format!("{:?}", f64::from_bits(bits))
}

fn number(x: f64) -> Value {
    Value::Number(x.to_bits())
}

fn string(s: &str) -> Value {
    Value::String(s.to_string())
}

fn as_number(value: Option<Value>) -> f64 {
    match value {
        Some(Value::Number(bits)) => f64::from_bits(bits),
        other => panic!("not a number: {:?}", other),
    }
}

fn samples() -> Vec<f64> {
    vec![
        0.0,
        -0.0,
        1.0,
        -1.0,
        2.5,
        -2.5,
        1e-320,
        -1e-320,
        f64::MIN_POSITIVE,
        f64::MAX,
        f64::MIN,
        f64::EPSILON,
        f64::INFINITY,
        f64::NEG_INFINITY,
        f64::NAN,
        -f64::NAN,
        f64::from_bits(0x7ff0_0000_0000_0001),
        f64::from_bits(0xfff8_0000_0000_0001),
        1e300,
        3.0,
        0.1,
    ]
}

#[test]
fn test_neg() {
    let value = Value::Number(5.0f64.to_bits());
    if let Some(val) = value.neg() {
        println!("{:?}", val);
        assert!(matches!(val, Value::Number(bits) if f64::from_bits(bits) == -5.0));
    } else {
        panic!("a number has a negation");
    }
}

#[test]
fn test_not() {
    let string_value = Value::String(String::from(""));
    let num = Value::Number(0.0f64.to_bits());
    let bl = Value::Bool(true);
    let n = Value::Null;
    let inverse = n.not();
    println!("{:?}", inverse);
    assert!(matches!(inverse, Value::Bool(true)));
    assert!(matches!(string_value.not(), Value::Bool(false)));
    assert!(matches!(num.not(), Value::Bool(true)));
    assert!(matches!(bl.not(), Value::Bool(false)));
}

#[test]
fn negation_is_defined_for_numbers_alone() {
    assert!(string("a").neg().is_none());
    assert!(Value::Bool(true).neg().is_none());
    assert!(Value::Null.neg().is_none());
    assert_eq!(as_number(number(2.5).neg()), -2.5);
    assert_eq!(as_number(number(-2.5).neg()), 2.5);
}

#[test]
fn negation_flips_the_sign_bit_of_every_number() {
    for x in samples() {
        let negated = number(x).neg();
        match negated {
            Some(Value::Number(bits)) => assert_eq!(bits, (-x).to_bits(), "for {:?}", x),
            other => panic!("not a number: {:?}", other),
        }
        assert_eq!(negate(x.to_bits()), (-x).to_bits());
    }
}

#[test]
fn logical_not_of_every_kind_of_value() {
    assert!(matches!(number(0.0).not(), Value::Bool(true)));
    assert!(matches!(number(-0.0).not(), Value::Bool(true)));
    assert!(matches!(number(1.0).not(), Value::Bool(false)));
    assert!(matches!(number(f64::NAN).not(), Value::Bool(false)));
    assert!(matches!(Value::Bool(true).not(), Value::Bool(false)));
    assert!(matches!(Value::Bool(false).not(), Value::Bool(true)));
    assert!(matches!(Value::Null.not(), Value::Bool(true)));
    // a string that is not empty negates to true, an empty one to false
    assert!(matches!(string("a").not(), Value::Bool(true)));
    assert!(matches!(string("").not(), Value::Bool(false)));
}

#[test]
fn zero_and_nan_are_read_off_the_bits() {
    for x in samples() {
        assert_eq!(zero(x.to_bits()), x == 0.0, "for {:?}", x);
        assert_eq!(nan(x.to_bits()), x.is_nan(), "for {:?}", x);
    }
}

#[test]
fn number_arithmetic_is_ieee_arithmetic() {
    for a in samples() {
        for b in samples() {
            let sum = as_number(number(a).add(number(b), &arithmetic));
            assert_eq!(sum.to_bits(), (a + b).to_bits());
            let difference = as_number(number(a).sub(number(b), &arithmetic));
            assert_eq!(difference.to_bits(), (a - b).to_bits());
            let product = as_number(number(a).mul(number(b), &arithmetic));
            assert_eq!(product.to_bits(), (a * b).to_bits());
            let quotient = number(a).div(number(b), &arithmetic);
            if b == 0.0 {
                assert!(quotient.is_none(), "{:?} / {:?}", a, b);
            } else {
                assert_eq!(as_number(quotient).to_bits(), (a / b).to_bits());
            }
        }
    }
}

#[test]
fn exact_sums_and_quotients() {
    assert_eq!(as_number(number(1.0).add(number(2.0), &arithmetic)), 3.0);
    assert_eq!(as_number(number(0.1).add(number(0.2), &arithmetic)), 0.30000000000000004);
    assert_eq!(as_number(number(7.0).sub(number(9.5), &arithmetic)), -2.5);
    assert_eq!(as_number(number(1.5).mul(number(4.0), &arithmetic)), 6.0);
    assert_eq!(as_number(number(1.0).div(number(4.0), &arithmetic)), 0.25);
}

#[test]
fn division_by_either_zero_fails() {
    assert!(number(1.0).div(number(0.0), &arithmetic).is_none());
    assert!(number(1.0).div(number(-0.0), &arithmetic).is_none());
    assert!(number(0.0).div(number(0.0), &arithmetic).is_none());
    assert!(number(f64::INFINITY).div(number(0.0), &arithmetic).is_none());
    assert!(number(f64::NAN).div(number(-0.0), &arithmetic).is_none());
}

#[test]
fn strings_add_by_concatenation() {
    match string("a").add(string("b"), &arithmetic) {
        Some(Value::String(s)) => assert_eq!(s, "ab"),
        other => panic!("not a string: {:?}", other),
    }
    match string("").add(string("xyz"), &arithmetic) {
        Some(Value::String(s)) => assert_eq!(s, "xyz"),
        other => panic!("not a string: {:?}", other),
    }
    match string("é").add(string(""), &arithmetic) {
        Some(Value::String(s)) => assert_eq!(s, "é"),
        other => panic!("not a string: {:?}", other),
    }
}

#[test]
fn other_pairs_cannot_be_added() {
    assert!(number(1.0).add(string("a"), &arithmetic).is_none());
    assert!(string("a").add(number(1.0), &arithmetic).is_none());
    assert!(Value::Bool(true).add(Value::Bool(true), &arithmetic).is_none());
    assert!(Value::Null.add(Value::Null, &arithmetic).is_none());
    assert!(number(1.0).add(Value::Null, &arithmetic).is_none());
}

#[test]
fn only_numbers_subtract_multiply_and_divide() {
    assert!(string("ab").sub(string("b"), &arithmetic).is_none());
    assert!(string("ab").mul(number(2.0), &arithmetic).is_none());
    assert!(number(2.0).mul(string("ab"), &arithmetic).is_none());
    assert!(string("ab").div(string("ab"), &arithmetic).is_none());
    assert!(Value::Bool(true).sub(number(1.0), &arithmetic).is_none());
    assert!(Value::Null.div(number(1.0), &arithmetic).is_none());
}

#[test]
fn numbers_compare_by_the_total_order() {
    for a in samples() {
        for b in samples() {
            let expected = a.total_cmp(&b);
            assert_eq!(number(a).partial_cmp(&number(b)), Some(expected), "{:?} {:?}", a, b);
            assert_eq!(number(a) < number(b), expected == std::cmp::Ordering::Less);
            assert_eq!(number(a) <= number(b), expected != std::cmp::Ordering::Greater);
            assert_eq!(number(a) > number(b), expected == std::cmp::Ordering::Greater);
            assert_eq!(number(a) >= number(b), expected != std::cmp::Ordering::Less);
            assert_eq!(before(a.to_bits(), b.to_bits()), expected == std::cmp::Ordering::Less);
        }
    }
}

#[test]
fn total_order_tells_the_zeros_apart() {
    assert!(number(-0.0) < number(0.0));
    assert!(!(number(0.0) <= number(-0.0)));
    assert!(number(f64::NAN) > number(f64::INFINITY));
    assert!(number(1.0) < number(2.0));
    assert!(number(2.0) >= number(2.0));
}

#[test]
fn strings_compare_by_length_in_characters() {
    assert!(string("b") < string("aa"));
    assert!(string("zz") > string("a"));
    assert!(string("ab") <= string("ba"));
    assert!(string("ab") >= string("ba"));
    assert!(!(string("ab") < string("ba")));
    assert!(!(string("ab") > string("ba")));
    assert_eq!(
        string("abc").partial_cmp(&string("xyz")),
        Some(std::cmp::Ordering::Equal)
    );
    // three characters against two, whatever their encoded length
    assert!(string("ééé") > string("zz"));
    assert!(string("é") < string("zz"));
    assert!(string("") < string("a"));
}

#[test]
fn other_pairs_are_in_no_order() {
    let pairs = [
        (number(1.0), string("a")),
        (string("a"), number(1.0)),
        (Value::Bool(true), Value::Bool(false)),
        (Value::Null, Value::Null),
        (Value::Null, number(0.0)),
        (Value::Bool(false), string("")),
    ];
    for (a, b) in pairs.iter() {
        assert_eq!(a.partial_cmp(b), None);
        assert!(!(a < b));
        assert!(!(a <= b));
        assert!(!(a > b));
        assert!(!(a >= b));
    }
}

#[test]
fn numbers_are_equal_as_ieee_holds_them() {
    for a in samples() {
        for b in samples() {
            assert_eq!(number(a) == number(b), a == b, "{:?} {:?}", a, b);
            assert_eq!(number(a) != number(b), a != b, "{:?} {:?}", a, b);
            assert_eq!(equal(a.to_bits(), b.to_bits()), a == b);
        }
    }
    assert!(number(0.0) == number(-0.0));
    assert!(number(f64::NAN) != number(f64::NAN));
}

#[test]
fn values_of_one_type_are_equal_by_value() {
    assert!(string("ab") == string("ab"));
    assert!(string("ab") != string("ba"));
    assert!(string("") == string(""));
    assert!(Value::Bool(true) == Value::Bool(true));
    assert!(Value::Bool(true) != Value::Bool(false));
    assert!(Value::Null == Value::Null);
    assert!(number(1.5) == number(1.5));
}

#[test]
fn values_of_two_types_are_never_equal() {
    let values = [
        number(0.0),
        number(1.0),
        string(""),
        string("0"),
        string("true"),
        Value::Bool(true),
        Value::Bool(false),
        Value::Null,
    ];
    for (i, a) in values.iter().enumerate() {
        for (j, b) in values.iter().enumerate() {
            let same_type = std::mem::discriminant(a) == std::mem::discriminant(b);
            if !same_type {
                assert!(a != b, "{:?} == {:?}", a, b);
            }
            if i == j {
                assert!(a == b);
            }
        }
    }
}

#[test]
fn clone_keeps_the_value() {
    for value in [number(1.5), string("a\"b"), Value::Bool(false), Value::Null] {
        assert!(value.clone() == value);
    }
    assert!(matches!(number(f64::NAN).clone(), Value::Number(bits) if bits == f64::NAN.to_bits()));
}

#[test]
fn compute_turns_nothing_into_the_error() {
    match compute(Some(number(1.0)), 3, "unused".to_string()) {
        Ok(Value::Number(bits)) => assert_eq!(f64::from_bits(bits), 1.0),
        other => panic!("not a number: {:?}", other),
    }
    match compute(None, 3, "Division error.".to_string()) {
        Err(e) => {
            assert_eq!(e.msg, "Division error.");
            assert_eq!(e.line, 3);
        }
        other => panic!("not an error: {:?}", other),
    }
}

#[test]
fn values_print_as_text() {
    assert_eq!(print_value(Ok(number(3.0)), &show_bits), "3.0");
    assert_eq!(print_value(Ok(number(0.1)), &show_bits), "0.1");
    assert_eq!(print_value(Ok(number(-0.0)), &show_bits), "-0.0");
    assert_eq!(print_value(Ok(number(1e21)), &show_bits), "1e21");
    assert_eq!(print_value(Ok(string("ab")), &show_bits), "\"ab\"");
    assert_eq!(print_value(Ok(string("")), &show_bits), "\"\"");
    assert_eq!(
        print_value(Ok(string("a\"b\\c\nd")), &show_bits),
        "\"a\\\"b\\\\c\\nd\""
    );
    assert_eq!(print_value(Ok(Value::Bool(true)), &show_bits), "true");
    assert_eq!(print_value(Ok(Value::Bool(false)), &show_bits), "false");
    assert_eq!(print_value(Ok(Value::Null), &show_bits), "Null");
}

#[test]
fn errors_print_as_their_report() {
    let error = goryl::errors::runtime_error::RuntimeError {
        line: 7,
        msg: "Undefined variable".to_string(),
    };
    assert_eq!(
        print_value(Err(error.clone()), &show_bits),
        "Runtime error on line 7: Undefined variable"
    );
    assert_eq!(
        goryl::errors::Error::report(&error),
        "Runtime error on line 7: Undefined variable"
    );
}
