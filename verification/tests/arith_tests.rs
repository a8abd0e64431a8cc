use rusp::arith::{arith_values, compare_values, int_step, FloatArith};
use rusp::model::{ArithOp, Relation};
use rusp::text::{chars_of, is_text, string_of, text, write_int, write_nat, write_str};
use rusp::types::RuspAtom::{Float, Int};
use rusp::types::RuspExp::Atom;
use rusp::types::{RuspErr, RuspExp};

struct Echo;

impl FloatArith for Echo {
    fn of_int(&self, i: i64) -> String {
        format!("int:{}", i)
    }

    fn combine(&self, op: ArithOp, acc: &str, x: &str) -> String {
        format!("({:?} {} {})", op, acc, x)
    }

    fn compare(&self, _rel: Relation, a: &str, b: &str) -> bool {
        a.len() <= b.len()
    }
}

fn ints(values: &[i64]) -> Vec<RuspExp> {
    values.iter().map(|i| Atom(Int(*i))).collect()
}

#[test]
fn one_step_of_integer_arithmetic() {
    assert_eq!(int_step(ArithOp::Plus, 2, 3), Some(5));
    assert_eq!(int_step(ArithOp::Minus, 2, 3), Some(-1));
    assert_eq!(int_step(ArithOp::Multiply, -2, 3), Some(-6));
    assert_eq!(int_step(ArithOp::Divide, 7, 2), Some(3));
    assert_eq!(int_step(ArithOp::Divide, -7, 2), Some(-3));
    assert_eq!(int_step(ArithOp::Divide, 7, -2), Some(-3));
    assert_eq!(int_step(ArithOp::Divide, -7, -2), Some(3));
    assert_eq!(int_step(ArithOp::Divide, 0, 5), Some(0));
    assert_eq!(int_step(ArithOp::Divide, 5, 0), None);
    assert_eq!(int_step(ArithOp::Divide, i64::MIN, -1), None);
    assert_eq!(int_step(ArithOp::Plus, i64::MAX, 1), None);
    assert_eq!(int_step(ArithOp::Minus, i64::MIN, 1), None);
    assert_eq!(int_step(ArithOp::Multiply, i64::MAX, 2), None);
    assert_eq!(int_step(ArithOp::Plus, i64::MAX, 0), Some(i64::MAX));
}

#[test]
fn folds_go_from_left_to_right() {
    assert_eq!(
        arith_values(ArithOp::Minus, &ints(&[10, 1, 2, 3]), &Echo).unwrap(),
        Atom(Int(4))
    );
    assert_eq!(
        arith_values(ArithOp::Divide, &ints(&[100, 3, 2]), &Echo).unwrap(),
        Atom(Int(16))
    );
    assert_eq!(
        arith_values(ArithOp::Plus, &ints(&[]), &Echo).unwrap(),
        Atom(Int(0))
    );
    assert_eq!(
        arith_values(ArithOp::Divide, &ints(&[]), &Echo).unwrap(),
        Atom(Int(1))
    );
    assert_eq!(
        arith_values(ArithOp::Minus, &ints(&[i64::MIN]), &Echo).unwrap(),
        Atom(Int(i64::MIN))
    );
    assert_eq!(
        arith_values(ArithOp::Plus, &ints(&[i64::MAX, 1, -1]), &Echo).unwrap_err(),
        RuspErr::ArithmeticError
    );
}

#[test]
fn floats_are_handed_to_the_arithmetic_given() {
    let vals = vec![Atom(Int(1)), Atom(Float("2.0".to_string())), Atom(Int(3))];
    assert_eq!(
        arith_values(ArithOp::Plus, &vals, &Echo).unwrap(),
        Atom(Float("(Plus (Plus (Plus int:0 int:1) 2.0) int:3)".to_string()))
    );
    assert_eq!(
        arith_values(ArithOp::Minus, &vals, &Echo).unwrap(),
        Atom(Float("(Minus (Minus int:1 2.0) int:3)".to_string()))
    );
    assert_eq!(
        arith_values(ArithOp::Multiply, &vals, &Echo).unwrap(),
        Atom(Float(
            "(Multiply (Multiply (Multiply int:1 int:1) 2.0) int:3)".to_string()
        ))
    );
    let single = vec![Atom(Float("2.0".to_string()))];
    assert_eq!(
        arith_values(ArithOp::Divide, &single, &Echo).unwrap(),
        Atom(Float("2.0".to_string()))
    );
    assert_eq!(compare_values(Relation::Less, &vals, &Echo).unwrap(), RuspExp::nil());
    let growing = vec![Atom(Float("1.0".to_string())), Atom(Int(2))];
    assert_eq!(
        compare_values(Relation::Less, &growing, &Echo).unwrap(),
        RuspExp::t()
    );
    assert_eq!(
        compare_values(Relation::Less, &single, &Echo).unwrap(),
        RuspExp::t()
    );
}

#[test]
fn operands_must_be_numbers() {
    let vals = vec![Atom(Int(1)), RuspExp::nil(), RuspExp::t()];
    let expected = RuspErr::WrongTypeArgument {
        expected: "number".to_string(),
        actual: "nil".to_string(),
    };
    assert_eq!(arith_values(ArithOp::Plus, &vals, &Echo).unwrap_err(), expected);
    assert_eq!(compare_values(Relation::Equal, &vals, &Echo).unwrap_err(), expected);
    let one = vec![RuspExp::t()];
    assert!(compare_values(Relation::Equal, &one, &Echo).is_err());
}

#[test]
fn comparisons_look_at_each_neighbouring_pair() {
    assert_eq!(
        compare_values(Relation::Less, &ints(&[1, 2, 3, 3]), &Echo).unwrap(),
        RuspExp::nil()
    );
    assert_eq!(
        compare_values(Relation::LessOrEqual, &ints(&[1, 2, 3, 3]), &Echo).unwrap(),
        RuspExp::t()
    );
    assert_eq!(
        compare_values(Relation::NotEqual, &ints(&[1, 2, 1, 2]), &Echo).unwrap(),
        RuspExp::t()
    );
    assert_eq!(
        compare_values(Relation::GreaterOrEqual, &ints(&[3, 3, 4]), &Echo).unwrap(),
        RuspExp::nil()
    );
    assert_eq!(
        compare_values(Relation::Greater, &ints(&[]), &Echo).unwrap(),
        RuspExp::t()
    );
}

#[test]
fn strings_are_built_character_by_character() {
    assert_eq!(text("héllo"), "héllo");
    assert!(is_text(&"nil".to_string(), "nil"));
    assert!(!is_text(&"nil".to_string(), "ni"));
    assert_eq!(chars_of("aé(").len(), 3);
    assert_eq!(chars_of("aé("), vec!['a', 'é', '(']);
    let chars = chars_of("hello world");
    assert_eq!(string_of(&chars, 6, 11), "world");
    assert_eq!(string_of(&chars, 3, 3), "");
    let mut out = String::from("n=");
    write_nat(0, &mut out);
    write_str(",", &mut out);
    write_nat(18446744073709551615, &mut out);
    write_str(",", &mut out);
    write_int(-305, &mut out);
    assert_eq!(out, "n=0,18446744073709551615,-305");
}
