use std::rc::Rc;

use rusp::evaluator::{default_env, print, read};
use rusp::model::{ArithOp, Builtin};
use rusp::types::RuspAtom::{Float, Func, Int, Keyword, Lambda, Symbol};
use rusp::types::RuspExp::{Atom, Cons};
use rusp::types::{RuspAtom, RuspEnv, RuspErr, RuspExp};

fn round_trip(text: &str) -> String {
    read(text).unwrap().to_string()
}

#[test]
fn integers_print_in_decimal() {
    assert_eq!(Atom(Int(0)).to_string(), "0");
    assert_eq!(Atom(Int(7)).to_string(), "7");
    assert_eq!(Atom(Int(10)).to_string(), "10");
    assert_eq!(Atom(Int(-42)).to_string(), "-42");
    assert_eq!(Atom(Int(1234567890)).to_string(), "1234567890");
    assert_eq!(Atom(Int(i64::MAX)).to_string(), "9223372036854775807");
    assert_eq!(Atom(Int(i64::MIN)).to_string(), "-9223372036854775808");
}

#[test]
fn integer_literals_round_trip() {
    for n in [0i64, 1, -1, 9, 10, 99, 100, -100, 4096, i64::MAX, i64::MIN] {
        let text = Atom(Int(n)).to_string();
        assert_eq!(text, format!("{}", n));
        assert_eq!(read(&text).unwrap(), Atom(Int(n)));
        assert_eq!(round_trip(&text), text);
    }
    assert_eq!(round_trip("+5"), "5");
    assert_eq!(round_trip("007"), "7");
    assert_eq!(round_trip("-0"), "0");
}

#[test]
fn integers_too_large_are_symbols() {
    assert_eq!(
        read("9223372036854775808").unwrap(),
        Atom(Symbol("9223372036854775808".to_string()))
    );
    assert_eq!(
        read("-9223372036854775809").unwrap(),
        Atom(Symbol("-9223372036854775809".to_string()))
    );
    assert_eq!(
        read("-9223372036854775808").unwrap(),
        Atom(Int(i64::MIN))
    );
    assert_eq!(
        read("99999999999999999999999999").unwrap(),
        Atom(Symbol("99999999999999999999999999".to_string()))
    );
}

#[test]
fn lists_of_atoms_round_trip() {
    assert_eq!(round_trip("(a b c)"), "(a b c)");
    assert_eq!(round_trip("(a)"), "(a)");
    assert_eq!(round_trip("(1 2 3)"), "(1 2 3)");
    assert_eq!(round_trip("(a 1 :k 2.5 nil)"), "(a 1 :k 2.5 nil)");
    assert_eq!(round_trip("(quote a b)"), "(quote a b)");
    assert_eq!(round_trip("(quote)"), "(quote)");
    assert_eq!(round_trip("(  a   b  )"), "(a b)");
    assert_eq!(round_trip("(quote a)"), "'a");
    assert_eq!(round_trip("()"), "nil");
}

#[test]
fn reading_undoes_printing() {
    for text in [
        "a",
        "-12",
        ":key",
        "2.5",
        "(a)",
        "((a b) (c . d) 'e :k 1.5 -3)",
        "(a . b)",
        "(a b . c)",
        "('a '(b c) ''d)",
        "(quote a b)",
        "(quote)",
        "(.5 a)",
        "(nil (nil) ((nil)))",
        "'(a . 'b)",
    ] {
        let x = read(text).unwrap();
        let printed = x.to_string();
        assert_eq!(read(&printed).unwrap(), x, "{:?}", text);
        assert_eq!(read(&printed).unwrap().to_string(), printed, "{:?}", text);
    }
    assert_eq!(round_trip("(quote a)"), "'a");
    assert_eq!(read("'a").unwrap(), read("(quote a)").unwrap());
}

#[test]
fn pairs_print_with_a_dot() {
    assert_eq!(round_trip("(1 . 2)"), "(1 . 2)");
    assert_eq!(round_trip("(1 2 . 3)"), "(1 2 . 3)");
    assert_eq!(round_trip("(1 . (2 . (3 . nil)))"), "(1 2 3)");
    assert_eq!(round_trip("((a b) (c . d))"), "((a b) (c . d))");
}

#[test]
fn quote_prints_short() {
    assert_eq!(round_trip("'a"), "'a");
    assert_eq!(round_trip("'(a b)"), "'(a b)");
    assert_eq!(round_trip("(quote (a b))"), "'(a b)");
    assert_eq!(round_trip("(a 'b)"), "(a 'b)");
    assert_eq!(round_trip("(quote . a)"), "(quote . a)");
}

#[test]
fn other_atoms_print_as_their_text() {
    assert_eq!(Atom(Float("2.50".to_string())).to_string(), "2.50");
    assert_eq!(Atom(RuspAtom::String("a b".to_string())).to_string(), "a b");
    assert_eq!(Atom(Symbol("sym".to_string())).to_string(), "sym");
    assert_eq!(Atom(Keyword("key".to_string())).to_string(), ":key");
    assert_eq!(
        Atom(Func(Builtin::Arith(ArithOp::Plus))).to_string(),
        "#<function>"
    );
    let closure = Atom(Lambda {
        params: Box::new(read("(x y)").unwrap()),
        body: Box::new(read("(+ x y)").unwrap()),
        env: Rc::new(RuspEnv::new()),
    });
    assert_eq!(closure.to_string(), "#<lambda (x y) (+ x y)>");
    assert_eq!(print(&closure).unwrap(), "#<lambda (x y) (+ x y)>");
}

#[test]
fn errors_have_names() {
    assert_eq!(RuspErr::DummyError.to_string(), "DummyError");
    assert_eq!(RuspErr::ReplEmptyError.to_string(), "ReplEmptyError");
    assert_eq!(RuspErr::ReaderError.to_string(), "ReaderError");
    assert_eq!(RuspErr::ReaderEofError.to_string(), "ReaderEofError");
    assert_eq!(
        RuspErr::ReaderInvalidEscapeError { char: 'n' }.to_string(),
        "ReaderInvalidEscapeError"
    );
    assert_eq!(
        RuspErr::WrongTypeArgument {
            expected: "a".to_string(),
            actual: "b".to_string()
        }
        .to_string(),
        "WrongTypeArgument"
    );
    assert_eq!(
        RuspErr::WrongNumberOfArguments {
            required: 1,
            allowed: None,
            actual: 2
        }
        .to_string(),
        "WrongNumberOfArguments"
    );
    assert_eq!(
        RuspErr::VoidVariable {
            name: "x".to_string()
        }
        .to_string(),
        "VoidVariable"
    );
    assert_eq!(
        RuspErr::VoidFunction {
            name: "f".to_string()
        }
        .to_string(),
        "VoidFunction"
    );
    assert_eq!(RuspErr::ArithmeticError.to_string(), "ArithmeticError");
    assert_eq!(
        RuspErr::RecursionLimitError.to_string(),
        "RecursionLimitError"
    );
}

#[test]
fn equality_is_structural_but_for_functions() {
    assert_eq!(read("(a (b 1) \"s\" :k 1.5)"), read("(a (b 1) \"s\" :k 1.5)"));
    assert_ne!(read("(a b)"), read("(a c)"));
    assert_ne!(read("(a b)"), read("(a b c)"));
    assert_ne!(read("1"), read("1.0"));
    assert_ne!(Atom(Symbol("a".to_string())), Atom(Keyword("a".to_string())));
    let plus = Atom(Func(Builtin::Arith(ArithOp::Plus)));
    assert_ne!(plus, plus.clone());
    let list = Cons {
        car: Box::new(plus.clone()),
        cdr: Box::new(RuspExp::nil()),
    };
    assert_ne!(list, list.clone());
    let empty = Atom(Lambda {
        params: Box::new(RuspExp::nil()),
        body: Box::new(RuspExp::nil()),
        env: Rc::new(RuspEnv::new()),
    });
    assert_eq!(empty, empty.clone());
    let full = Atom(Lambda {
        params: Box::new(RuspExp::nil()),
        body: Box::new(RuspExp::nil()),
        env: Rc::new(default_env()),
    });
    assert_ne!(full, full.clone());
    assert_ne!(default_env(), default_env());
    assert_eq!(RuspEnv::new(), RuspEnv::new());
}

#[test]
fn copies_are_equal_to_what_they_copy() {
    let x = read("(a (b . c) 1 2.5 \"s\" :k 'q)").unwrap();
    assert_eq!(x.clone(), x);
    assert_eq!(rusp::types::copy_exp(&x), x);
    let mut env = RuspEnv::new();
    env.bind_variable("x".to_string(), x.clone());
    let inner = RuspEnv::child_of(env.clone());
    assert_eq!(inner.clone(), inner);
    assert_eq!(rusp::types::copy_env(&inner), inner);
    assert_eq!(inner.get_variable("x").unwrap(), &x);
}
