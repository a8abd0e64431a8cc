use rusp::arith::FloatArith;
use rusp::evaluator::{default_env, eval, eval_bounded, eval_lambda, read, rep, MAX_DEPTH};
use rusp::model::{ArithOp, Relation};
use rusp::types::RuspAtom::{Float, Int, Symbol};
use rusp::types::RuspExp::Atom;
use rusp::types::{RuspEnv, RuspErr, RuspExp};

struct HostFloat;

fn number(text: &str) -> f64 {
    text.parse::<f64>().unwrap()
}

impl FloatArith for HostFloat {
    fn of_int(&self, i: i64) -> String {
        (i as f64).to_string()
    }

    fn combine(&self, op: ArithOp, acc: &str, x: &str) -> String {
        let (a, b) = (number(acc), number(x));
        let r = match op {
            ArithOp::Plus => a + b,
            ArithOp::Minus => a - b,
            ArithOp::Multiply => a * b,
            ArithOp::Divide => a / b,
        };
        r.to_string()
    }

    fn compare(&self, rel: Relation, a: &str, b: &str) -> bool {
        let (a, b) = (number(a), number(b));
        match rel {
            Relation::Equal => a == b,
            Relation::NotEqual => a != b,
            Relation::Less => a < b,
            Relation::LessOrEqual => a <= b,
            Relation::Greater => a > b,
            Relation::GreaterOrEqual => a >= b,
        }
    }
}

fn run(text: &str) -> Result<RuspExp, RuspErr> {
    let mut env = default_env();
    run_in(text, &mut env)
}

fn run_in(text: &str, env: &mut RuspEnv) -> Result<RuspExp, RuspErr> {
    eval(&read(text).unwrap(), env, &HostFloat)
}

fn float_of(exp: &RuspExp) -> f64 {
    match exp {
        Atom(Float(text)) => number(text),
        other => panic!("not a float: {:?}", other),
    }
}

#[test]
fn plus_of_integers_is_an_integer() {
    assert_eq!(run("(+ 1 2 3)").unwrap(), Atom(Int(6)));
    assert_eq!(run("(+)").unwrap(), Atom(Int(0)));
    assert_eq!(run("(*)").unwrap(), Atom(Int(1)));
    assert_eq!(run("(* 2 3 4)").unwrap(), Atom(Int(24)));
}

#[test]
fn plus_with_a_float_is_a_float() {
    let r = run("(+ 1 2.0)").unwrap();
    assert_eq!(float_of(&r), 3.0);
    assert_eq!(r, Atom(Float("3".to_string())));
    assert_eq!(float_of(&run("(- 5 2.5)").unwrap()), 2.5);
    assert_eq!(float_of(&run("(* 1.5 2)").unwrap()), 3.0);
    assert_eq!(float_of(&run("(/ 1 4.0)").unwrap()), 0.25);
}

#[test]
fn minus_and_divide_start_from_the_first_operand() {
    assert_eq!(run("(- 5 2)").unwrap(), Atom(Int(3)));
    assert_eq!(run("(-)").unwrap(), Atom(Int(0)));
    assert_eq!(run("(- 5)").unwrap(), Atom(Int(5)));
    assert_eq!(run("(/)").unwrap(), Atom(Int(1)));
    assert_eq!(run("(/ 2)").unwrap(), Atom(Int(2)));
    assert_eq!(run("(/ 7 2)").unwrap(), Atom(Int(3)));
    assert_eq!(run("(/ -7 2)").unwrap(), Atom(Int(-3)));
    assert_eq!(run("(/ 100 5 2)").unwrap(), Atom(Int(10)));
}

#[test]
fn arithmetic_that_cannot_be_done_is_an_error() {
    assert_eq!(run("(/ 1 0)").unwrap_err(), RuspErr::ArithmeticError);
    assert_eq!(
        run("(+ 9223372036854775807 1)").unwrap_err(),
        RuspErr::ArithmeticError
    );
    assert_eq!(
        run("(* 4611686018427387904 2)").unwrap_err(),
        RuspErr::ArithmeticError
    );
    assert_eq!(
        run("(- -9223372036854775808 1)").unwrap_err(),
        RuspErr::ArithmeticError
    );
    assert_eq!(
        run("(/ -9223372036854775808 -1)").unwrap_err(),
        RuspErr::ArithmeticError
    );
}

#[test]
fn arithmetic_wants_numbers() {
    assert_eq!(
        run("(+ 1 \"two\")").unwrap_err(),
        RuspErr::WrongTypeArgument {
            expected: "number".to_string(),
            actual: "two".to_string()
        }
    );
    assert_eq!(
        run("(< 1 :k)").unwrap_err(),
        RuspErr::WrongTypeArgument {
            expected: "number".to_string(),
            actual: ":k".to_string()
        }
    );
    assert_eq!(
        run("(+ 1 . 2)").unwrap_err(),
        RuspErr::WrongTypeArgument {
            expected: "list".to_string(),
            actual: "2".to_string()
        }
    );
}

#[test]
fn comparisons_chain() {
    assert_eq!(run("(< 1 2 3)").unwrap(), RuspExp::t());
    assert_eq!(run("(< 1 3 2)").unwrap(), RuspExp::nil());
    assert_eq!(run("(<)").unwrap(), RuspExp::t());
    assert_eq!(run("(< 5)").unwrap(), RuspExp::t());
    assert_eq!(run("(<= 1 1 2)").unwrap(), RuspExp::t());
    assert_eq!(run("(> 3 2 1)").unwrap(), RuspExp::t());
    assert_eq!(run("(> 3 3)").unwrap(), RuspExp::nil());
    assert_eq!(run("(>= 3 3 1)").unwrap(), RuspExp::t());
    assert_eq!(run("(= 2 2 2)").unwrap(), RuspExp::t());
    assert_eq!(run("(= 2 2 3)").unwrap(), RuspExp::nil());
    assert_eq!(run("(!= 1 2 1)").unwrap(), RuspExp::t());
    assert_eq!(run("(!= 1 1)").unwrap(), RuspExp::nil());
    assert_eq!(run("(< 1 1.5 2)").unwrap(), RuspExp::t());
    assert_eq!(run("(< 1 2.5 2)").unwrap(), RuspExp::nil());
    assert_eq!(run("(= 1 1.0)").unwrap(), RuspExp::t());
}

#[test]
fn if_takes_the_branch() {
    assert_eq!(run("(if nil 1 2)").unwrap(), Atom(Int(2)));
    assert_eq!(run("(if t 1)").unwrap(), Atom(Int(1)));
    assert_eq!(run("(if nil 1)").unwrap(), RuspExp::nil());
    assert_eq!(run("(if 0 1 2)").unwrap(), Atom(Int(1)));
    assert_eq!(run("(if \"\" 1 2)").unwrap(), Atom(Int(1)));
    assert_eq!(run("(if t 1 undefined)").unwrap(), Atom(Int(1)));
}

#[test]
fn forms_count_their_arguments() {
    assert_eq!(
        run("(if t)").unwrap_err(),
        RuspErr::WrongNumberOfArguments {
            required: 2,
            allowed: Some(3),
            actual: 1
        }
    );
    assert_eq!(
        run("(if t 1 2 3)").unwrap_err(),
        RuspErr::WrongNumberOfArguments {
            required: 2,
            allowed: Some(3),
            actual: 4
        }
    );
    assert_eq!(
        run("(quote)").unwrap_err(),
        RuspErr::WrongNumberOfArguments {
            required: 1,
            allowed: Some(1),
            actual: 0
        }
    );
    assert_eq!(
        run("((lambda (x y) x) 1)").unwrap_err(),
        RuspErr::WrongNumberOfArguments {
            required: 2,
            allowed: Some(2),
            actual: 1
        }
    );
    assert_eq!(
        run("((lambda (x) x) 1 2)").unwrap_err(),
        RuspErr::WrongNumberOfArguments {
            required: 1,
            allowed: Some(1),
            actual: 2
        }
    );
}

#[test]
fn quote_gives_its_argument_back() {
    assert_eq!(run("(quote (a b))").unwrap().to_string(), "(a b)");
    assert_eq!(run("'(a b)").unwrap().to_string(), "(a b)");
    assert_eq!(read("'(a b)").unwrap(), read("(quote (a b))").unwrap());
    assert_eq!(run("''a").unwrap().to_string(), "'a");
}

#[test]
fn unbound_names_are_errors() {
    assert_eq!(
        run("foo").unwrap_err(),
        RuspErr::VoidVariable {
            name: "foo".to_string()
        }
    );
    assert_eq!(run("foo").unwrap_err().to_string(), "VoidVariable");
    assert_eq!(
        run("(foo 1)").unwrap_err(),
        RuspErr::VoidFunction {
            name: "foo".to_string()
        }
    );
    assert_eq!(run("(foo 1)").unwrap_err().to_string(), "VoidFunction");
}

#[test]
fn a_call_needs_a_function() {
    assert_eq!(
        run("(1 2)").unwrap_err(),
        RuspErr::WrongTypeArgument {
            expected: "symbol".to_string(),
            actual: "1".to_string()
        }
    );
    assert_eq!(
        run("((a b) 2)").unwrap_err(),
        RuspErr::WrongTypeArgument {
            expected: "symbol".to_string(),
            actual: "(a b)".to_string()
        }
    );
    let mut env = default_env();
    env.bind_function("five".to_string(), Atom(Int(5)));
    assert_eq!(
        run_in("(five)", &mut env).unwrap_err(),
        RuspErr::WrongTypeArgument {
            expected: "function".to_string(),
            actual: "5".to_string()
        }
    );
    assert_eq!(
        run("(apply 1 '())").unwrap_err(),
        RuspErr::WrongTypeArgument {
            expected: "lambda".to_string(),
            actual: "1".to_string()
        }
    );
    assert_eq!(
        run("((lambda (1) 2) 3)").unwrap_err(),
        RuspErr::WrongTypeArgument {
            expected: "list<symbol>".to_string(),
            actual: "(1)".to_string()
        }
    );
}

#[test]
fn set_binds_a_variable() {
    let mut env = default_env();
    assert_eq!(run_in("(set x 5)", &mut env).unwrap(), Atom(Int(5)));
    assert_eq!(run_in("x", &mut env).unwrap(), Atom(Int(5)));
    assert_eq!(run_in("(setq x (+ x 1))", &mut env).unwrap(), Atom(Int(6)));
    assert_eq!(run_in("x", &mut env).unwrap(), Atom(Int(6)));
    assert_eq!(
        run_in("(set 1 2)", &mut env).unwrap_err(),
        RuspErr::WrongTypeArgument {
            expected: "symbol".to_string(),
            actual: "1".to_string()
        }
    );
}

#[test]
fn a_lambda_is_called_with_its_arguments() {
    assert_eq!(run("((lambda (x y) (- x y)) 5 2)").unwrap(), Atom(Int(3)));
    assert_eq!(run("(apply (lambda (x) (* x x)) '(7))").unwrap(), Atom(Int(49)));
    let mut env = default_env();
    run_in("(set square (lambda (x) (* x x)))", &mut env).unwrap();
    assert_eq!(run_in("(apply square '(4))", &mut env).unwrap(), Atom(Int(16)));
    assert_eq!(run("(lambda (x) x)").unwrap().to_string(), "#<lambda (x) x>");
}

#[test]
fn a_lambda_sees_the_scope_it_was_made_in() {
    let mut env = default_env();
    run_in("(set x 1)", &mut env).unwrap();
    run_in("(set f (lambda () x))", &mut env).unwrap();
    run_in("(set x 2)", &mut env).unwrap();
    assert_eq!(run_in("(apply f '())", &mut env).unwrap(), Atom(Int(1)));
    assert_eq!(run_in("x", &mut env).unwrap(), Atom(Int(2)));
}

#[test]
fn many_closures_stay_small() {
    let mut env = default_env();
    for i in 0..200 {
        let line = format!("(set inc{} (lambda (x) (+ x {})))", i, i);
        run_in(&line, &mut env).unwrap();
    }
    assert_eq!(run_in("(apply inc199 '(1))", &mut env).unwrap(), Atom(Int(200)));
    assert_eq!(run_in("(apply inc0 '(1))", &mut env).unwrap(), Atom(Int(1)));
}

#[test]
fn a_closure_made_in_a_call_keeps_the_arguments() {
    let mut env = default_env();
    run_in("(set adder (lambda (n) (lambda (x) (+ x n))))", &mut env).unwrap();
    run_in("(set add5 (apply adder '(5)))", &mut env).unwrap();
    assert_eq!(run_in("(apply add5 '(10))", &mut env).unwrap(), Atom(Int(15)));
    assert_eq!(
        run_in("n", &mut env).unwrap_err(),
        RuspErr::VoidVariable {
            name: "n".to_string()
        }
    );
}

#[test]
fn a_call_leaves_no_binding_behind() {
    let mut env = default_env();
    run_in("((lambda (y) (set z y)) 3)", &mut env).unwrap();
    assert_eq!(
        run_in("y", &mut env).unwrap_err(),
        RuspErr::VoidVariable {
            name: "y".to_string()
        }
    );
    assert_eq!(
        run_in("z", &mut env).unwrap_err(),
        RuspErr::VoidVariable {
            name: "z".to_string()
        }
    );
}

#[test]
fn eval_lambda_wants_a_closure() {
    let mut env = default_env();
    let closure = run_in("(lambda (x) (+ x 1))", &mut env).unwrap();
    let args = read("(41)").unwrap();
    assert_eq!(
        eval_lambda(&closure, &args, &mut env, &HostFloat, 10).unwrap(),
        Atom(Int(42))
    );
    assert_eq!(
        eval_lambda(&Atom(Int(1)), &args, &mut env, &HostFloat, 10).unwrap_err(),
        RuspErr::WrongTypeArgument {
            expected: "lambda".to_string(),
            actual: "1".to_string()
        }
    );
}

#[test]
fn atoms_are_their_own_value() {
    assert_eq!(run("42").unwrap(), Atom(Int(42)));
    assert_eq!(run("\"text\"").unwrap().to_string(), "text");
    assert_eq!(run(":key").unwrap().to_string(), ":key");
    assert_eq!(run("1.5").unwrap(), Atom(Float("1.5".to_string())));
    assert_eq!(run("nil").unwrap(), RuspExp::nil());
    assert_eq!(run("t").unwrap(), Atom(Symbol("t".to_string())));
}

#[test]
fn calls_nest_only_so_deep() {
    let mut env = default_env();
    let x = read("(+ 1 (+ 2 (+ 3 4)))").unwrap();
    assert_eq!(
        eval_bounded(&x, &mut env, &HostFloat, 3).unwrap(),
        Atom(Int(10))
    );
    assert_eq!(
        eval_bounded(&x, &mut env, &HostFloat, 2).unwrap_err(),
        RuspErr::RecursionLimitError
    );
    assert_eq!(
        eval_bounded(&read("5").unwrap(), &mut env, &HostFloat, 0).unwrap(),
        Atom(Int(5))
    );
}

#[test]
fn only_a_blank_line_is_empty() {
    let mut env = default_env();
    for text in ["", " ", "\t\n  ", "\u{3000}"] {
        assert_eq!(rep(text, &mut env, &HostFloat).unwrap_err(), RuspErr::ReplEmptyError);
    }
    for text in ["(+ 1 2.0)", "(< 1 2.5)", "x", ")", "(", "\"", "(/ 1 0)", " 1"] {
        assert_ne!(rep(text, &mut env, &HostFloat), Err(RuspErr::ReplEmptyError), "{:?}", text);
    }
    assert_eq!(env.to_string(), default_env().to_string());
}

#[test]
fn a_free_name_is_found_where_the_closure_was_made() {
    let mut env = default_env();
    run_in("(set v 1)", &mut env).unwrap();
    run_in("(set f (lambda (x y) v))", &mut env).unwrap();
    run_in("(set v 2)", &mut env).unwrap();
    assert_eq!(run_in("(apply f '(10 20))", &mut env).unwrap(), Atom(Int(1)));
    run_in("(set g (lambda (x) w))", &mut env).unwrap();
    run_in("(set w 5)", &mut env).unwrap();
    assert_eq!(
        run_in("(apply g '(1))", &mut env).unwrap_err(),
        RuspErr::VoidVariable {
            name: "w".to_string()
        }
    );
}

#[test]
fn a_larger_bound_changes_nothing() {
    for text in ["(+ 1 (* 2 3))", "((lambda (x) (if (< x 1) 'small 'big)) 5)", "(foo)", "(set y 3)"] {
        let x = read(text).unwrap();
        let mut shallow = default_env();
        let mut deep = default_env();
        let a = eval_bounded(&x, &mut shallow, &HostFloat, 4);
        let b = eval_bounded(&x, &mut deep, &HostFloat, 150);
        assert_ne!(a, Err(RuspErr::RecursionLimitError));
        assert_eq!(a, b);
        assert_eq!(shallow.to_string(), deep.to_string());
    }
}

#[test]
fn a_call_that_never_ends_is_stopped() {
    assert_eq!(MAX_DEPTH, 200);
    let r = run("((lambda (f) (apply f (quote (f)))) (lambda (f) (apply f (quote (f)))))");
    assert_eq!(r.unwrap_err(), RuspErr::RecursionLimitError);
}

#[test]
fn rep_reads_evaluates_and_prints() {
    let mut env = default_env();
    assert_eq!(rep("(+ 1 2 3)", &mut env, &HostFloat).unwrap(), "6");
    assert_eq!(rep("   (quote (a . b))", &mut env, &HostFloat).unwrap(), "(a . b)");
    assert_eq!(rep("(+ 1 2.5)", &mut env, &HostFloat).unwrap(), "3.5");
    assert_eq!(
        rep("", &mut env, &HostFloat).unwrap_err(),
        RuspErr::ReplEmptyError
    );
    assert_eq!(
        rep("  \t ", &mut env, &HostFloat).unwrap_err(),
        RuspErr::ReplEmptyError
    );
    assert_eq!(
        rep("(1 2", &mut env, &HostFloat).unwrap_err(),
        RuspErr::ReaderEofError
    );
    assert_eq!(rep(")", &mut env, &HostFloat).unwrap_err(), RuspErr::ReaderError);
    assert_eq!(
        rep("foo", &mut env, &HostFloat).unwrap_err(),
        RuspErr::VoidVariable {
            name: "foo".to_string()
        }
    );
}
