use rusp::evaluator::default_env;
use rusp::lists::{extract, list_to_vec, param_list};
use rusp::evaluator::read;
use rusp::model::{ArithOp, Builtin, Relation};
use rusp::types::RuspAtom::{Func, Int};
use rusp::types::RuspExp::Atom;
use rusp::types::{RuspEnv, RuspErr, RuspExp};
use rusp::util::{safe_zip_eq, UtliErr};

#[test]
fn lookup_goes_outwards() {
    let mut outer = RuspEnv::new();
    outer.bind_variable("x".to_string(), Atom(Int(1)));
    outer.bind_variable("y".to_string(), Atom(Int(2)));
    outer.bind_function("f".to_string(), Atom(Int(3)));
    let mut inner = RuspEnv::child_of(outer);
    inner.bind_variable("x".to_string(), Atom(Int(10)));
    assert_eq!(inner.get_variable("x").unwrap(), &Atom(Int(10)));
    assert_eq!(inner.get_variable("y").unwrap(), &Atom(Int(2)));
    assert_eq!(inner.get_function("f").unwrap(), &Atom(Int(3)));
    assert_eq!(
        inner.get_variable("z").unwrap_err(),
        RuspErr::VoidVariable {
            name: "z".to_string()
        }
    );
    assert_eq!(
        inner.get_function("x").unwrap_err(),
        RuspErr::VoidFunction {
            name: "x".to_string()
        }
    );
    assert_eq!(
        inner.get_variable("f").unwrap_err(),
        RuspErr::VoidVariable {
            name: "f".to_string()
        }
    );
    let outer = inner.outer.as_ref().unwrap();
    assert_eq!(outer.get_variable("x").unwrap(), &Atom(Int(1)));
}

#[test]
fn binding_again_replaces() {
    let mut env = RuspEnv::new();
    env.bind_variable("x".to_string(), Atom(Int(1)));
    env.bind_variable("y".to_string(), Atom(Int(2)));
    env.bind_variable("x".to_string(), Atom(Int(3)));
    assert_eq!(env.get_variable("x").unwrap(), &Atom(Int(3)));
    assert_eq!(env.get_variable("y").unwrap(), &Atom(Int(2)));
    assert_eq!(env.variable.len(), 2);
    assert_eq!(env.function.len(), 0);
}

#[test]
fn the_default_environment_has_the_builtins() {
    let env = default_env();
    assert_eq!(env.get_variable("nil").unwrap(), &RuspExp::nil());
    assert_eq!(env.get_variable("t").unwrap(), &RuspExp::t());
    let expected = [
        ("+", Builtin::Arith(ArithOp::Plus)),
        ("-", Builtin::Arith(ArithOp::Minus)),
        ("*", Builtin::Arith(ArithOp::Multiply)),
        ("/", Builtin::Arith(ArithOp::Divide)),
        ("<", Builtin::Compare(Relation::Less)),
        ("<=", Builtin::Compare(Relation::LessOrEqual)),
        (">", Builtin::Compare(Relation::Greater)),
        (">=", Builtin::Compare(Relation::GreaterOrEqual)),
        ("=", Builtin::Compare(Relation::Equal)),
        ("!=", Builtin::Compare(Relation::NotEqual)),
        ("if", Builtin::IfForm),
        ("set", Builtin::SetForm),
        ("setq", Builtin::SetqForm),
        ("quote", Builtin::QuoteForm),
        ("lambda", Builtin::LambdaForm),
        ("apply", Builtin::ApplyForm),
    ];
    for (name, tag) in expected {
        match env.get_function(name).unwrap() {
            Atom(Func(b)) => assert_eq!(*b, tag),
            other => panic!("{} is bound to {:?}", name, other),
        }
    }
    assert_eq!(env.function.len(), expected.len());
    assert_eq!(env.variable.len(), 2);
    assert!(env.outer.is_none());
}

#[test]
fn predicates_tell_the_kinds_apart() {
    let nil = RuspExp::nil();
    assert!(nil.nilp() && !nil.non_nil_p() && nil.atom() && nil.listp() && nil.symbolp());
    let list = read("(1 2)").unwrap();
    assert!(list.consp() && list.listp() && !list.atom() && list.non_nil_p());
    let i = read("1").unwrap();
    assert!(i.intp() && i.numberp() && !i.floatp() && !i.listp() && i.atom());
    let f = read("1.5").unwrap();
    assert!(f.floatp() && f.numberp() && !f.intp());
    let s = read("\"s\"").unwrap();
    assert!(s.stringp() && !s.symbolp() && !s.numberp());
    let plus = Atom(Func(Builtin::Arith(ArithOp::Plus)));
    assert!(plus.functionp() && !i.functionp());
    assert!(RuspExp::t().symbolp() && !RuspExp::t().nilp());
    assert_eq!(RuspExp::symbol("a"), read("a").unwrap());
    assert_eq!(RuspExp::integer(5), read("5").unwrap());
    assert_eq!(
        RuspExp::cons(RuspExp::integer(1), RuspExp::nil()),
        read("(1)").unwrap()
    );
}

#[test]
fn car_and_cdr_take_a_pair_apart() {
    let list = read("(1 2 3)").unwrap();
    assert_eq!(list.car().unwrap(), &Atom(Int(1)));
    assert_eq!(list.cdr().unwrap().to_string(), "(2 3)");
    assert_eq!(
        Atom(Int(5)).car().unwrap_err(),
        RuspErr::WrongTypeArgument {
            expected: "cons".to_string(),
            actual: "5".to_string()
        }
    );
    assert_eq!(
        RuspExp::nil().cdr().unwrap_err(),
        RuspErr::WrongTypeArgument {
            expected: "cons".to_string(),
            actual: "nil".to_string()
        }
    );
}

#[test]
fn a_list_is_walked_element_by_element() {
    let list = read("(1 2)").unwrap();
    let mut it = list.into_iter();
    assert_eq!(it.next().unwrap().unwrap(), &Atom(Int(1)));
    assert_eq!(it.next().unwrap().unwrap(), &Atom(Int(2)));
    assert!(it.next().is_none());
    assert!(it.next().is_none());
    let pair = read("(1 . 2)").unwrap();
    let mut it = pair.into_iter();
    assert_eq!(it.next().unwrap().unwrap(), &Atom(Int(1)));
    let expected = RuspErr::WrongTypeArgument {
        expected: "nil".to_string(),
        actual: "2".to_string(),
    };
    assert_eq!(it.next().unwrap().unwrap_err(), expected);
    assert_eq!(it.next().unwrap().unwrap_err(), expected);
}

#[test]
fn elements_are_changed_in_place() {
    let mut list = read("(1 2 3)").unwrap();
    {
        let mut items = list.iter_mut();
        assert_eq!(items.len(), 3);
        let second = items.remove(1).unwrap();
        assert_eq!(*second, Atom(Int(2)));
        *second = RuspExp::symbol("two");
        let first = items.remove(0).unwrap();
        *first = read("(a b)").unwrap();
    }
    assert_eq!(list.to_string(), "((a b) two 3)");

    let mut pair = read("(1 . 2)").unwrap();
    {
        let mut items = pair.iter_mut();
        assert_eq!(items.len(), 2);
        assert_eq!(
            items.pop().unwrap().unwrap_err(),
            RuspErr::WrongTypeArgument {
                expected: "list".to_string(),
                actual: "2".to_string()
            }
        );
        *items.pop().unwrap().unwrap() = Atom(Int(10));
    }
    assert_eq!(pair.to_string(), "(10 . 2)");
    assert_eq!(RuspExp::nil().iter_mut().len(), 0);
    assert_eq!(Atom(Int(5)).iter_mut().len(), 1);
}

#[test]
fn a_scope_prints_its_bindings() {
    let mut env = RuspEnv::new();
    assert_eq!(env.to_string(), "(var () fn ())");
    env.bind_variable("x".to_string(), Atom(Int(1)));
    env.bind_variable("y".to_string(), read("(a b)").unwrap());
    env.bind_function("f".to_string(), Atom(Func(Builtin::IfForm)));
    assert_eq!(env.to_string(), "(var ((x 1) (y (a b))) fn ((f #<function>)))");
    let inner = RuspEnv::child_of(env);
    assert_eq!(inner.to_string(), "(var () fn ())");
}

#[test]
fn lists_become_vectors() {
    let list = read("(a (b) 3)").unwrap();
    let items = list_to_vec(&list).unwrap();
    assert_eq!(items.len(), 3);
    assert_eq!(items[1].to_string(), "(b)");
    assert_eq!(list_to_vec(&RuspExp::nil()).unwrap().len(), 0);
    assert_eq!(
        list_to_vec(&read("(a . b)").unwrap()).unwrap_err(),
        RuspErr::WrongTypeArgument {
            expected: "list".to_string(),
            actual: "b".to_string()
        }
    );
    assert_eq!(
        param_list(&read("(x y)").unwrap()).unwrap(),
        vec!["x".to_string(), "y".to_string()]
    );
    assert_eq!(param_list(&RuspExp::nil()).unwrap(), Vec::<String>::new());
    assert!(param_list(&read("(x 1)").unwrap()).is_none());
    assert!(param_list(&read("(x . y)").unwrap()).is_none());
    assert!(param_list(&read("x").unwrap()).is_none());
}

#[test]
fn arguments_are_counted_and_padded() {
    let args = read("(a b)").unwrap();
    let got = extract(&args, 2, 1).unwrap();
    assert_eq!(got.len(), 3);
    assert_eq!(got[0], RuspExp::symbol("a"));
    assert_eq!(got[1], RuspExp::symbol("b"));
    assert_eq!(got[2], RuspExp::nil());
    assert_eq!(extract(&args, 2, 0).unwrap().len(), 2);
    assert_eq!(
        extract(&args, 3, 1).unwrap_err(),
        RuspErr::WrongNumberOfArguments {
            required: 3,
            allowed: Some(4),
            actual: 2
        }
    );
    assert_eq!(
        extract(&args, 0, 1).unwrap_err(),
        RuspErr::WrongNumberOfArguments {
            required: 0,
            allowed: Some(1),
            actual: 2
        }
    );
    assert_eq!(
        extract(&read("(a . b)").unwrap(), 1, 0).unwrap_err(),
        RuspErr::WrongTypeArgument {
            expected: "list".to_string(),
            actual: "b".to_string()
        }
    );
}

#[test]
fn two_sequences_are_walked_in_step() {
    let mut zip = safe_zip_eq(vec![1, 2], vec!["a", "b"]);
    assert_eq!(zip.next(), Some(Ok((1, "a"))));
    assert_eq!(zip.next(), Some(Ok((2, "b"))));
    assert_eq!(zip.next(), None);
    assert_eq!(zip.next(), None);

    let mut zip = safe_zip_eq(vec![1, 2, 3], vec!["a"]);
    assert_eq!(zip.next(), Some(Ok((1, "a"))));
    assert_eq!(zip.next(), Some(Err(UtliErr::NoSameLengthIteratorError)));
    assert_eq!(zip.next(), Some(Err(UtliErr::NoSameLengthIteratorError)));
    assert_eq!(zip.next(), None);

    let mut zip = safe_zip_eq(Vec::<i32>::new(), vec!["a"]);
    assert_eq!(zip.next(), Some(Err(UtliErr::NoSameLengthIteratorError)));
    assert_eq!(zip.next(), None);
}
