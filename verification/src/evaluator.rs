//! The evaluator and the read-eval-print step.

use vstd::prelude::*;
use crate::arith::FloatArith;
use crate::builtin::{builtin_on_floats, call_builtin};
use crate::grammar::{read_at, skip_space};
use crate::lists::{list_to_vec, param_list, refs, strings};
use crate::model::{ArithOp, Builtin, Failure, Relation, Scope, Sexp};
use crate::printer::print as print_model;
use crate::reader::Reader;
use crate::semantics;
use crate::semantics::Outcome;
use crate::text::{is_text, text};
use crate::types::{
    copy_exp, exp_view, result_view, share, RuspAtom, RuspEnv, RuspErr, RuspExp,
};
use crate::util::safe_zip_eq;

verus! {

/// How deep calls may nest when no bound is given.
pub const MAX_DEPTH: usize = 200;

/// The result `r` and the scope `env` are what the model says, and a
/// failure is one that evaluation can end in. Where the model's outcome
/// rests on floating-point arithmetic, only the latter is said here.
pub open spec fn agrees(o: Outcome, r: Result<RuspExp, RuspErr>, env: Scope) -> bool {
    &&& r matches Err(e) ==> e@.is_of_evaluation()
    &&& o.result != Err::<Sexp, Failure>(Failure::FloatDependent) ==> result_view(r) == o.result
        && env == o.env
}

/// What evaluating `x` gives where `x` is the call of an arithmetic or a
/// comparison form whose operands evaluate to numbers with a float among
/// them: the float, or `t` or `nil`, that `fl` gave.
pub open spec fn call_on_floats<F: FloatArith>(
    fl: &F,
    x: Sexp,
    env: Scope,
    depth: nat,
    r: Result<RuspExp, RuspErr>,
    after: Scope,
) -> bool {
    match x {
        Sexp::Cons { car, cdr } => match (*car, depth > 0) {
            (Sexp::Symbol(name), true) => match env.function_of(name) {
                Some(Sexp::Func(b)) => builtin_on_floats(
                    fl,
                    b,
                    *cdr,
                    env,
                    (depth - 1) as nat,
                    r,
                    after,
                ),
                _ => true,
            },
            _ => true,
        },
        _ => true,
    }
}

/// The scope that a session starts in: `nil` and `t` as variables, and the
/// built-in forms as functions.
pub open spec fn default_scope() -> Scope {
    Scope::empty().bind_variable("nil"@, crate::model::nil()).bind_variable(
        "t"@,
        crate::model::truth(),
    ).bind_function("+"@, Sexp::Func(Builtin::Arith(ArithOp::Plus))).bind_function(
        "-"@,
        Sexp::Func(Builtin::Arith(ArithOp::Minus)),
    ).bind_function("*"@, Sexp::Func(Builtin::Arith(ArithOp::Multiply))).bind_function(
        "/"@,
        Sexp::Func(Builtin::Arith(ArithOp::Divide)),
    ).bind_function("<"@, Sexp::Func(Builtin::Compare(Relation::Less))).bind_function(
        "<="@,
        Sexp::Func(Builtin::Compare(Relation::LessOrEqual)),
    ).bind_function(">"@, Sexp::Func(Builtin::Compare(Relation::Greater))).bind_function(
        ">="@,
        Sexp::Func(Builtin::Compare(Relation::GreaterOrEqual)),
    ).bind_function("="@, Sexp::Func(Builtin::Compare(Relation::Equal))).bind_function(
        "!="@,
        Sexp::Func(Builtin::Compare(Relation::NotEqual)),
    ).bind_function("if"@, Sexp::Func(Builtin::IfForm)).bind_function(
        "set"@,
        Sexp::Func(Builtin::SetForm),
    ).bind_function("setq"@, Sexp::Func(Builtin::SetqForm)).bind_function(
        "quote"@,
        Sexp::Func(Builtin::QuoteForm),
    ).bind_function("lambda"@, Sexp::Func(Builtin::LambdaForm)).bind_function(
        "apply"@,
        Sexp::Func(Builtin::ApplyForm),
    )
}

fn define(env: &mut RuspEnv, name: &str, b: Builtin)
    ensures
        final(env)@ == old(env)@.bind_function(name@, Sexp::Func(b)),
{
    env.bind_function(text(name), RuspExp::Atom(RuspAtom::Func(b)));
}

/// The environment that a session starts in.
pub fn default_env() -> (r: RuspEnv)
    ensures
        r@ == default_scope(),
{
    let mut env = RuspEnv::new();
    env.bind_variable(text("nil"), RuspExp::nil());
    env.bind_variable(text("t"), RuspExp::t());
    define(&mut env, "+", Builtin::Arith(ArithOp::Plus));
    define(&mut env, "-", Builtin::Arith(ArithOp::Minus));
    define(&mut env, "*", Builtin::Arith(ArithOp::Multiply));
    define(&mut env, "/", Builtin::Arith(ArithOp::Divide));
    define(&mut env, "<", Builtin::Compare(Relation::Less));
    define(&mut env, "<=", Builtin::Compare(Relation::LessOrEqual));
    define(&mut env, ">", Builtin::Compare(Relation::Greater));
    define(&mut env, ">=", Builtin::Compare(Relation::GreaterOrEqual));
    define(&mut env, "=", Builtin::Compare(Relation::Equal));
    define(&mut env, "!=", Builtin::Compare(Relation::NotEqual));
    define(&mut env, "if", Builtin::IfForm);
    define(&mut env, "set", Builtin::SetForm);
    define(&mut env, "setq", Builtin::SetqForm);
    define(&mut env, "quote", Builtin::QuoteForm);
    define(&mut env, "lambda", Builtin::LambdaForm);
    define(&mut env, "apply", Builtin::ApplyForm);
    env
}

/// What reading the first expression of a text gives.
pub open spec fn read_model(input: Seq<char>) -> Result<Sexp, Failure> {
    read_at(input, 0).result
}

/// Reads the first expression of `x`.
pub fn read(x: &str) -> (r: Result<RuspExp, RuspErr>)
    ensures
        result_view(r) == read_model(x@),
{
    let mut reader = Reader::new(x);
    reader.read()
}

/// The text of `x`.
pub fn print(x: &RuspExp) -> (r: Result<String, RuspErr>)
    ensures
        r matches Ok(s) && s@ == print_model(x@),
{
    Ok(x.to_string())
}

fn is_lambda_form(x: &RuspExp) -> (r: bool)
    ensures
        r == semantics::is_lambda_form(x@),
{
    proof {
        reveal_with_fuel(exp_view, 2);
    }
    match x {
        RuspExp::Cons { car, cdr } => match &**car {
            RuspExp::Atom(RuspAtom::Symbol(s)) => is_text(s, "lambda"),
            _ => false,
        },
        _ => false,
    }
}

/// Calls the closure `func` with the arguments `args`, which are evaluated
/// in `env`.
pub fn eval_lambda<F: FloatArith>(
    func: &RuspExp,
    args: &RuspExp,
    env: &mut RuspEnv,
    fl: &F,
    depth: usize,
) -> (r: Result<RuspExp, RuspErr>)
    ensures
        agrees(semantics::apply_closure(func@, args@, old(env)@, depth as nat), r, final(env)@),
    decreases depth, 2nat, 0nat,
{
    match func {
        RuspExp::Atom(RuspAtom::Lambda { params, body, env: captured }) => {
            let names = match param_list(params) {
                Some(names) => names,
                None => {
                    return Err(
                        RuspErr::WrongTypeArgument {
                            expected: text("list<symbol>"),
                            actual: params.to_string(),
                        },
                    );
                },
            };
            let items = match list_to_vec(args) {
                Ok(items) => items,
                Err(e) => {
                    return Err(e);
                },
            };
            let required = names.len();
            let actual = items.len();
            let ghost ns = strings(names@);
            let ghost its = refs(items@);
            let mut scope = RuspEnv::child_in(share(captured));
            let ghost total = semantics::bind_args(ns, its, 0, env@, scope@, depth as nat);
            let mut pairs = safe_zip_eq(names, items);
            let ghost mut i: int = 0;
            assert(ns.subrange(0, ns.len() as int) =~= ns);
            assert(its.subrange(0, its.len() as int) =~= its);
            loop
                invariant
                    0 <= i <= ns.len(),
                    i <= its.len(),
                    required == ns.len(),
                    actual == its.len(),
                    strings(pairs.left()) == ns.subrange(i, ns.len() as int),
                    refs(pairs.right()) == its.subrange(i, its.len() as int),
                    total.result == Err::<Scope, Failure>(Failure::FloatDependent) || total
                        == semantics::bind_args(ns, its, i, env@, scope@, depth as nat),
                    semantics::apply_closure(func@, args@, old(env)@, depth as nat) == match total.result {
                        Err(e) => semantics::fail(e, total.env),
                        Ok(s) => Outcome {
                            result: semantics::eval(body@, s, depth as nat).result,
                            env: total.env,
                        },
                    },
                decreases ns.len() - i,
            {
                let ghost left = pairs.left();
                let ghost right = pairs.right();
                assert(strings(left).len() == ns.len() - i);
                assert(refs(right).len() == its.len() - i);
                match pairs.next() {
                    None => {
                        let mut scope = scope;
                        return eval_bounded(body, &mut scope, fl, depth);
                    },
                    Some(Ok((name, item))) => {
                        assert(name@ == strings(left)[0]);
                        assert(item@ == refs(right)[0]);
                        assert(strings(pairs.left()) =~= strings(left).drop_first());
                        assert(refs(pairs.right()) =~= refs(right).drop_first());
                        assert(strings(pairs.left()) =~= ns.subrange(i + 1, ns.len() as int));
                        assert(refs(pairs.right()) =~= its.subrange(i + 1, its.len() as int));
                        let value = match eval_bounded(item, env, fl, depth) {
                            Ok(v) => v,
                            Err(e) => {
                                return Err(e);
                            },
                        };
                        scope.bind_variable(name, value);
                        proof {
                            i = i + 1;
                        }
                    },
                    Some(Err(_)) => {
                        return Err(
                            RuspErr::WrongNumberOfArguments {
                                required,
                                allowed: Some(required),
                                actual,
                            },
                        );
                    },
                }
            }
        },
        _ => Err(RuspErr::WrongTypeArgument { expected: text("lambda"), actual: func.to_string() }),
    }
}

/// The value of `x` in `env`, with calls nested at most `depth` deep.
/// Floating-point arithmetic is done by `fl`.
pub fn eval_bounded<F: FloatArith>(x: &RuspExp, env: &mut RuspEnv, fl: &F, depth: usize) -> (r:
    Result<RuspExp, RuspErr>)
    ensures
        agrees(semantics::eval(x@, old(env)@, depth as nat), r, final(env)@),
        call_on_floats(fl, x@, old(env)@, depth as nat, r, final(env)@),
    decreases depth, 0nat, 0nat,
{
    proof {
        reveal_with_fuel(exp_view, 2);
    }
    match x {
        RuspExp::Atom(RuspAtom::Symbol(s)) => match env.get_variable(s.as_str()) {
            Ok(v) => Ok(copy_exp(v)),
            Err(e) => Err(e),
        },
        RuspExp::Atom(_) => Ok(copy_exp(x)),
        RuspExp::Cons { car, cdr } => {
            if depth == 0 {
                return Err(RuspErr::RecursionLimitError);
            }
            match &**car {
                RuspExp::Atom(RuspAtom::Symbol(s)) => {
                    let f = match env.get_function(s.as_str()) {
                        Ok(f) => copy_exp(f),
                        Err(e) => {
                            return Err(e);
                        },
                    };
                    match &f {
                        RuspExp::Atom(RuspAtom::Func(b)) => call_builtin(
                            *b,
                            cdr,
                            env,
                            fl,
                            depth - 1,
                        ),
                        RuspExp::Atom(RuspAtom::Lambda { .. }) => eval_lambda(
                            &f,
                            cdr,
                            env,
                            fl,
                            depth - 1,
                        ),
                        _ => Err(
                            RuspErr::WrongTypeArgument {
                                expected: text("function"),
                                actual: f.to_string(),
                            },
                        ),
                    }
                },
                _ => {
                    if is_lambda_form(car) {
                        let f = match eval_bounded(car, env, fl, depth - 1) {
                            Ok(f) => f,
                            Err(e) => {
                                return Err(e);
                            },
                        };
                        eval_lambda(&f, cdr, env, fl, depth - 1)
                    } else {
                        Err(
                            RuspErr::WrongTypeArgument {
                                expected: text("symbol"),
                                actual: car.to_string(),
                            },
                        )
                    }
                },
            }
        },
    }
}

/// The value of `x` in `env`, with calls nested at most `MAX_DEPTH` deep.
pub fn eval<F: FloatArith>(x: &RuspExp, env: &mut RuspEnv, fl: &F) -> (r: Result<RuspExp, RuspErr>)
    ensures
        agrees(semantics::eval(x@, old(env)@, MAX_DEPTH as nat), r, final(env)@),
        call_on_floats(fl, x@, old(env)@, MAX_DEPTH as nat, r, final(env)@),
{
    eval_bounded(x, env, fl, MAX_DEPTH)
}

/// What one read-eval-print step gives for the text `input` in `env`: the
/// text of the value of the first expression of `input`. A text of white
/// space only is `ReplEmpty`.
pub open spec fn rep_model(input: Seq<char>, env: Scope) -> (Result<Seq<char>, Failure>, Scope) {
    if skip_space(input, 0) >= input.len() {
        (Err(Failure::ReplEmpty), env)
    } else {
        match read_model(input) {
            Err(e) => (Err(e), env),
            Ok(x) => {
                let o = semantics::eval(x, env, MAX_DEPTH as nat);
                match o.result {
                    Err(e) => (Err(e), o.env),
                    Ok(v) => (Ok(print_model(v)), o.env),
                }
            },
        }
    }
}

/// `r` is the text of `value`, or the failure that `value` is.
pub open spec fn is_text_of(r: Result<String, RuspErr>, value: Result<RuspExp, RuspErr>) -> bool {
    match value {
        Ok(v) => r matches Ok(s) && s@ == print_model(v@),
        Err(e) => r matches Err(f) && f@ == e@,
    }
}

/// What one read-eval-print step gives where the text reads as the call of
/// an arithmetic or a comparison form whose operands evaluate to numbers
/// with a float among them: the text of the float, or of `t` or `nil`, that
/// `fl` gave.
pub open spec fn rep_on_floats<F: FloatArith>(
    fl: &F,
    input: Seq<char>,
    env: Scope,
    r: Result<String, RuspErr>,
    after: Scope,
) -> bool {
    match read_model(input) {
        Ok(form) => exists|value: Result<RuspExp, RuspErr>|
            #[trigger] call_on_floats(fl, form, env, MAX_DEPTH as nat, value, after) && is_text_of(
                r,
                value,
            ),
        Err(_) => true,
    }
}

/// Reads the first expression of `x`, evaluates it in `env` and gives the
/// text of its value.
pub fn rep<F: FloatArith>(x: &str, env: &mut RuspEnv, fl: &F) -> (r: Result<String, RuspErr>)
    ensures
        (r matches Err(e) && e@ == Failure::ReplEmpty) <==> skip_space(x@, 0) >= x@.len(),
        skip_space(x@, 0) >= x@.len() ==> final(env)@ == old(env)@,
        skip_space(x@, 0) < x@.len() ==> rep_on_floats(fl, x@, old(env)@, r, final(env)@),
        ({
            let m = rep_model(x@, old(env)@);
            m.0 != Err::<Seq<char>, Failure>(Failure::FloatDependent) ==> final(env)@ == m.1
                && match r {
                Ok(s) => m.0 == Ok::<Seq<char>, Failure>(s@),
                Err(e) => m.0 == Err::<Seq<char>, Failure>(e@),
            }
        }),
{
    let mut reader = Reader::new(x);
    if reader.at_end() {
        return Err(RuspErr::ReplEmptyError);
    }
    proof {
        crate::laws::law_reader_failures(x@, 0);
    }
    let exp = match reader.read() {
        Ok(exp) => exp,
        Err(e) => {
            return Err(e);
        },
    };
    let ghost before = env@;
    let value = eval(&exp, env, fl);
    let ghost given = value;
    let r = match value {
        Ok(v) => Ok(v.to_string()),
        Err(e) => Err(e),
    };
    assert(call_on_floats(fl, exp@, before, MAX_DEPTH as nat, given, env@) && is_text_of(r, given));
    r
}

} // verus!
