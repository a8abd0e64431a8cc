//! The built-in forms: arithmetic, comparison, `if`, `quote`, `set`,
//! `lambda` and `apply`. Each takes its argument list as it stands in the
//! call and evaluates of it what its rules say.

use vstd::prelude::*;
use std::rc::Rc;
use crate::arith::{
    arith_values, compare_values, is_float_comparison, is_float_result, views, FloatArith,
};
use crate::evaluator::{agrees, eval_bounded, eval_lambda};
use crate::lists::{extract, list_to_vec, refs};
use crate::model::{ArithOp, Builtin, Failure, Relation, Scope, Sexp};
use crate::semantics;
use crate::text::text;
use crate::types::{copy_env, copy_exp, RuspAtom, RuspEnv, RuspErr, RuspExp};

verus! {

/// The values of `items`, evaluated from left to right in `env`.
pub fn eval_each<F: FloatArith>(
    items: &Vec<&RuspExp>,
    env: &mut RuspEnv,
    fl: &F,
    depth: usize,
) -> (r: Result<Vec<RuspExp>, RuspErr>)
    ensures
        r matches Err(e) ==> e@.is_of_evaluation(),
        ({
            let o = semantics::eval_each(refs(items@), 0, Seq::empty(), old(env)@, depth as nat);
            o.result != Err::<Seq<Sexp>, Failure>(Failure::FloatDependent) ==> final(env)@ == o.env
                && match r {
                Ok(v) => o.result == Ok::<Seq<Sexp>, Failure>(views(v@)),
                Err(e) => o.result == Err::<Seq<Sexp>, Failure>(e@),
            }
        }),
    decreases depth, 1nat, items.len(),
{
    let ghost its = refs(items@);
    let ghost total = semantics::eval_each(its, 0, Seq::empty(), env@, depth as nat);
    let mut out: Vec<RuspExp> = Vec::new();
    let mut i: usize = 0;
    assert(views(out@) =~= Seq::empty());
    while i < items.len()
        invariant
            i <= items.len(),
            its == refs(items@),
            total == semantics::eval_each(its, 0, Seq::empty(), old(env)@, depth as nat),
            total.result == Err::<Seq<Sexp>, Failure>(Failure::FloatDependent) || total
                == semantics::eval_each(its, i as int, views(out@), env@, depth as nat),
        decreases items.len() - i,
    {
        let ghost before = views(out@);
        assert(its[i as int] == items[i as int]@);
        match eval_bounded(items[i], env, fl, depth) {
            Ok(v) => {
                out.push(v);
                assert(views(out@) =~= before.push(v@));
            },
            Err(e) => {
                return Err(e);
            },
        }
        i += 1;
    }
    Ok(out)
}

/// What an arithmetic form gives where its operands evaluate to numbers
/// with a float among them: the float that folding the operands with `fl`
/// gave, and the scope as evaluating the operands left it.
pub open spec fn gives_float<F: FloatArith>(
    fl: &F,
    op: ArithOp,
    args: Sexp,
    env: Scope,
    depth: nat,
    r: Result<RuspExp, RuspErr>,
    after: Scope,
) -> bool {
    match semantics::list_items(args) {
        Some(items) => {
            let vals = semantics::eval_each(items, 0, Seq::empty(), env, depth);
            match vals.result {
                Ok(v) => semantics::arith_result(op, v) == Err::<Sexp, Failure>(
                    Failure::FloatDependent,
                ) ==> after == vals.env && (r matches Ok(x) && is_float_result(fl, op, v, x@)),
                Err(_) => true,
            }
        },
        None => true,
    }
}

/// What a comparison form gives where its operands evaluate to numbers with
/// a float among them: `t` or `nil` as the chain of comparisons by `fl`
/// went, and the scope as evaluating the operands left it.
pub open spec fn compares_floats<F: FloatArith>(
    fl: &F,
    rel: Relation,
    args: Sexp,
    env: Scope,
    depth: nat,
    r: Result<RuspExp, RuspErr>,
    after: Scope,
) -> bool {
    match semantics::list_items(args) {
        Some(items) => {
            let vals = semantics::eval_each(items, 0, Seq::empty(), env, depth);
            match vals.result {
                Ok(v) => semantics::compare_result(rel, v) == Err::<Sexp, Failure>(
                    Failure::FloatDependent,
                ) ==> after == vals.env && (r matches Ok(x) && is_float_comparison(fl, rel, v, x@)),
                Err(_) => true,
            }
        },
        None => true,
    }
}

/// What a built-in form gives where it is an arithmetic or a comparison
/// form whose operands evaluate to numbers with a float among them.
pub open spec fn builtin_on_floats<F: FloatArith>(
    fl: &F,
    b: Builtin,
    args: Sexp,
    env: Scope,
    depth: nat,
    r: Result<RuspExp, RuspErr>,
    after: Scope,
) -> bool {
    match b {
        Builtin::Arith(op) => gives_float(fl, op, args, env, depth, r, after),
        Builtin::Compare(rel) => compares_floats(fl, rel, args, env, depth, r, after),
        _ => true,
    }
}

/// An arithmetic form: evaluates the operands, then combines them.
fn arith_form<F: FloatArith>(
    op: ArithOp,
    arg: &RuspExp,
    env: &mut RuspEnv,
    fl: &F,
    depth: usize,
) -> (r: Result<RuspExp, RuspErr>)
    ensures
        agrees(semantics::arith(op, arg@, old(env)@, depth as nat), r, final(env)@),
        gives_float(fl, op, arg@, old(env)@, depth as nat, r, final(env)@),
    decreases depth, 2nat, 0nat,
{
    let items = match list_to_vec(arg) {
        Ok(items) => items,
        Err(e) => {
            return Err(e);
        },
    };
    let vals = match eval_each(&items, env, fl, depth) {
        Ok(vals) => vals,
        Err(e) => {
            return Err(e);
        },
    };
    arith_values(op, &vals, fl)
}

/// A comparison form: evaluates the operands, then compares them in a chain.
fn compare_form<F: FloatArith>(
    rel: Relation,
    arg: &RuspExp,
    env: &mut RuspEnv,
    fl: &F,
    depth: usize,
) -> (r: Result<RuspExp, RuspErr>)
    ensures
        agrees(semantics::compare(rel, arg@, old(env)@, depth as nat), r, final(env)@),
        compares_floats(fl, rel, arg@, old(env)@, depth as nat, r, final(env)@),
    decreases depth, 2nat, 0nat,
{
    let items = match list_to_vec(arg) {
        Ok(items) => items,
        Err(e) => {
            return Err(e);
        },
    };
    let vals = match eval_each(&items, env, fl, depth) {
        Ok(vals) => vals,
        Err(e) => {
            return Err(e);
        },
    };
    compare_values(rel, &vals, fl)
}

/// `(+ x ...)`: the sum; 0 with no operand.
pub fn arith_plus<F: FloatArith>(arg: &RuspExp, env: &mut RuspEnv, fl: &F, depth: usize) -> (r:
    Result<RuspExp, RuspErr>)
    ensures
        agrees(semantics::arith(ArithOp::Plus, arg@, old(env)@, depth as nat), r, final(env)@),
        gives_float(fl, ArithOp::Plus, arg@, old(env)@, depth as nat, r, final(env)@),
    decreases depth, 3nat, 0nat,
{
    arith_form(ArithOp::Plus, arg, env, fl, depth)
}

/// `(- x y ...)`: `x` less the others; `x` itself alone; 0 with no operand.
pub fn arith_minus<F: FloatArith>(arg: &RuspExp, env: &mut RuspEnv, fl: &F, depth: usize) -> (r:
    Result<RuspExp, RuspErr>)
    ensures
        agrees(semantics::arith(ArithOp::Minus, arg@, old(env)@, depth as nat), r, final(env)@),
        gives_float(fl, ArithOp::Minus, arg@, old(env)@, depth as nat, r, final(env)@),
    decreases depth, 3nat, 0nat,
{
    arith_form(ArithOp::Minus, arg, env, fl, depth)
}

/// `(* x ...)`: the product; 1 with no operand.
pub fn arith_multiply<F: FloatArith>(arg: &RuspExp, env: &mut RuspEnv, fl: &F, depth: usize) -> (r:
    Result<RuspExp, RuspErr>)
    ensures
        agrees(semantics::arith(ArithOp::Multiply, arg@, old(env)@, depth as nat), r, final(env)@),
        gives_float(fl, ArithOp::Multiply, arg@, old(env)@, depth as nat, r, final(env)@),
    decreases depth, 3nat, 0nat,
{
    arith_form(ArithOp::Multiply, arg, env, fl, depth)
}

/// `(/ x y ...)`: `x` divided by the others in turn; `x` itself alone; 1
/// with no operand.
pub fn arith_divide<F: FloatArith>(arg: &RuspExp, env: &mut RuspEnv, fl: &F, depth: usize) -> (r:
    Result<RuspExp, RuspErr>)
    ensures
        agrees(semantics::arith(ArithOp::Divide, arg@, old(env)@, depth as nat), r, final(env)@),
        gives_float(fl, ArithOp::Divide, arg@, old(env)@, depth as nat, r, final(env)@),
    decreases depth, 3nat, 0nat,
{
    arith_form(ArithOp::Divide, arg, env, fl, depth)
}

/// `(= x ...)`: whether each operand equals the next.
pub fn arith_eq<F: FloatArith>(arg: &RuspExp, env: &mut RuspEnv, fl: &F, depth: usize) -> (r:
    Result<RuspExp, RuspErr>)
    ensures
        agrees(semantics::compare(Relation::Equal, arg@, old(env)@, depth as nat), r, final(env)@),
        compares_floats(
            fl,
            Relation::Equal,
            arg@,
            old(env)@,
            depth as nat,
            r,
            final(env)@,
        ),
    decreases depth, 3nat, 0nat,
{
    compare_form(Relation::Equal, arg, env, fl, depth)
}

/// `(!= x ...)`: whether each operand differs from the next.
pub fn arith_neq<F: FloatArith>(arg: &RuspExp, env: &mut RuspEnv, fl: &F, depth: usize) -> (r:
    Result<RuspExp, RuspErr>)
    ensures
        agrees(
            semantics::compare(Relation::NotEqual, arg@, old(env)@, depth as nat),
            r,
            final(env)@,
        ),
        compares_floats(
            fl,
            Relation::NotEqual,
            arg@,
            old(env)@,
            depth as nat,
            r,
            final(env)@,
        ),
    decreases depth, 3nat, 0nat,
{
    compare_form(Relation::NotEqual, arg, env, fl, depth)
}

/// `(< x ...)`: whether each operand is less than the next.
pub fn arith_lt<F: FloatArith>(arg: &RuspExp, env: &mut RuspEnv, fl: &F, depth: usize) -> (r:
    Result<RuspExp, RuspErr>)
    ensures
        agrees(semantics::compare(Relation::Less, arg@, old(env)@, depth as nat), r, final(env)@),
        compares_floats(
            fl,
            Relation::Less,
            arg@,
            old(env)@,
            depth as nat,
            r,
            final(env)@,
        ),
    decreases depth, 3nat, 0nat,
{
    compare_form(Relation::Less, arg, env, fl, depth)
}

/// `(<= x ...)`: whether each operand is at most the next.
pub fn arith_lte<F: FloatArith>(arg: &RuspExp, env: &mut RuspEnv, fl: &F, depth: usize) -> (r:
    Result<RuspExp, RuspErr>)
    ensures
        agrees(
            semantics::compare(Relation::LessOrEqual, arg@, old(env)@, depth as nat),
            r,
            final(env)@,
        ),
        compares_floats(
            fl,
            Relation::LessOrEqual,
            arg@,
            old(env)@,
            depth as nat,
            r,
            final(env)@,
        ),
    decreases depth, 3nat, 0nat,
{
    compare_form(Relation::LessOrEqual, arg, env, fl, depth)
}

/// `(> x ...)`: whether each operand is greater than the next.
pub fn arith_gt<F: FloatArith>(arg: &RuspExp, env: &mut RuspEnv, fl: &F, depth: usize) -> (r:
    Result<RuspExp, RuspErr>)
    ensures
        agrees(
            semantics::compare(Relation::Greater, arg@, old(env)@, depth as nat),
            r,
            final(env)@,
        ),
        compares_floats(
            fl,
            Relation::Greater,
            arg@,
            old(env)@,
            depth as nat,
            r,
            final(env)@,
        ),
    decreases depth, 3nat, 0nat,
{
    compare_form(Relation::Greater, arg, env, fl, depth)
}

/// `(>= x ...)`: whether each operand is at least the next.
pub fn arith_gte<F: FloatArith>(arg: &RuspExp, env: &mut RuspEnv, fl: &F, depth: usize) -> (r:
    Result<RuspExp, RuspErr>)
    ensures
        agrees(
            semantics::compare(Relation::GreaterOrEqual, arg@, old(env)@, depth as nat),
            r,
            final(env)@,
        ),
        compares_floats(
            fl,
            Relation::GreaterOrEqual,
            arg@,
            old(env)@,
            depth as nat,
            r,
            final(env)@,
        ),
    decreases depth, 3nat, 0nat,
{
    compare_form(Relation::GreaterOrEqual, arg, env, fl, depth)
}

/// `(if cond then [else])`.
pub fn if_<F: FloatArith>(arg: &RuspExp, env: &mut RuspEnv, fl: &F, depth: usize) -> (r: Result<
    RuspExp,
    RuspErr,
>)
    ensures
        agrees(semantics::if_form(arg@, old(env)@, depth as nat), r, final(env)@),
    decreases depth, 3nat, 0nat,
{
    let a = match extract(arg, 2, 1) {
        Ok(a) => a,
        Err(e) => {
            return Err(e);
        },
    };
    let c = match eval_bounded(&a[0], env, fl, depth) {
        Ok(c) => c,
        Err(e) => {
            return Err(e);
        },
    };
    if c.non_nil_p() {
        eval_bounded(&a[1], env, fl, depth)
    } else {
        eval_bounded(&a[2], env, fl, depth)
    }
}

/// `(quote x)`.
pub fn quote(arg: &RuspExp, env: &RuspEnv) -> (r: Result<RuspExp, RuspErr>)
    ensures
        agrees(semantics::quote_form(arg@, env@), r, env@),
{
    let a = match extract(arg, 1, 0) {
        Ok(a) => a,
        Err(e) => {
            return Err(e);
        },
    };
    Ok(copy_exp(&a[0]))
}

/// `(set name value)`.
pub fn set<F: FloatArith>(arg: &RuspExp, env: &mut RuspEnv, fl: &F, depth: usize) -> (r: Result<
    RuspExp,
    RuspErr,
>)
    ensures
        agrees(semantics::set_form(arg@, old(env)@, depth as nat), r, final(env)@),
    decreases depth, 3nat, 0nat,
{
    let a = match extract(arg, 2, 0) {
        Ok(a) => a,
        Err(e) => {
            return Err(e);
        },
    };
    match &a[0] {
        RuspExp::Atom(RuspAtom::Symbol(name)) => {
            let value = match eval_bounded(&a[1], env, fl, depth) {
                Ok(v) => v,
                Err(e) => {
                    return Err(e);
                },
            };
            env.bind_variable(name.clone(), copy_exp(&value));
            Ok(value)
        },
        other => Err(
            RuspErr::WrongTypeArgument { expected: text("symbol"), actual: other.to_string() },
        ),
    }
}

/// `(setq name value)`: as `set`.
pub fn setq<F: FloatArith>(arg: &RuspExp, env: &mut RuspEnv, fl: &F, depth: usize) -> (r: Result<
    RuspExp,
    RuspErr,
>)
    ensures
        agrees(semantics::set_form(arg@, old(env)@, depth as nat), r, final(env)@),
    decreases depth, 4nat, 0nat,
{
    set(arg, env, fl, depth)
}

/// `(lambda params body)`.
pub fn lambda(arg: &RuspExp, env: &RuspEnv) -> (r: Result<RuspExp, RuspErr>)
    ensures
        agrees(semantics::lambda_form(arg@, env@), r, env@),
{
    let a = match extract(arg, 2, 0) {
        Ok(a) => a,
        Err(e) => {
            return Err(e);
        },
    };
    Ok(
        RuspExp::Atom(
            RuspAtom::Lambda {
                params: Box::new(copy_exp(&a[0])),
                body: Box::new(copy_exp(&a[1])),
                env: Rc::new(copy_env(env)),
            },
        ),
    )
}

/// `(apply f args)`.
pub fn apply<F: FloatArith>(arg: &RuspExp, env: &mut RuspEnv, fl: &F, depth: usize) -> (r: Result<
    RuspExp,
    RuspErr,
>)
    ensures
        agrees(semantics::apply_form(arg@, old(env)@, depth as nat), r, final(env)@),
    decreases depth, 3nat, 0nat,
{
    let a = match extract(arg, 2, 0) {
        Ok(a) => a,
        Err(e) => {
            return Err(e);
        },
    };
    let f = match eval_bounded(&a[0], env, fl, depth) {
        Ok(f) => f,
        Err(e) => {
            return Err(e);
        },
    };
    let list = match eval_bounded(&a[1], env, fl, depth) {
        Ok(l) => l,
        Err(e) => {
            return Err(e);
        },
    };
    eval_lambda(&f, &list, env, fl, depth)
}

/// Calls the built-in form `b` with the argument list `arg`.
pub fn call_builtin<F: FloatArith>(
    b: Builtin,
    arg: &RuspExp,
    env: &mut RuspEnv,
    fl: &F,
    depth: usize,
) -> (r: Result<RuspExp, RuspErr>)
    ensures
        agrees(semantics::call_builtin(b, arg@, old(env)@, depth as nat), r, final(env)@),
        builtin_on_floats(fl, b, arg@, old(env)@, depth as nat, r, final(env)@),
    decreases depth, 5nat, 0nat,
{
    match b {
        Builtin::Arith(ArithOp::Plus) => arith_plus(arg, env, fl, depth),
        Builtin::Arith(ArithOp::Minus) => arith_minus(arg, env, fl, depth),
        Builtin::Arith(ArithOp::Multiply) => arith_multiply(arg, env, fl, depth),
        Builtin::Arith(ArithOp::Divide) => arith_divide(arg, env, fl, depth),
        Builtin::Compare(Relation::Equal) => arith_eq(arg, env, fl, depth),
        Builtin::Compare(Relation::NotEqual) => arith_neq(arg, env, fl, depth),
        Builtin::Compare(Relation::Less) => arith_lt(arg, env, fl, depth),
        Builtin::Compare(Relation::LessOrEqual) => arith_lte(arg, env, fl, depth),
        Builtin::Compare(Relation::Greater) => arith_gt(arg, env, fl, depth),
        Builtin::Compare(Relation::GreaterOrEqual) => arith_gte(arg, env, fl, depth),
        Builtin::IfForm => if_(arg, env, fl, depth),
        Builtin::SetForm => set(arg, env, fl, depth),
        Builtin::SetqForm => setq(arg, env, fl, depth),
        Builtin::QuoteForm => quote(arg, env),
        Builtin::LambdaForm => lambda(arg, env),
        Builtin::ApplyForm => apply(arg, env, fl, depth),
    }
}

} // verus!
