//! What evaluation means: a function from an expression, a scope and a bound
//! on the nesting of calls to a result and the scope afterwards.
//!
//! Arithmetic on integers is exact and checked. What floating-point
//! arithmetic gives is not described here: where a result rests on it, the
//! model says `FloatDependent` and no more.

use vstd::prelude::*;
use crate::model::{nil, truth, ArithOp, Builtin, Failure, Relation, Scope, Sexp};
use crate::printer::print;

verus! {

/// What an evaluation gives: a value or a failure, and the scope as the
/// evaluation left it.
pub struct Outcome {
    pub result: Result<Sexp, Failure>,
    pub env: Scope,
}

pub open spec fn done(value: Sexp, env: Scope) -> Outcome {
    Outcome { result: Ok(value), env }
}

pub open spec fn fail(failure: Failure, env: Scope) -> Outcome {
    Outcome { result: Err(failure), env }
}

/// What evaluating a list of expressions in order gives.
pub struct Values {
    pub result: Result<Seq<Sexp>, Failure>,
    pub env: Scope,
}

/// What binding the arguments of a call gives: the caller's scope after the
/// arguments were evaluated, and the scope of the call.
pub struct Bindings {
    pub result: Result<Scope, Failure>,
    pub env: Scope,
}

pub open spec fn wrong_type(expected: Seq<char>, actual: Sexp) -> Failure {
    Failure::WrongTypeArgument { expected, actual: print(actual) }
}

pub open spec fn wrong_count(required: nat, allowed: nat, actual: nat) -> Failure {
    Failure::WrongNumberOfArguments { required, allowed: Some(allowed), actual }
}

/// The elements of a list, or `None` if `x` does not end in `nil`.
pub open spec fn list_items(x: Sexp) -> Option<Seq<Sexp>>
    decreases x,
{
    match x {
        Sexp::Cons { car, cdr } => match list_items(*cdr) {
            Some(rest) => Some(seq![*car] + rest),
            None => None,
        },
        _ => if x == nil() {
            Some(Seq::empty())
        } else {
            None
        },
    }
}

/// The last tail of `x`: what stands where a list has `nil`.
pub open spec fn list_tail(x: Sexp) -> Sexp
    decreases x,
{
    match x {
        Sexp::Cons { car, cdr } => list_tail(*cdr),
        _ => x,
    }
}

/// The failure for an argument list that does not end in `nil`.
pub open spec fn not_a_list(x: Sexp) -> Failure {
    wrong_type("list"@, list_tail(x))
}

/// The arguments of a form that takes `required` arguments and up to
/// `optional` more: the elements of `args`, with `nil` for each optional one
/// that is left out.
pub open spec fn extract_args(args: Sexp, required: nat, optional: nat) -> Result<
    Seq<Sexp>,
    Failure,
> {
    match list_items(args) {
        None => Err(not_a_list(args)),
        Some(items) => if required <= items.len() <= required + optional {
            Ok(items + Seq::new((required + optional - items.len()) as nat, |i: int| nil()))
        } else {
            Err(wrong_count(required, required + optional, items.len()))
        },
    }
}

/// The names of a parameter list: `params` must be a list of symbols.
pub open spec fn param_names(params: Sexp) -> Option<Seq<Seq<char>>>
    decreases params,
{
    match params {
        Sexp::Cons { car, cdr } => match (*car, param_names(*cdr)) {
            (Sexp::Symbol(name), Some(rest)) => Some(seq![name] + rest),
            _ => None,
        },
        _ => if params == nil() {
            Some(Seq::empty())
        } else {
            None
        },
    }
}

pub open spec fn in_i64(i: int) -> bool {
    i64::MIN <= i <= i64::MAX
}

/// Division that rounds towards zero.
pub open spec fn quotient(a: int, b: int) -> int
    recommends
        b != 0,
{
    if a >= 0 && b > 0 {
        a / b
    } else if a < 0 && b > 0 {
        -((-a) / b)
    } else if a >= 0 && b < 0 {
        -(a / (-b))
    } else {
        (-a) / (-b)
    }
}

/// One step of integer arithmetic; `None` where the divisor is zero or the
/// result does not fit in 64 bits.
pub open spec fn int_op(op: ArithOp, a: int, b: int) -> Option<int> {
    let r = match op {
        ArithOp::Plus => a + b,
        ArithOp::Minus => a - b,
        ArithOp::Multiply => a * b,
        ArithOp::Divide => quotient(a, b),
    };
    if op == ArithOp::Divide && b == 0 {
        None
    } else if in_i64(r) {
        Some(r)
    } else {
        None
    }
}

/// `acc op xs[0] op xs[1] ...` from left to right.
pub open spec fn fold_ints(op: ArithOp, acc: int, xs: Seq<Sexp>) -> Option<int>
    decreases xs.len(),
{
    if xs.len() == 0 {
        Some(acc)
    } else {
        match (xs[0], int_op(op, acc, xs[0]->Int_0)) {
            (Sexp::Int(_), Some(v)) => fold_ints(op, v, xs.drop_first()),
            _ => None,
        }
    }
}

/// The value that an operation gives with no operands.
pub open spec fn identity(op: ArithOp) -> int {
    match op {
        ArithOp::Plus => 0,
        ArithOp::Minus => 0,
        ArithOp::Multiply => 1,
        ArithOp::Divide => 1,
    }
}

/// Whether the first operand, not the identity, starts the fold.
pub open spec fn seeded_by_first(op: ArithOp) -> bool {
    op == ArithOp::Minus || op == ArithOp::Divide
}

/// The index of the first element of `vals` that is not a number, or the
/// length of `vals`.
pub open spec fn first_non_number(vals: Seq<Sexp>) -> int
    decreases vals.len(),
{
    if vals.len() == 0 || !vals[0].is_number() {
        0
    } else {
        1 + first_non_number(vals.drop_first())
    }
}

pub open spec fn has_float(vals: Seq<Sexp>) -> bool {
    exists|i: int| 0 <= i < vals.len() && #[trigger] vals[i] is Float
}

/// The result of an arithmetic operation on operands that were evaluated.
///
/// Every operand must be a number. With no operand the result is the
/// identity. With a float among them the result is a float, which the model
/// does not describe. Otherwise `+` and `*` fold all operands from the
/// identity, `-` and `/` fold the others from the first.
pub open spec fn arith_result(op: ArithOp, vals: Seq<Sexp>) -> Result<Sexp, Failure> {
    let bad = first_non_number(vals);
    if bad < vals.len() {
        Err(wrong_type("number"@, vals[bad]))
    } else if vals.len() == 0 {
        Ok(Sexp::Int(identity(op)))
    } else if has_float(vals) {
        Err(Failure::FloatDependent)
    } else {
        let folded = if seeded_by_first(op) {
            fold_ints(op, vals[0]->Int_0, vals.drop_first())
        } else {
            fold_ints(op, identity(op), vals)
        };
        match folded {
            Some(v) => Ok(Sexp::Int(v)),
            None => Err(Failure::Arithmetic),
        }
    }
}

pub open spec fn holds(rel: Relation, a: int, b: int) -> bool {
    match rel {
        Relation::Equal => a == b,
        Relation::NotEqual => a != b,
        Relation::Less => a < b,
        Relation::LessOrEqual => a <= b,
        Relation::Greater => a > b,
        Relation::GreaterOrEqual => a >= b,
    }
}

/// Whether the operand at `i` stands in `rel` to the one after it.
pub open spec fn step_holds(rel: Relation, vals: Seq<Sexp>, i: int) -> bool {
    holds(rel, vals[i]->Int_0, vals[i + 1]->Int_0)
}

/// Whether each operand stands in `rel` to the next.
pub open spec fn chain_holds(rel: Relation, vals: Seq<Sexp>) -> bool {
    forall|i: int| 0 <= i < vals.len() - 1 ==> #[trigger] step_holds(rel, vals, i)
}

pub open spec fn truth_value(b: bool) -> Sexp {
    if b {
        truth()
    } else {
        nil()
    }
}

/// The result of a comparison on operands that were evaluated: `t` if every
/// operand stands in `rel` to the next, else `nil`. Every operand must be a
/// number; with fewer than two the result is `t`.
pub open spec fn compare_result(rel: Relation, vals: Seq<Sexp>) -> Result<Sexp, Failure> {
    let bad = first_non_number(vals);
    if bad < vals.len() {
        Err(wrong_type("number"@, vals[bad]))
    } else if vals.len() <= 1 {
        Ok(truth())
    } else if has_float(vals) {
        Err(Failure::FloatDependent)
    } else {
        Ok(truth_value(chain_holds(rel, vals)))
    }
}

/// Whether `x` is a pair whose first element is the symbol `lambda`.
pub open spec fn is_lambda_form(x: Sexp) -> bool {
    x matches Sexp::Cons { car, cdr } && *car == Sexp::Symbol("lambda"@)
}

/// The value of `x` in `env`, with calls nested at most `depth` deep.
///
/// A symbol is the variable of that name. A pair is a call: of the function
/// that its first element names, with the rest as the arguments, not
/// evaluated; or, where the first element is a `lambda` form, of the closure
/// which that form gives. Everything else is its own value.
pub open spec fn eval(x: Sexp, env: Scope, depth: nat) -> Outcome
    decreases depth, 0nat, 0nat,
{
    match x {
        Sexp::Symbol(name) => match env.variable_of(name) {
            Some(v) => done(v, env),
            None => fail(Failure::VoidVariable { name }, env),
        },
        Sexp::Cons { car, cdr } => if depth == 0 {
            fail(Failure::RecursionLimit, env)
        } else {
            match *car {
                Sexp::Symbol(name) => match env.function_of(name) {
                    None => fail(Failure::VoidFunction { name }, env),
                    Some(Sexp::Func(b)) => call_builtin(b, *cdr, env, (depth - 1) as nat),
                    Some(f) => if f is Lambda {
                        apply_closure(f, *cdr, env, (depth - 1) as nat)
                    } else {
                        fail(wrong_type("function"@, f), env)
                    },
                },
                _ => if is_lambda_form(*car) {
                    let f = eval(*car, env, (depth - 1) as nat);
                    match f.result {
                        Ok(closure) => apply_closure(closure, *cdr, f.env, (depth - 1) as nat),
                        Err(_) => f,
                    }
                } else {
                    fail(wrong_type("symbol"@, *car), env)
                },
            }
        },
        _ => done(x, env),
    }
}

/// The values of `items[i..]`, evaluated from left to right, after `acc`.
/// The first failure ends the evaluation.
pub open spec fn eval_each(items: Seq<Sexp>, i: int, acc: Seq<Sexp>, env: Scope, depth: nat) -> Values
    decreases depth, 1nat, items.len() - i,
{
    if !(0 <= i < items.len()) {
        Values { result: Ok(acc), env }
    } else {
        let o = eval(items[i], env, depth);
        match o.result {
            Err(e) => Values { result: Err(e), env: o.env },
            Ok(v) => eval_each(items, i + 1, acc.push(v), o.env, depth),
        }
    }
}

/// Binds `names[i..]` to the values of `items[i..]` in `scope`. Each
/// argument is evaluated in the caller's scope `env`, in order, and bound
/// before the next is looked at. Where one list ends before the other the
/// call has the wrong number of arguments.
pub open spec fn bind_args(
    names: Seq<Seq<char>>,
    items: Seq<Sexp>,
    i: int,
    env: Scope,
    scope: Scope,
    depth: nat,
) -> Bindings
    decreases depth, 1nat, names.len() - i,
{
    if i < 0 || (i >= names.len() && i >= items.len()) {
        Bindings { result: Ok(scope), env }
    } else if i < names.len() && i < items.len() {
        let o = eval(items[i], env, depth);
        match o.result {
            Err(e) => Bindings { result: Err(e), env: o.env },
            Ok(v) => bind_args(names, items, i + 1, o.env, scope.bind_variable(names[i], v), depth),
        }
    } else {
        Bindings { result: Err(wrong_count(names.len(), names.len(), items.len())), env }
    }
}

/// The call of the closure `f` with the arguments `args`.
///
/// The parameters must be a list of symbols and the arguments a list. The
/// scope of the call is a fresh one inside the scope that the closure was
/// made in; the arguments are evaluated in the caller's scope and bound there
/// to the parameters; the body is evaluated in it once, and the scope is
/// dropped.
pub open spec fn apply_closure(f: Sexp, args: Sexp, env: Scope, depth: nat) -> Outcome
    decreases depth, 2nat, 0nat,
{
    match f {
        Sexp::Lambda { params, body, env: captured } => match param_names(*params) {
            None => fail(wrong_type("list<symbol>"@, *params), env),
            Some(names) => match list_items(args) {
                None => fail(not_a_list(args), env),
                Some(items) => {
                    let b = bind_args(names, items, 0, env, Scope::child_of(*captured), depth);
                    match b.result {
                        Err(e) => fail(e, b.env),
                        Ok(scope) => Outcome { result: eval(*body, scope, depth).result, env: b.env },
                    }
                },
            },
        },
        _ => fail(wrong_type("lambda"@, f), env),
    }
}

/// An arithmetic operation: the operands are evaluated in order, then
/// combined as `arith_result` says.
pub open spec fn arith(op: ArithOp, args: Sexp, env: Scope, depth: nat) -> Outcome
    decreases depth, 3nat, 0nat,
{
    match list_items(args) {
        None => fail(not_a_list(args), env),
        Some(items) => {
            let vals = eval_each(items, 0, Seq::empty(), env, depth);
            match vals.result {
                Err(e) => fail(e, vals.env),
                Ok(v) => Outcome { result: arith_result(op, v), env: vals.env },
            }
        },
    }
}

/// A comparison: the operands are evaluated in order, then compared as
/// `compare_result` says.
pub open spec fn compare(rel: Relation, args: Sexp, env: Scope, depth: nat) -> Outcome
    decreases depth, 3nat, 0nat,
{
    match list_items(args) {
        None => fail(not_a_list(args), env),
        Some(items) => {
            let vals = eval_each(items, 0, Seq::empty(), env, depth);
            match vals.result {
                Err(e) => fail(e, vals.env),
                Ok(v) => Outcome { result: compare_result(rel, v), env: vals.env },
            }
        },
    }
}

/// `(if cond then [else])`: the value of `then` if the value of `cond` is
/// not `nil`, else the value of `else`, which is `nil` if left out.
pub open spec fn if_form(args: Sexp, env: Scope, depth: nat) -> Outcome
    decreases depth, 3nat, 0nat,
{
    match extract_args(args, 2, 1) {
        Err(e) => fail(e, env),
        Ok(a) => {
            let c = eval(a[0], env, depth);
            match c.result {
                Err(_) => c,
                Ok(v) => if v != nil() {
                    eval(a[1], c.env, depth)
                } else {
                    eval(a[2], c.env, depth)
                },
            }
        },
    }
}

/// `(quote x)`: `x` itself.
pub open spec fn quote_form(args: Sexp, env: Scope) -> Outcome {
    match extract_args(args, 1, 0) {
        Err(e) => fail(e, env),
        Ok(a) => done(a[0], env),
    }
}

/// `(set name value)`: binds the symbol `name`, which is not evaluated, to
/// the value of `value` in the current scope, and gives that value.
pub open spec fn set_form(args: Sexp, env: Scope, depth: nat) -> Outcome
    decreases depth, 3nat, 0nat,
{
    match extract_args(args, 2, 0) {
        Err(e) => fail(e, env),
        Ok(a) => match a[0] {
            Sexp::Symbol(name) => {
                let v = eval(a[1], env, depth);
                match v.result {
                    Err(_) => v,
                    Ok(value) => done(value, v.env.bind_variable(name, value)),
                }
            },
            _ => fail(wrong_type("symbol"@, a[0]), env),
        },
    }
}

/// `(lambda params body)`: a closure over the current scope. Neither
/// `params` nor `body` is evaluated.
pub open spec fn lambda_form(args: Sexp, env: Scope) -> Outcome {
    match extract_args(args, 2, 0) {
        Err(e) => fail(e, env),
        Ok(a) => done(
            Sexp::Lambda { params: Box::new(a[0]), body: Box::new(a[1]), env: Box::new(env) },
            env,
        ),
    }
}

/// `(apply f args)`: the values of `f` and of `args`, then the call of the
/// one with the other.
pub open spec fn apply_form(args: Sexp, env: Scope, depth: nat) -> Outcome
    decreases depth, 3nat, 0nat,
{
    match extract_args(args, 2, 0) {
        Err(e) => fail(e, env),
        Ok(a) => {
            let f = eval(a[0], env, depth);
            match f.result {
                Err(_) => f,
                Ok(closure) => {
                    let l = eval(a[1], f.env, depth);
                    match l.result {
                        Err(_) => l,
                        Ok(list) => apply_closure(closure, list, l.env, depth),
                    }
                },
            }
        },
    }
}

/// The call of a built-in form with the arguments `args`, not evaluated.
pub open spec fn call_builtin(b: Builtin, args: Sexp, env: Scope, depth: nat) -> Outcome
    decreases depth, 4nat, 0nat,
{
    match b {
        Builtin::Arith(op) => arith(op, args, env, depth),
        Builtin::Compare(rel) => compare(rel, args, env, depth),
        Builtin::IfForm => if_form(args, env, depth),
        Builtin::SetForm => set_form(args, env, depth),
        Builtin::SetqForm => set_form(args, env, depth),
        Builtin::QuoteForm => quote_form(args, env),
        Builtin::LambdaForm => lambda_form(args, env),
        Builtin::ApplyForm => apply_form(args, env, depth),
    }
}

} // verus!
