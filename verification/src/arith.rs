//! Arithmetic and comparison on operands that were evaluated.
//!
//! Integers are handled here. Floats are held as the text of their
//! literals, and what is done with them is left to an implementation of
//! `FloatArith`, which the caller supplies.

use vstd::prelude::*;
use crate::model::{ArithOp, Failure, Relation, Sexp};
use crate::semantics::{
    arith_result, chain_holds, compare_result, first_non_number, fold_ints, has_float, holds,
    identity, in_i64, int_op, quotient, seeded_by_first, step_holds, wrong_type,
};
use crate::text::text;
use crate::types::{exp_view, result_view, RuspAtom, RuspErr, RuspExp};

verus! {

/// Floating-point arithmetic on numbers written as text. Nothing is assumed
/// of an implementation: what it returns is taken as it comes.
pub trait FloatArith {
    /// The float nearest to `i`.
    fn of_int(&self, i: i64) -> String;

    /// `acc op x`.
    fn combine(&self, op: ArithOp, acc: &str, x: &str) -> String;

    /// Whether `a` stands in `rel` to `b`.
    fn compare(&self, rel: Relation, a: &str, b: &str) -> bool;
}

/// The model's values of a sequence of expressions.
pub open spec fn views(v: Seq<RuspExp>) -> Seq<Sexp> {
    Seq::new(v.len(), |i: int| exp_view(v[i]))
}

/// An index before which all of `vals` are numbers, and which holds none or
/// is the length, is `first_non_number`.
pub proof fn lemma_first_non_number(vals: Seq<Sexp>, i: int)
    requires
        0 <= i <= vals.len(),
        forall|j: int| 0 <= j < i ==> (#[trigger] vals[j]).is_number(),
        i < vals.len() ==> !vals[i].is_number(),
    ensures
        first_non_number(vals) == i,
    decreases i,
{
    if i > 0 {
        let rest = vals.drop_first();
        assert(vals[0].is_number());
        assert forall|j: int| 0 <= j < i - 1 implies (#[trigger] rest[j]).is_number() by {
            assert(rest[j] == vals[j + 1]);
        }
        lemma_first_non_number(rest, i - 1);
    }
}

/// One step of integer arithmetic, checked.
pub fn int_step(op: ArithOp, a: i64, b: i64) -> (r: Option<i64>)
    ensures
        match int_op(op, a as int, b as int) {
            Some(v) => r == Some(v as i64) && in_i64(v),
            None => r is None,
        },
{
    match op {
        ArithOp::Plus => a.checked_add(b),
        ArithOp::Minus => a.checked_sub(b),
        ArithOp::Multiply => a.checked_mul(b),
        ArithOp::Divide => {
            let r = a.checked_div(b);
            proof {
                if b != 0 {
                    let x = a as int;
                    let d = b as int;
                    assert(x * -1 == -x);
                    assert(d * -1 == -d);
                    if x == 0 {
                        assert(quotient(x, d) == 0) by {
                            if d > 0 {
                                assert(0int / d == 0) by (nonlinear_arith)
                                    requires
                                        d > 0,
                                ;
                            } else {
                                assert(0int / (-d) == 0) by (nonlinear_arith)
                                    requires
                                        -d > 0,
                                ;
                            }
                        }
                    }
                    assert((x / (-d)) * -1 == -(x / (-d)));
                    assert(((-x) / d) * -1 == -((-x) / d));
                }
            }
            r
        },
    }
}

/// The text of the number `x` as a float: a float is its own text, an
/// integer is what `fl` makes of it.
fn float_text<F: FloatArith>(x: &RuspExp, fl: &F) -> (r: String)
    ensures
        is_float_text(fl, x@, r@),
{
    match x {
        RuspExp::Atom(RuspAtom::Int(i)) => fl.of_int(*i),
        RuspExp::Atom(RuspAtom::Float(s)) => s.clone(),
        _ => text("0.0"),
    }
}

/// The first of `vals` that is not a number, as the failure it makes.
fn check_numbers(vals: &Vec<RuspExp>) -> (r: Result<(), RuspErr>)
    ensures
        match r {
            Ok(_) => first_non_number(views(vals@)) == vals.len(),
            Err(e) => first_non_number(views(vals@)) < vals.len() && e@ == wrong_type(
                "number"@,
                views(vals@)[first_non_number(views(vals@))],
            ),
        },
{
    let mut i: usize = 0;
    while i < vals.len()
        invariant
            i <= vals.len(),
            forall|j: int| 0 <= j < i ==> (#[trigger] views(vals@)[j]).is_number(),
        decreases vals.len() - i,
    {
        if !vals[i].numberp() {
            proof {
                lemma_first_non_number(views(vals@), i as int);
            }
            return Err(
                RuspErr::WrongTypeArgument { expected: text("number"), actual: vals[i].to_string() },
            );
        }
        i += 1;
    }
    proof {
        lemma_first_non_number(views(vals@), i as int);
    }
    Ok(())
}

/// Whether a float is among `vals`.
fn any_float(vals: &Vec<RuspExp>) -> (r: bool)
    ensures
        r == has_float(views(vals@)),
{
    let mut i: usize = 0;
    while i < vals.len()
        invariant
            i <= vals.len(),
            forall|j: int| 0 <= j < i ==> !(#[trigger] views(vals@)[j] is Float),
        decreases vals.len() - i,
    {
        if vals[i].floatp() {
            assert(views(vals@)[i as int] is Float);
            return true;
        }
        i += 1;
    }
    false
}

fn identity_of(op: ArithOp) -> (r: i64)
    ensures
        r == identity(op),
{
    match op {
        ArithOp::Plus => 0,
        ArithOp::Minus => 0,
        ArithOp::Multiply => 1,
        ArithOp::Divide => 1,
    }
}

fn starts_from_first(op: ArithOp) -> (r: bool)
    ensures
        r == seeded_by_first(op),
{
    match op {
        ArithOp::Plus => false,
        ArithOp::Minus => true,
        ArithOp::Multiply => false,
        ArithOp::Divide => true,
    }
}

fn int_of(x: &RuspExp) -> (r: i64)
    requires
        x@ is Int,
    ensures
        x@ == Sexp::Int(r as int),
{
    match x {
        RuspExp::Atom(RuspAtom::Int(i)) => *i,
        _ => 0,
    }
}

/// The fold of the floats `vals[from..]` from `seed`: each operand in turn
/// is combined by `fl` with what came before.
fn fold_floats<F: FloatArith>(op: ArithOp, seed: String, vals: &Vec<RuspExp>, from: usize, fl: &F) -> (r: String)
    requires
        from <= vals.len(),
    ensures
        is_float_fold(fl, op, seed@, views(vals@), from as int, vals.len() as int, r@),
{
    let ghost start = seed@;
    let ghost nums = views(vals@);
    let mut acc = seed;
    let mut i: usize = from;
    while i < vals.len()
        invariant
            from <= i <= vals.len(),
            nums == views(vals@),
            is_float_fold(fl, op, start, nums, from as int, i as int, acc@),
        decreases vals.len() - i,
    {
        let ghost before = acc@;
        let x = float_text(&vals[i], fl);
        assert(nums[i as int] == vals[i as int]@);
        acc = fl.combine(op, acc.as_str(), x.as_str());
        assert(combines(fl, op, before, x@, acc@));
        i += 1;
    }
    acc
}

/// The result of the arithmetic operation `op` on the operands `vals`.
/// With a float among the operands the result is the float that `fl` gives.
pub fn arith_values<F: FloatArith>(op: ArithOp, vals: &Vec<RuspExp>, fl: &F) -> (r: Result<
    RuspExp,
    RuspErr,
>)
    ensures
        r matches Err(e) ==> e@.is_of_evaluation(),
        arith_result(op, views(vals@)) != Err::<Sexp, Failure>(Failure::FloatDependent)
            ==> result_view(r) == arith_result(op, views(vals@)),
        arith_result(op, views(vals@)) == Err::<Sexp, Failure>(Failure::FloatDependent) ==> (
        r matches Ok(x) && is_float_result(fl, op, views(vals@), x@)),
{
    match check_numbers(vals) {
        Err(e) => {
            return Err(e);
        },
        Ok(_) => {},
    }
    if vals.len() == 0 {
        return Ok(RuspExp::Atom(RuspAtom::Int(identity_of(op))));
    }
    let first_seeds = starts_from_first(op);
    if any_float(vals) {
        let seed = if first_seeds {
            float_text(&vals[0], fl)
        } else {
            fl.of_int(identity_of(op))
        };
        let from: usize = if first_seeds {
            1
        } else {
            0
        };
        let ghost start = seed@;
        assert(is_float_seed(fl, op, views(vals@), start));
        let acc = fold_floats(op, seed, vals, from, fl);
        let sum = RuspExp::Atom(RuspAtom::Float(acc));
        proof {
            let nums = views(vals@);
            assert(nums.len() == vals.len());
            assert(sum@ == Sexp::Float(acc@));
            assert(is_float_fold(
                fl,
                op,
                start,
                nums,
                first_operand(op),
                nums.len() as int,
                sum@->Float_0,
            ));
            assert(is_float_result(fl, op, nums, sum@));
        }
        return Ok(sum);
    }
    let ghost xs = views(vals@);
    assert(forall|j: int| 0 <= j < xs.len() ==> (#[trigger] xs[j]) is Int) by {
        assert forall|j: int| 0 <= j < xs.len() implies (#[trigger] xs[j]) is Int by {
            lemma_first_non_number_all(xs, j);
        }
    }
    assert(xs[0] is Int);
    let mut acc: i64 = if first_seeds {
        int_of(&vals[0])
    } else {
        identity_of(op)
    };
    let mut i: usize = if first_seeds {
        1
    } else {
        0
    };
    let ghost total = if first_seeds {
        fold_ints(op, xs[0]->Int_0, xs.drop_first())
    } else {
        fold_ints(op, identity(op), xs)
    };
    assert(xs.drop_first() =~= xs.subrange(1, xs.len() as int));
    assert(xs =~= xs.subrange(0, xs.len() as int));
    while i < vals.len()
        invariant
            i <= vals.len(),
            xs == views(vals@),
            forall|j: int| 0 <= j < xs.len() ==> (#[trigger] xs[j]) is Int,
            total == fold_ints(op, acc as int, xs.subrange(i as int, xs.len() as int)),
            arith_result(op, xs) == match total {
                Some(v) => Ok::<Sexp, Failure>(Sexp::Int(v)),
                None => Err::<Sexp, Failure>(Failure::Arithmetic),
            },
        decreases vals.len() - i,
    {
        let ghost rest = xs.subrange(i as int, xs.len() as int);
        assert(xs[i as int] is Int);
        assert(rest[0] == xs[i as int]);
        assert(rest.drop_first() =~= xs.subrange(i + 1, xs.len() as int));
        let x = int_of(&vals[i]);
        match int_step(op, acc, x) {
            Some(v) => {
                acc = v;
            },
            None => {
                assert(fold_ints(op, acc as int, rest) is None);
                return Err(RuspErr::ArithmeticError);
            },
        }
        i += 1;
    }
    Ok(RuspExp::Atom(RuspAtom::Int(acc)))
}

/// Where `first_non_number` is the length, every element is a number.
pub proof fn lemma_first_non_number_all(vals: Seq<Sexp>, j: int)
    requires
        first_non_number(vals) >= vals.len(),
        0 <= j < vals.len(),
    ensures
        vals[j].is_number(),
    decreases vals.len(),
{
    if j > 0 {
        let rest = vals.drop_first();
        assert(rest[j - 1] == vals[j]);
        lemma_first_non_number_all(rest, j - 1);
    }
}

fn relation_holds(rel: Relation, a: i64, b: i64) -> (r: bool)
    ensures
        r == holds(rel, a as int, b as int),
{
    match rel {
        Relation::Equal => a == b,
        Relation::NotEqual => a != b,
        Relation::Less => a < b,
        Relation::LessOrEqual => a <= b,
        Relation::Greater => a > b,
        Relation::GreaterOrEqual => a >= b,
    }
}

/// Whether each of the floats `vals` stands in `rel` to the next, as `fl`
/// says. The first pair of which `fl` says no ends the chain.
fn chain_floats<F: FloatArith>(rel: Relation, vals: &Vec<RuspExp>, fl: &F) -> (r: bool)
    requires
        vals.len() > 0,
    ensures
        is_chain_result(fl, rel, views(vals@), r),
{
    let ghost nums = views(vals@);
    let mut last = float_text(&vals[0], fl);
    assert(nums[0] == vals[0]@);
    let mut i: usize = 1;
    while i < vals.len()
        invariant
            1 <= i <= vals.len(),
            nums == views(vals@),
            is_float_chain(fl, rel, nums, i as int, last@),
        decreases vals.len() - i,
    {
        let x = float_text(&vals[i], fl);
        assert(nums[i as int] == vals[i as int]@);
        let holds_here = fl.compare(rel, last.as_str(), x.as_str());
        assert(compares(fl, rel, last@, x@, holds_here));
        if !holds_here {
            return false;
        }
        last = x;
        i += 1;
    }
    assert(is_float_chain(fl, rel, nums, nums.len() as int, last@));
    true
}

fn truth_of(b: bool) -> (r: RuspExp)
    ensures
        r@ == crate::semantics::truth_value(b),
{
    if b {
        RuspExp::t()
    } else {
        RuspExp::nil()
    }
}

/// The result of the comparison `rel` on the operands `vals`. With a float
/// among the operands the result is `t` or `nil` as `fl` decides.
pub fn compare_values<F: FloatArith>(rel: Relation, vals: &Vec<RuspExp>, fl: &F) -> (r: Result<
    RuspExp,
    RuspErr,
>)
    ensures
        r matches Err(e) ==> e@.is_of_evaluation(),
        compare_result(rel, views(vals@)) != Err::<Sexp, Failure>(Failure::FloatDependent)
            ==> result_view(r) == compare_result(rel, views(vals@)),
        compare_result(rel, views(vals@)) == Err::<Sexp, Failure>(Failure::FloatDependent) ==> (
        r matches Ok(x) && is_float_comparison(fl, rel, views(vals@), x@)),
{
    match check_numbers(vals) {
        Err(e) => {
            return Err(e);
        },
        Ok(_) => {},
    }
    if vals.len() <= 1 {
        return Ok(RuspExp::t());
    }
    if any_float(vals) {
        let all_hold = chain_floats(rel, vals, fl);
        return Ok(truth_of(all_hold));
    }
    let ghost xs = views(vals@);
    assert(forall|j: int| 0 <= j < xs.len() ==> (#[trigger] xs[j]) is Int) by {
        assert forall|j: int| 0 <= j < xs.len() implies (#[trigger] xs[j]) is Int by {
            lemma_first_non_number_all(xs, j);
        }
    }
    assert(xs[0] is Int);
    let mut last = int_of(&vals[0]);
    let mut i: usize = 1;
    while i < vals.len()
        invariant
            1 <= i <= vals.len(),
            xs == views(vals@),
            forall|j: int| 0 <= j < xs.len() ==> (#[trigger] xs[j]) is Int,
            xs[i - 1] == Sexp::Int(last as int),
            forall|j: int| 0 <= j < i - 1 ==> #[trigger] step_holds(rel, xs, j),
            compare_result(rel, xs) == Ok::<Sexp, Failure>(
                crate::semantics::truth_value(chain_holds(rel, xs)),
            ),
        decreases vals.len() - i,
    {
        assert(xs[i as int] is Int);
        let x = int_of(&vals[i]);
        if !relation_holds(rel, last, x) {
            assert(!step_holds(rel, xs, i - 1));
            return Ok(RuspExp::nil());
        }
        last = x;
        i += 1;
    }
    Ok(RuspExp::t())
}

/// `r` is a text that `fl` gave for the integer `i`.
pub open spec fn converts<F: FloatArith>(fl: &F, i: i64, r: Seq<char>) -> bool {
    exists|out: String| out@ == r && call_ensures(F::of_int, (fl, i), out)
}

/// `r` is a text that `fl` gave for `acc op x`.
pub open spec fn combines<F: FloatArith>(
    fl: &F,
    op: ArithOp,
    acc: Seq<char>,
    x: Seq<char>,
    r: Seq<char>,
) -> bool {
    exists|a: &str, b: &str, out: String|
        a@ == acc && b@ == x && out@ == r && call_ensures(F::combine, (fl, op, a, b), out)
}

/// `r` is what `fl` said when asked whether `a` stands in `rel` to `b`.
pub open spec fn compares<F: FloatArith>(
    fl: &F,
    rel: Relation,
    a: Seq<char>,
    b: Seq<char>,
    r: bool,
) -> bool {
    exists|x: &str, y: &str| x@ == a && y@ == b && call_ensures(F::compare, (fl, rel, x, y), r)
}

/// `r` is the text of `x` as a float: the text of a float itself, and for
/// an integer a text that `fl` gave for it. What is no number counts as
/// `0.0`.
pub open spec fn is_float_text<F: FloatArith>(fl: &F, x: Sexp, r: Seq<char>) -> bool {
    match x {
        Sexp::Int(i) => converts(fl, i as i64, r),
        Sexp::Float(s) => r == s,
        _ => r == "0.0"@,
    }
}

/// `r` is what folding the operands `nums[from..to]` from `seed` gave:
/// with no operand the seed itself, else a text that `fl` gave for the fold
/// of the operands before the last, combined with the text of the last.
pub open spec fn is_float_fold<F: FloatArith>(
    fl: &F,
    op: ArithOp,
    seed: Seq<char>,
    nums: Seq<Sexp>,
    from: int,
    to: int,
    r: Seq<char>,
) -> bool
    decreases to - from,
{
    if to <= from {
        r == seed
    } else {
        exists|acc: Seq<char>, x: Seq<char>|
            is_float_fold(fl, op, seed, nums, from, to - 1, acc) && is_float_text(
                fl,
                nums[to - 1],
                x,
            ) && #[trigger] combines(fl, op, acc, x, r)
    }
}

/// Each of the operands `nums[..i]` stood in `rel` to the next, as `fl`
/// said of their texts, and `last` is the text of `nums[i - 1]`.
pub open spec fn is_float_chain<F: FloatArith>(
    fl: &F,
    rel: Relation,
    nums: Seq<Sexp>,
    i: int,
    last: Seq<char>,
) -> bool
    decreases i,
{
    if i <= 1 {
        is_float_text(fl, nums[0], last)
    } else {
        exists|prev: Seq<char>|
            is_float_chain(fl, rel, nums, i - 1, prev) && is_float_text(fl, nums[i - 1], last)
                && #[trigger] compares(fl, rel, prev, last, true)
    }
}

/// `r` is what the chain of comparisons over `nums` gave: true where `fl`
/// said yes of every operand and the next, false where it said no of one
/// pair after saying yes of all before it.
pub open spec fn is_chain_result<F: FloatArith>(
    fl: &F,
    rel: Relation,
    nums: Seq<Sexp>,
    r: bool,
) -> bool {
    if r {
        exists|last: Seq<char>| #[trigger] is_float_chain(fl, rel, nums, nums.len() as int, last)
    } else {
        exists|i: int, prev: Seq<char>, x: Seq<char>|
            #![trigger is_float_chain(fl, rel, nums, i, prev), compares(fl, rel, prev, x, false)]
            1 <= i < nums.len() && is_float_chain(fl, rel, nums, i, prev) && is_float_text(
                fl,
                nums[i],
                x,
            ) && compares(fl, rel, prev, x, false)
    }
}

/// The index of the first operand that is folded: 1 where the first
/// operand is the seed, else 0.
pub open spec fn first_operand(op: ArithOp) -> int {
    if seeded_by_first(op) {
        1
    } else {
        0
    }
}

/// `seed` is what the fold of floats starts from: the text of the first
/// operand for `-` and `/`, and for `+` and `*` a text that `fl` gave for
/// the identity.
pub open spec fn is_float_seed<F: FloatArith>(
    fl: &F,
    op: ArithOp,
    nums: Seq<Sexp>,
    seed: Seq<char>,
) -> bool {
    if seeded_by_first(op) {
        is_float_text(fl, nums[0], seed)
    } else {
        converts(fl, identity(op) as i64, seed)
    }
}

/// `x` is the float that `op` gives on the operands `nums`, of which one is
/// a float: the left fold of the operands after the seed, from the seed.
pub open spec fn is_float_result<F: FloatArith>(
    fl: &F,
    op: ArithOp,
    nums: Seq<Sexp>,
    x: Sexp,
) -> bool {
    &&& x is Float
    &&& exists|seed: Seq<char>|
        is_float_seed(fl, op, nums, seed) && #[trigger] is_float_fold(
            fl,
            op,
            seed,
            nums,
            first_operand(op),
            nums.len() as int,
            x->Float_0,
        )
}

/// `x` is what the comparison `rel` gives on the operands `nums`, of which
/// one is a float: `t` where the chain held, `nil` where it broke.
pub open spec fn is_float_comparison<F: FloatArith>(
    fl: &F,
    rel: Relation,
    nums: Seq<Sexp>,
    x: Sexp,
) -> bool {
    ||| x == crate::model::truth() && is_chain_result(fl, rel, nums, true)
    ||| x == crate::model::nil() && is_chain_result(fl, rel, nums, false)
}

} // verus!
