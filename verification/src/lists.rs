//! Lists as vectors: the elements of an argument list, the names of a
//! parameter list, and the arguments of a form of fixed shape.

use vstd::prelude::*;
use crate::arith::views;
use crate::model::{nil, Sexp};
use crate::semantics::{extract_args, list_items, list_tail, not_a_list, param_names, wrong_type};
use crate::text::text;
use crate::types::{copy_exp, exp_view, RuspAtom, RuspErr, RuspExp};

verus! {

/// The model's values of a sequence of borrowed expressions.
pub open spec fn refs(v: Seq<&RuspExp>) -> Seq<Sexp> {
    Seq::new(v.len(), |i: int| exp_view(*v[i]))
}

/// The characters of each of a sequence of strings.
pub open spec fn strings(v: Seq<String>) -> Seq<Seq<char>> {
    Seq::new(v.len(), |i: int| v[i]@)
}

/// The elements of `x`, up to its last tail.
pub open spec fn elements(x: Sexp) -> Seq<Sexp>
    decreases x,
{
    match x {
        Sexp::Cons { car, cdr } => seq![*car] + elements(*cdr),
        _ => Seq::empty(),
    }
}

/// The elements of the list `x`; `x` must end in `nil`.
pub fn list_to_vec<'a>(x: &'a RuspExp) -> (r: Result<Vec<&'a RuspExp>, RuspErr>)
    ensures
        match list_items(x@) {
            Some(items) => r matches Ok(v) && refs(v@) == items,
            None => r matches Err(e) && e@ == not_a_list(x@),
        },
{
    let mut out: Vec<&RuspExp> = Vec::new();
    let mut cur = x;
    assert(forall|s: Seq<Sexp>| refs(out@) + s =~= s);
    loop
        invariant
            list_tail(cur@) == list_tail(x@),
            match list_items(cur@) {
                Some(rest) => list_items(x@) == Some(refs(out@) + rest),
                None => list_items(x@) is None,
            },
        decreases cur,
    {
        match cur {
            RuspExp::Cons { car, cdr } => {
                let ghost before = refs(out@);
                out.push(&**car);
                proof {
                    assert(refs(out@) =~= before.push(car@));
                    match list_items(cdr@) {
                        Some(rest) => {
                            assert(refs(out@) + rest =~= before + (seq![car@] + rest));
                        },
                        None => {},
                    }
                }
                cur = &**cdr;
            },
            _ => {
                if cur.nilp() {
                    assert(refs(out@) + Seq::<Sexp>::empty() =~= refs(out@));
                    return Ok(out);
                } else {
                    return Err(
                        RuspErr::WrongTypeArgument {
                            expected: text("list"),
                            actual: cur.to_string(),
                        },
                    );
                }
            },
        }
    }
}

/// The names of the parameter list `params`, or `None` if it is not a list
/// of symbols.
pub fn param_list(params: &RuspExp) -> (r: Option<Vec<String>>)
    ensures
        match param_names(params@) {
            Some(names) => r matches Some(v) && strings(v@) == names,
            None => r is None,
        },
{
    let mut out: Vec<String> = Vec::new();
    let mut cur = params;
    assert(forall|s: Seq<Seq<char>>| strings(out@) + s =~= s);
    loop
        invariant
            match param_names(cur@) {
                Some(rest) => param_names(params@) == Some(strings(out@) + rest),
                None => param_names(params@) is None,
            },
        decreases cur,
    {
        proof {
            reveal_with_fuel(exp_view, 2);
        }
        match cur {
            RuspExp::Cons { car, cdr } => {
                match &**car {
                    RuspExp::Atom(RuspAtom::Symbol(name)) => {
                        let ghost before = strings(out@);
                        out.push(name.clone());
                        proof {
                            assert(strings(out@) =~= before.push(name@));
                            match param_names(cdr@) {
                                Some(rest) => {
                                    assert(strings(out@) + rest =~= before + (seq![name@] + rest));
                                },
                                None => {},
                            }
                        }
                        cur = &**cdr;
                    },
                    _ => {
                        return None;
                    },
                }
            },
            _ => {
                if cur.nilp() {
                    assert(strings(out@) + Seq::<Seq<char>>::empty() =~= strings(out@));
                    return Some(out);
                } else {
                    return None;
                }
            },
        }
    }
}

/// The arguments of a form that takes `required` arguments and up to
/// `optional` more, with `nil` for each optional one that is left out.
pub fn extract(args: &RuspExp, required: usize, optional: usize) -> (r: Result<
    Vec<RuspExp>,
    RuspErr,
>)
    requires
        required + optional <= usize::MAX,
    ensures
        match extract_args(args@, required as nat, optional as nat) {
            Ok(a) => r matches Ok(v) && views(v@) == a && v.len() == required + optional,
            Err(e) => r matches Err(x) && x@ == e,
        },
{
    let items = match list_to_vec(args) {
        Ok(items) => items,
        Err(e) => {
            return Err(e);
        },
    };
    let n = items.len();
    if n < required || n > required + optional {
        return Err(
            RuspErr::WrongNumberOfArguments {
                required,
                allowed: Some(required + optional),
                actual: n,
            },
        );
    }
    let ghost padding = Seq::new((required + optional - n) as nat, |i: int| nil());
    let mut out: Vec<RuspExp> = Vec::new();
    let mut i: usize = 0;
    assert(views(out@) =~= (refs(items@) + padding).subrange(0, 0));
    while i < required + optional
        invariant
            i <= required + optional <= usize::MAX,
            n == items.len(),
            n <= required + optional,
            out.len() == i,
            padding.len() == required + optional - n,
            forall|j: int| 0 <= j < padding.len() ==> #[trigger] padding[j] == nil(),
            views(out@) == (refs(items@) + padding).subrange(0, i as int),
        decreases required + optional - i,
    {
        let ghost before = views(out@);
        if i < n {
            out.push(copy_exp(items[i]));
        } else {
            out.push(RuspExp::nil());
        }
        assert(views(out@) =~= before.push((refs(items@) + padding)[i as int]));
        assert(views(out@) =~= (refs(items@) + padding).subrange(0, i + 1));
        i += 1;
    }
    assert(views(out@) =~= refs(items@) + padding);
    Ok(out)
}

/// `out`, then the elements of `x`, each to be changed in place, then an
/// error for the last tail of `x` if that is not `nil`.
fn collect_mut<'a>(x: &'a mut RuspExp, out: Vec<Result<&'a mut RuspExp, RuspErr>>) -> (r: Vec<
    Result<&'a mut RuspExp, RuspErr>,
>)
    ensures
        r.len() == out.len() + elements(old(x)@).len() + if list_tail(old(x)@) == nil() {
            0int
        } else {
            1int
        },
        forall|i: int| 0 <= i < out.len() ==> r[i] == out[i],
        forall|j: int|
            out.len() <= j < out.len() + elements(old(x)@).len() ==> (#[trigger] r[j] matches Ok(m)
                && m@ == elements(old(x)@)[j - out.len()] && elements(final(x)@)[j - out.len()]
                == final(m)@),
        list_tail(old(x)@) != nil() ==> (r[r.len() - 1] matches Err(e) && e@ == not_a_list(
            old(x)@,
        )),
        elements(final(x)@).len() == elements(old(x)@).len(),
        list_tail(final(x)@) == list_tail(old(x)@),
    decreases *old(x),
{
    let mut out = out;
    let ghost given = out@;
    match x {
        RuspExp::Cons { car, cdr } => {
            let ghost head = car@;
            let ghost tail = cdr@;
            assert(elements(old(x)@) =~= seq![head] + elements(tail));
            let first: &'a mut RuspExp = &mut **car;
            let rest: &'a mut RuspExp = &mut **cdr;
            let ghost first_after = final(first)@;
            let ghost rest_after = final(rest)@;
            out.push(Ok(first));
            let r = collect_mut(rest, out);
            proof {
                let after = seq![first_after] + elements(rest_after);
                assert forall|j: int|
                    given.len() <= j < given.len() + elements(old(x)@).len() implies (
                #[trigger] r[j] matches Ok(m) && m@ == elements(old(x)@)[j - given.len()] && after[j
                    - given.len()] == final(m)@) by {}
            }
            r
        },
        _ => {
            if !x.nilp() {
                out.push(
                    Err(RuspErr::WrongTypeArgument { expected: text("list"), actual: x.to_string() }),
                );
            }
            out
        },
    }
}

impl RuspExp {
    /// The first element of a pair.
    pub fn car(&self) -> (r: Result<&RuspExp, RuspErr>)
        ensures
            match self@ {
                Sexp::Cons { car, cdr } => r matches Ok(x) && x@ == *car,
                _ => r matches Err(e) && e@ == wrong_type("cons"@, self@),
            },
    {
        match self {
            RuspExp::Cons { car, .. } => Ok(&**car),
            _ => Err(
                RuspErr::WrongTypeArgument { expected: text("cons"), actual: self.to_string() },
            ),
        }
    }

    /// The second element of a pair: the rest of a list.
    pub fn cdr(&self) -> (r: Result<&RuspExp, RuspErr>)
        ensures
            match self@ {
                Sexp::Cons { car, cdr } => r matches Ok(x) && x@ == *cdr,
                _ => r matches Err(e) && e@ == wrong_type("cons"@, self@),
            },
    {
        match self {
            RuspExp::Cons { cdr, .. } => Ok(&**cdr),
            _ => Err(
                RuspErr::WrongTypeArgument { expected: text("cons"), actual: self.to_string() },
            ),
        }
    }

    /// The elements of the list, each to be changed in place. Where the
    /// list does not end in `nil`, an error for its last tail comes after
    /// them.
    pub fn iter_mut(&mut self) -> (r: Vec<Result<&mut RuspExp, RuspErr>>)
        ensures
            r.len() == elements(old(self)@).len() + if list_tail(old(self)@) == nil() {
                0int
            } else {
                1int
            },
            forall|i: int|
                0 <= i < elements(old(self)@).len() ==> (#[trigger] r[i] matches Ok(m) && m@
                    == elements(old(self)@)[i] && elements(final(self)@)[i] == final(m)@),
            list_tail(old(self)@) != nil() ==> (r[r.len() - 1] matches Err(e) && e@ == not_a_list(
                old(self)@,
            )),
            elements(final(self)@).len() == elements(old(self)@).len(),
            list_tail(final(self)@) == list_tail(old(self)@),
    {
        collect_mut(self, Vec::new())
    }

    /// A walk over the elements of the list, from the first.
    pub fn into_iter<'a>(&'a self) -> (r: ListIter<'a>)
        ensures
            r.rest() == self@,
    {
        ListIter(self)
    }
}

/// A walk over the elements of a list.
pub struct ListIter<'a>(&'a RuspExp);

impl<'a> ListIter<'a> {
    /// What is left of the list.
    pub closed spec fn rest(&self) -> Sexp {
        exp_view(*self.0)
    }

    /// The next element. At `nil` the walk is over. A tail that is neither a
    /// pair nor `nil` is an error, and the walk stays there.
    pub fn next(&mut self) -> (r: Option<Result<&'a RuspExp, RuspErr>>)
        ensures
            match old(self).rest() {
                Sexp::Cons { car, cdr } => {
                    &&& r matches Some(Ok(x))
                    &&& x@ == *car
                    &&& final(self).rest() == *cdr
                },
                tail => {
                    &&& final(self).rest() == tail
                    &&& if tail == nil() {
                        r is None
                    } else {
                        r matches Some(Err(e)) && e@ == wrong_type("nil"@, tail)
                    }
                },
            },
    {
        let cur: &'a RuspExp = self.0;
        match cur {
            RuspExp::Cons { car, cdr } => {
                self.0 = &**cdr;
                Some(Ok(&**car))
            },
            _ => {
                if cur.nilp() {
                    None
                } else {
                    Some(
                        Err(
                            RuspErr::WrongTypeArgument {
                                expected: text("nil"),
                                actual: cur.to_string(),
                            },
                        ),
                    )
                }
            },
        }
    }
}

} // verus!
