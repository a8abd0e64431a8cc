//! Equality of expressions and of environments.

use vstd::prelude::*;
use vstd::std_specs::cmp::PartialEqSpecImpl;
use crate::model::{Bound, Scope, Sexp};
use crate::types::{bindings_view, Binding, RuspAtom, RuspEnv, RuspExp};

verus! {

/// Equality of expressions: structural, except that a native function is
/// equal to nothing, not even to itself.
pub open spec fn same(a: Sexp, b: Sexp) -> bool
    decreases a,
{
    match (a, b) {
        (Sexp::Int(x), Sexp::Int(y)) => x == y,
        (Sexp::Float(x), Sexp::Float(y)) => x == y,
        (Sexp::Str(x), Sexp::Str(y)) => x == y,
        (Sexp::Symbol(x), Sexp::Symbol(y)) => x == y,
        (Sexp::Keyword(x), Sexp::Keyword(y)) => x == y,
        (
            Sexp::Lambda { params: params_a, body: body_a, env: env_a },
            Sexp::Lambda { params: params_b, body: body_b, env: env_b },
        ) => same(*params_a, *params_b) && same(*body_a, *body_b) && same_scope(*env_a, *env_b),
        (Sexp::Cons { car: car_a, cdr: cdr_a }, Sexp::Cons { car: car_b, cdr: cdr_b }) => same(*car_a, *car_b)
            && same(*cdr_a, *cdr_b),
        _ => false,
    }
}

/// Equality of binding lists: the same names in the same order, bound to
/// equal values.
pub open spec fn same_bindings(a: Seq<Bound>, b: Seq<Bound>) -> bool
    decreases a,
{
    &&& a.len() == b.len()
    &&& forall|i: int|
        0 <= i < a.len() ==> a[i].name == b[i].name && same(#[trigger] a[i].value, b[i].value)
}

/// Equality of scopes: equal bindings, and equal enclosing scopes.
pub open spec fn same_scope(a: Scope, b: Scope) -> bool
    decreases a,
{
    &&& same_bindings(a.variable, b.variable)
    &&& same_bindings(a.function, b.function)
    &&& match (a.outer, b.outer) {
        (Some(x), Some(y)) => same_scope(*x, *y),
        (None, None) => true,
        _ => false,
    }
}

/// Whether two expressions are equal.
pub fn exp_equal(a: &RuspExp, b: &RuspExp) -> (r: bool)
    ensures
        r == same(a@, b@),
    decreases a,
{
    match (a, b) {
        (RuspExp::Atom(x), RuspExp::Atom(y)) => atom_equal(x, y),
        (RuspExp::Cons { car: car_a, cdr: cdr_a }, RuspExp::Cons { car: car_b, cdr: cdr_b }) => {
            exp_equal(car_a, car_b) && exp_equal(cdr_a, cdr_b)
        },
        _ => false,
    }
}

/// Whether two lists of bindings are equal.
pub fn bindings_equal(a: &Vec<Binding>, b: &Vec<Binding>) -> (r: bool)
    ensures
        r == same_bindings(bindings_view(*a), bindings_view(*b)),
    decreases a,
{
    if a.len() != b.len() {
        return false;
    }
    let mut i: usize = 0;
    while i < a.len()
        invariant
            i <= a.len(),
            a.len() == b.len(),
            forall|j: int|
                0 <= j < i ==> a[j].name@ == b[j].name@ && same(
                    #[trigger] bindings_view(*a)[j].value,
                    bindings_view(*b)[j].value,
                ),
        decreases a.len() - i,
    {
        if !(a[i].name == b[i].name && exp_equal(&a[i].value, &b[i].value)) {
            assert(!(bindings_view(*a)[i as int].name == bindings_view(*b)[i as int].name && same(
                bindings_view(*a)[i as int].value,
                bindings_view(*b)[i as int].value,
            )));
            return false;
        }
        i += 1;
    }
    true
}

/// Whether two scopes are equal.
pub fn env_equal(a: &RuspEnv, b: &RuspEnv) -> (r: bool)
    ensures
        r == same_scope(a@, b@),
    decreases a,
{
    bindings_equal(&a.variable, &b.variable) && bindings_equal(&a.function, &b.function) && match (
        &a.outer,
        &b.outer,
    ) {
        (Some(x), Some(y)) => env_equal(&**x, &**y),
        (None, None) => true,
        _ => false,
    }
}

/// Whether two atoms are equal.
pub fn atom_equal(a: &RuspAtom, b: &RuspAtom) -> (r: bool)
    ensures
        r == same(a@, b@),
    decreases a,
{
    match (a, b) {
        (RuspAtom::Int(x), RuspAtom::Int(y)) => *x == *y,
        (RuspAtom::Float(x), RuspAtom::Float(y)) => *x == *y,
        (RuspAtom::String(x), RuspAtom::String(y)) => *x == *y,
        (RuspAtom::Symbol(x), RuspAtom::Symbol(y)) => *x == *y,
        (RuspAtom::Keyword(x), RuspAtom::Keyword(y)) => *x == *y,
        (
            RuspAtom::Lambda { params: params_a, body: body_a, env: env_a },
            RuspAtom::Lambda { params: params_b, body: body_b, env: env_b },
        ) => exp_equal(params_a, params_b) && exp_equal(body_a, body_b) && env_equal(
            &**env_a,
            &**env_b,
        ),
        _ => false,
    }
}

impl PartialEq for RuspAtom {
    fn eq(&self, other: &RuspAtom) -> (r: bool) {
        atom_equal(self, other)
    }
}

impl PartialEqSpecImpl for RuspAtom {
    open spec fn obeys_eq_spec() -> bool {
        true
    }

    open spec fn eq_spec(&self, other: &RuspAtom) -> bool {
        same(self@, other@)
    }
}

impl PartialEq for RuspExp {
    fn eq(&self, other: &RuspExp) -> (r: bool) {
        exp_equal(self, other)
    }
}

impl PartialEqSpecImpl for RuspExp {
    open spec fn obeys_eq_spec() -> bool {
        true
    }

    open spec fn eq_spec(&self, other: &RuspExp) -> bool {
        same(self@, other@)
    }
}

impl PartialEq for RuspEnv {
    fn eq(&self, other: &RuspEnv) -> (r: bool) {
        env_equal(self, other)
    }
}

impl PartialEqSpecImpl for RuspEnv {
    open spec fn obeys_eq_spec() -> bool {
        true
    }

    open spec fn eq_spec(&self, other: &RuspEnv) -> bool {
        same_scope(self@, other@)
    }
}

} // verus!
