//! The executable data: atoms, expressions, environments and errors, each
//! with its view into the model.

use vstd::prelude::*;
use std::rc::Rc;
use crate::model::{nil, truth, Bound, Builtin, Failure, Scope, Sexp};
use crate::text::{is_text, text};

verus! {

/// Why an operation failed.
#[allow(inconsistent_fields)]
#[derive(Debug, Clone, PartialEq, Eq)]
pub enum RuspErr {
    DummyError,
    /// The line held nothing but white space.
    ReplEmptyError,
    /// Text that no further text can mend: a closing parenthesis where an
    /// expression should start, or a dot in a list that is not followed by
    /// exactly one expression and the closing parenthesis.
    ReaderError,
    /// The text ended inside an expression; more text may complete it.
    ReaderEofError,
    /// A backslash in a string literal stood before `char`, which is neither
    /// a double quote nor a backslash.
    ReaderInvalidEscapeError { char: char },
    /// A value of the wrong kind; `actual` is its text.
    WrongTypeArgument { expected: String, actual: String },
    /// A call with `actual` arguments where at least `required` and at most
    /// `allowed` are taken.
    WrongNumberOfArguments { required: usize, allowed: Option<usize>, actual: usize },
    /// The variable `name` is not bound.
    VoidVariable { name: String },
    /// The function `name` is not bound.
    VoidFunction { name: String },
    /// A result of integer arithmetic does not fit in 64 bits, or a divisor
    /// is zero.
    ArithmeticError,
    /// Calls are nested deeper than the evaluation allows.
    RecursionLimitError,
}

/// A value that is not a pair.
#[derive(Debug)]
pub enum RuspAtom {
    Int(i64),
    /// A float, held as the text of its literal.
    Float(String),
    String(String),
    Symbol(String),
    Keyword(String),
    Func(Builtin),
    /// A closure. The scope that it was made in is shared, not copied.
    Lambda { params: Box<RuspExp>, body: Box<RuspExp>, env: Rc<RuspEnv> },
}

/// An expression: an atom, or a pair of expressions. A list is a chain of
/// pairs that ends in the symbol `nil`.
#[derive(Debug)]
pub enum RuspExp {
    Atom(RuspAtom),
    Cons { car: Box<RuspExp>, cdr: Box<RuspExp> },
}

/// A name and the value that it is bound to.
#[derive(Debug)]
pub struct Binding {
    pub name: String,
    pub value: RuspExp,
}

/// A scope: variables, functions and the enclosing scope. Within one list
/// of bindings the first binding of a name is the one in force.
#[derive(Debug)]
pub struct RuspEnv {
    pub variable: Vec<Binding>,
    pub function: Vec<Binding>,
    pub outer: Option<Rc<RuspEnv>>,
}

/// The model's value of an expression.
pub open spec fn exp_view(e: RuspExp) -> Sexp
    decreases e,
{
    match e {
        RuspExp::Atom(RuspAtom::Int(i)) => Sexp::Int(i as int),
        RuspExp::Atom(RuspAtom::Float(s)) => Sexp::Float(s@),
        RuspExp::Atom(RuspAtom::String(s)) => Sexp::Str(s@),
        RuspExp::Atom(RuspAtom::Symbol(s)) => Sexp::Symbol(s@),
        RuspExp::Atom(RuspAtom::Keyword(s)) => Sexp::Keyword(s@),
        RuspExp::Atom(RuspAtom::Func(b)) => Sexp::Func(b),
        RuspExp::Atom(RuspAtom::Lambda { params, body, env }) => Sexp::Lambda {
            params: Box::new(exp_view(*params)),
            body: Box::new(exp_view(*body)),
            env: Box::new(env_view(*env)),
        },
        RuspExp::Cons { car, cdr } => Sexp::Cons {
            car: Box::new(exp_view(*car)),
            cdr: Box::new(exp_view(*cdr)),
        },
    }
}

/// The model's value of a list of bindings.
pub open spec fn bindings_view(v: Vec<Binding>) -> Seq<Bound>
    decreases v,
{
    Seq::new(
        v.len() as nat,
        |i: int|
            if 0 <= i < v.len() {
                Bound { name: v[i].name@, value: exp_view(v[i].value) }
            } else {
                arbitrary()
            },
    )
}

/// The model's value of a scope.
pub open spec fn env_view(e: RuspEnv) -> Scope
    decreases e,
{
    Scope {
        variable: bindings_view(e.variable),
        function: bindings_view(e.function),
        outer: match e.outer {
            Some(outer) => Some(Box::new(env_view(*outer))),
            None => None,
        },
    }
}

impl View for RuspAtom {
    type V = Sexp;

    open spec fn view(&self) -> Sexp {
        exp_view(RuspExp::Atom(*self))
    }
}

impl View for RuspExp {
    type V = Sexp;

    open spec fn view(&self) -> Sexp {
        exp_view(*self)
    }
}

impl View for RuspEnv {
    type V = Scope;

    open spec fn view(&self) -> Scope {
        env_view(*self)
    }
}

impl View for RuspErr {
    type V = Failure;

    open spec fn view(&self) -> Failure {
        match *self {
            RuspErr::DummyError => Failure::Dummy,
            RuspErr::ReplEmptyError => Failure::ReplEmpty,
            RuspErr::ReaderError => Failure::Reader,
            RuspErr::ReaderEofError => Failure::ReaderEof,
            RuspErr::ReaderInvalidEscapeError { char } => Failure::ReaderInvalidEscape { ch: char },
            RuspErr::WrongTypeArgument { expected, actual } => Failure::WrongTypeArgument {
                expected: expected@,
                actual: actual@,
            },
            RuspErr::WrongNumberOfArguments { required, allowed, actual } => {
                Failure::WrongNumberOfArguments {
                    required: required as nat,
                    allowed: match allowed {
                        Some(n) => Some(n as nat),
                        None => None,
                    },
                    actual: actual as nat,
                }
            },
            RuspErr::VoidVariable { name } => Failure::VoidVariable { name: name@ },
            RuspErr::VoidFunction { name } => Failure::VoidFunction { name: name@ },
            RuspErr::ArithmeticError => Failure::Arithmetic,
            RuspErr::RecursionLimitError => Failure::RecursionLimit,
        }
    }
}

/// The model's value of a result.
pub open spec fn result_view(r: Result<RuspExp, RuspErr>) -> Result<Sexp, Failure> {
    match r {
        Ok(x) => Ok(x@),
        Err(e) => Err(e@),
    }
}

/// `Rc::clone`: another pointer to the same value.
#[verifier::external_body]
pub(crate) fn share<T>(r: &Rc<T>) -> (res: Rc<T>)
    ensures
        res == *r,
{
    Rc::clone(r)
}

/// A copy of `a`. The scope that a closure holds is shared with `a`.
pub fn copy_atom(a: &RuspAtom) -> (r: RuspAtom)
    ensures
        r@ == a@,
    decreases a,
{
    match a {
        RuspAtom::Int(i) => RuspAtom::Int(*i),
        RuspAtom::Float(s) => RuspAtom::Float(s.clone()),
        RuspAtom::String(s) => RuspAtom::String(s.clone()),
        RuspAtom::Symbol(s) => RuspAtom::Symbol(s.clone()),
        RuspAtom::Keyword(s) => RuspAtom::Keyword(s.clone()),
        RuspAtom::Func(b) => RuspAtom::Func(*b),
        RuspAtom::Lambda { params, body, env } => RuspAtom::Lambda {
            params: Box::new(copy_exp(params)),
            body: Box::new(copy_exp(body)),
            env: share(env),
        },
    }
}

/// A copy of `e`. Scopes that closures in it hold are shared with `e`.
pub fn copy_exp(e: &RuspExp) -> (r: RuspExp)
    ensures
        r@ == e@,
    decreases e,
{
    match e {
        RuspExp::Atom(a) => RuspExp::Atom(copy_atom(a)),
        RuspExp::Cons { car, cdr } => RuspExp::Cons {
            car: Box::new(copy_exp(car)),
            cdr: Box::new(copy_exp(cdr)),
        },
    }
}

pub fn copy_bindings(v: &Vec<Binding>) -> (r: Vec<Binding>)
    ensures
        bindings_view(r) == bindings_view(*v),
    decreases v,
{
    let mut r: Vec<Binding> = Vec::new();
    let mut i: usize = 0;
    while i < v.len()
        invariant
            i <= v.len(),
            r.len() == i,
            forall|j: int|
                0 <= j < i ==> r[j].name@ == v[j].name@ && exp_view(#[trigger] r[j].value)
                    == exp_view(v[j].value),
        decreases v.len() - i,
    {
        let b = &v[i];
        r.push(Binding { name: b.name.clone(), value: copy_exp(&b.value) });
        i += 1;
    }
    assert(bindings_view(r) =~= bindings_view(*v));
    r
}

/// A copy of the bindings of `e`, inside the same enclosing scope.
pub fn copy_env(e: &RuspEnv) -> (r: RuspEnv)
    ensures
        r@ == e@,
    decreases e,
{
    RuspEnv {
        variable: copy_bindings(&e.variable),
        function: copy_bindings(&e.function),
        outer: match &e.outer {
            Some(outer) => Some(share(outer)),
            None => None,
        },
    }
}

impl Clone for RuspAtom {
    fn clone(&self) -> (r: RuspAtom)
        ensures
            r@ == self@,
    {
        copy_atom(self)
    }
}

impl Clone for Binding {
    fn clone(&self) -> (r: Binding)
        ensures
            r.name@ == self.name@,
            r.value@ == self.value@,
    {
        Binding { name: self.name.clone(), value: copy_exp(&self.value) }
    }
}

impl Default for RuspEnv {
    fn default() -> (r: RuspEnv)
        ensures
            r@ == Scope::empty(),
    {
        let r = RuspEnv { variable: Vec::new(), function: Vec::new(), outer: None };
        assert(bindings_view(r.variable) =~= Seq::empty());
        assert(bindings_view(r.function) =~= Seq::empty());
        r
    }
}

impl Clone for RuspExp {
    fn clone(&self) -> (r: RuspExp)
        ensures
            r@ == self@,
    {
        copy_exp(self)
    }
}

impl Clone for RuspEnv {
    fn clone(&self) -> (r: RuspEnv)
        ensures
            r@ == self@,
    {
        copy_env(self)
    }
}

impl RuspExp {
    /// The symbol `nil`: the empty list, and the one false value.
    pub fn nil() -> (r: RuspExp)
        ensures
            r@ == nil(),
    {
        RuspExp::Atom(RuspAtom::Symbol(text("nil")))
    }

    /// The symbol `t`: the canonical true value.
    pub fn t() -> (r: RuspExp)
        ensures
            r@ == truth(),
    {
        RuspExp::Atom(RuspAtom::Symbol(text("t")))
    }

    pub fn symbol(name: &str) -> (r: RuspExp)
        ensures
            r@ == Sexp::Symbol(name@),
    {
        RuspExp::Atom(RuspAtom::Symbol(text(name)))
    }

    pub fn integer(i: i64) -> (r: RuspExp)
        ensures
            r@ == Sexp::Int(i as int),
    {
        RuspExp::Atom(RuspAtom::Int(i))
    }

    pub fn cons(car: RuspExp, cdr: RuspExp) -> (r: RuspExp)
        ensures
            r@ == crate::model::cons(car@, cdr@),
    {
        RuspExp::Cons { car: Box::new(car), cdr: Box::new(cdr) }
    }

    pub fn nilp(&self) -> (r: bool)
        ensures
            r == self@.is_nil(),
    {
        match self {
            RuspExp::Atom(RuspAtom::Symbol(s)) => is_text(s, "nil"),
            _ => false,
        }
    }

    pub fn non_nil_p(&self) -> (r: bool)
        ensures
            r == !self@.is_nil(),
    {
        !self.nilp()
    }

    pub fn atom(&self) -> (r: bool)
        ensures
            r == !(self@ is Cons),
    {
        match self {
            RuspExp::Atom(_) => true,
            _ => false,
        }
    }

    pub fn consp(&self) -> (r: bool)
        ensures
            r == (self@ is Cons),
    {
        match self {
            RuspExp::Cons { .. } => true,
            _ => false,
        }
    }

    pub fn listp(&self) -> (r: bool)
        ensures
            r == (self@.is_nil() || self@ is Cons),
    {
        self.nilp() || self.consp()
    }

    pub fn intp(&self) -> (r: bool)
        ensures
            r == (self@ is Int),
    {
        match self {
            RuspExp::Atom(RuspAtom::Int(_)) => true,
            _ => false,
        }
    }

    pub fn floatp(&self) -> (r: bool)
        ensures
            r == (self@ is Float),
    {
        match self {
            RuspExp::Atom(RuspAtom::Float(_)) => true,
            _ => false,
        }
    }

    pub fn numberp(&self) -> (r: bool)
        ensures
            r == self@.is_number(),
    {
        self.intp() || self.floatp()
    }

    pub fn stringp(&self) -> (r: bool)
        ensures
            r == (self@ is Str),
    {
        match self {
            RuspExp::Atom(RuspAtom::String(_)) => true,
            _ => false,
        }
    }

    pub fn symbolp(&self) -> (r: bool)
        ensures
            r == (self@ is Symbol),
    {
        match self {
            RuspExp::Atom(RuspAtom::Symbol(_)) => true,
            _ => false,
        }
    }

    pub fn functionp(&self) -> (r: bool)
        ensures
            r == (self@ is Func),
    {
        match self {
            RuspExp::Atom(RuspAtom::Func(_)) => true,
            _ => false,
        }
    }
}

} // verus!
