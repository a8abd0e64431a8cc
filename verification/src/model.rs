//! The mathematical model of the language: expressions, scopes and failures
//! as plain values over `int` and `Seq<char>`. Contracts of the executable
//! code are stated over these.

use vstd::prelude::*;

verus! {

/// The four arithmetic operations.
#[derive(Debug, Clone, Copy, PartialEq, Eq, Structural)]
pub enum ArithOp {
    Plus,
    Minus,
    Multiply,
    Divide,
}

/// The six relations between numbers.
#[derive(Debug, Clone, Copy, PartialEq, Eq, Structural)]
pub enum Relation {
    Equal,
    NotEqual,
    Less,
    LessOrEqual,
    Greater,
    GreaterOrEqual,
}

/// The built-in forms. A native function value is one of these tags.
#[derive(Debug, Clone, Copy, PartialEq, Eq, Structural)]
pub enum Builtin {
    Arith(ArithOp),
    Compare(Relation),
    IfForm,
    SetForm,
    SetqForm,
    QuoteForm,
    LambdaForm,
    ApplyForm,
}

/// A name bound to a value, as a scope stores it.
pub struct Bound {
    pub name: Seq<char>,
    pub value: Sexp,
}

/// An expression as a mathematical value.
pub enum Sexp {
    Int(int),
    /// A float, held as the text of its literal.
    Float(Seq<char>),
    Str(Seq<char>),
    Symbol(Seq<char>),
    Keyword(Seq<char>),
    Func(Builtin),
    Lambda { params: Box<Sexp>, body: Box<Sexp>, env: Box<Scope> },
    Cons { car: Box<Sexp>, cdr: Box<Sexp> },
}

/// A scope: variable bindings, function bindings and the enclosing scope.
/// Within one list the first binding of a name is the one in force.
pub struct Scope {
    pub variable: Seq<Bound>,
    pub function: Seq<Bound>,
    pub outer: Option<Box<Scope>>,
}

/// Why an operation did not produce a value.
#[allow(inconsistent_fields)]
pub enum Failure {
    Dummy,
    ReplEmpty,
    Reader,
    ReaderEof,
    ReaderInvalidEscape { ch: char },
    WrongTypeArgument { expected: Seq<char>, actual: Seq<char> },
    WrongNumberOfArguments { required: nat, allowed: Option<nat>, actual: nat },
    VoidVariable { name: Seq<char> },
    VoidFunction { name: Seq<char> },
    Arithmetic,
    RecursionLimit,
    /// The outcome rests on floating-point arithmetic, which the model does
    /// not describe.
    FloatDependent,
}

impl Failure {
    /// A failure that evaluation can end in: a value of the wrong kind, a
    /// wrong number of arguments, a name that is not bound, arithmetic that
    /// cannot be done, or calls nested too deep.
    pub open spec fn is_of_evaluation(self) -> bool {
        ||| self is WrongTypeArgument
        ||| self is WrongNumberOfArguments
        ||| self is VoidVariable
        ||| self is VoidFunction
        ||| self == Failure::Arithmetic
        ||| self == Failure::RecursionLimit
    }
}

pub open spec fn sym(name: Seq<char>) -> Sexp {
    Sexp::Symbol(name)
}

pub open spec fn nil() -> Sexp {
    Sexp::Symbol("nil"@)
}

pub open spec fn truth() -> Sexp {
    Sexp::Symbol("t"@)
}

pub open spec fn cons(car: Sexp, cdr: Sexp) -> Sexp {
    Sexp::Cons { car: Box::new(car), cdr: Box::new(cdr) }
}

impl Sexp {
    pub open spec fn is_nil(self) -> bool {
        self == nil()
    }

    pub open spec fn is_number(self) -> bool {
        self is Int || self is Float
    }
}

/// The index of the first binding of `name` in `bindings`, or the length of
/// `bindings` if there is none.
pub open spec fn position(bindings: Seq<Bound>, name: Seq<char>) -> int
    decreases bindings.len(),
{
    if bindings.len() == 0 {
        0
    } else if bindings[0].name == name {
        0
    } else {
        1 + position(bindings.drop_first(), name)
    }
}

/// The value of the first binding of `name` in `bindings`, if there is one.
pub open spec fn assoc(bindings: Seq<Bound>, name: Seq<char>) -> Option<Sexp> {
    let p = position(bindings, name);
    if p < bindings.len() {
        Some(bindings[p].value)
    } else {
        None
    }
}

/// `bindings` with `name` bound to `value`: the first binding of `name` is
/// replaced, or a new one is added at the end.
pub open spec fn bind(bindings: Seq<Bound>, name: Seq<char>, value: Sexp) -> Seq<Bound> {
    let p = position(bindings, name);
    if p < bindings.len() {
        bindings.update(p, Bound { name, value })
    } else {
        bindings.push(Bound { name, value })
    }
}

/// `position` is the least index that holds `name`.
pub proof fn lemma_position(bindings: Seq<Bound>, name: Seq<char>)
    ensures
        0 <= position(bindings, name) <= bindings.len(),
        forall|j: int| 0 <= j < position(bindings, name) ==> (#[trigger] bindings[j]).name != name,
        position(bindings, name) < bindings.len() ==> bindings[position(bindings, name)].name
            == name,
    decreases bindings.len(),
{
    if bindings.len() > 0 && bindings[0].name != name {
        let rest = bindings.drop_first();
        lemma_position(rest, name);
        assert forall|j: int| 0 <= j < position(bindings, name) implies (#[trigger] bindings[j]).name
            != name by {
            if j > 0 {
                assert(bindings[j] == rest[j - 1]);
            }
        }
    }
}

/// An index that holds `name`, or the length, with no earlier index holding
/// it, is the `position`.
pub proof fn lemma_position_is(bindings: Seq<Bound>, name: Seq<char>, i: int)
    requires
        0 <= i <= bindings.len(),
        forall|j: int| 0 <= j < i ==> (#[trigger] bindings[j]).name != name,
        i < bindings.len() ==> bindings[i].name == name,
    ensures
        position(bindings, name) == i,
{
    lemma_position(bindings, name);
    let p = position(bindings, name);
    if p < i {
        assert(bindings[p].name != name);
    } else if i < p {
        assert(bindings[i].name != name);
    }
}

/// After `bind`, `name` is found with `value`, and every other name is found
/// as before.
pub proof fn lemma_bind_assoc(bindings: Seq<Bound>, name: Seq<char>, value: Sexp, other: Seq<char>)
    ensures
        assoc(bind(bindings, name, value), other) == if other == name {
            Some(value)
        } else {
            assoc(bindings, other)
        },
{
    lemma_position(bindings, name);
    lemma_position(bindings, other);
    let p = position(bindings, name);
    let q = position(bindings, other);
    let after = bind(bindings, name, value);
    if other == name {
        lemma_position_is(after, name, p);
    } else {
        assert forall|j: int| 0 <= j < q implies (#[trigger] after[j]).name != other by {
            if j < bindings.len() {
                assert(bindings[j].name != other);
            }
        }
        if q < bindings.len() {
            lemma_position_is(after, other, q);
        } else {
            lemma_position_is(after, other, after.len() as int);
        }
    }
}

impl Scope {
    pub open spec fn empty() -> Scope {
        Scope { variable: Seq::empty(), function: Seq::empty(), outer: None }
    }

    /// A fresh scope inside `parent`.
    pub open spec fn child_of(parent: Scope) -> Scope {
        Scope { variable: Seq::empty(), function: Seq::empty(), outer: Some(Box::new(parent)) }
    }

    /// The variable `name` as seen from this scope: the local binding, else
    /// what the enclosing scopes hold.
    pub open spec fn variable_of(self, name: Seq<char>) -> Option<Sexp>
        decreases self,
    {
        match assoc(self.variable, name) {
            Some(v) => Some(v),
            None => match self.outer {
                Some(outer) => outer.variable_of(name),
                None => None,
            },
        }
    }

    /// The function `name` as seen from this scope.
    pub open spec fn function_of(self, name: Seq<char>) -> Option<Sexp>
        decreases self,
    {
        match assoc(self.function, name) {
            Some(v) => Some(v),
            None => match self.outer {
                Some(outer) => outer.function_of(name),
                None => None,
            },
        }
    }

    pub open spec fn bind_variable(self, name: Seq<char>, value: Sexp) -> Scope {
        Scope { variable: bind(self.variable, name, value), ..self }
    }

    pub open spec fn bind_function(self, name: Seq<char>, value: Sexp) -> Scope {
        Scope { function: bind(self.function, name, value), ..self }
    }
}

} // verus!
