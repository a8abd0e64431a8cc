//! The printer: the canonical text of an expression.

use vstd::prelude::*;
use crate::model::{nil, Bound, Failure, Scope, Sexp};
use crate::text::{decimal, is_text, write_int, write_str};
use crate::types::{bindings_view, exp_view, Binding, RuspAtom, RuspEnv, RuspErr, RuspExp};

verus! {

/// Whether `x` is `(quote X)` for some `X`, which prints as `'X`.
pub open spec fn is_quote_form(x: Sexp) -> bool {
    &&& x matches Sexp::Cons { car, cdr }
    &&& *car == Sexp::Symbol("quote"@)
    &&& *cdr matches Sexp::Cons { car: quoted, cdr: rest }
    &&& *rest == nil()
}

/// The `X` of `(quote X)`.
pub open spec fn quoted_of(x: Sexp) -> Sexp
    recommends
        is_quote_form(x),
{
    *x->cdr->car
}

/// The canonical text of `x`. An atom prints as its text; a keyword after a
/// colon; `(quote X)` as `'X`; any other pair in parentheses, its elements
/// separated by single spaces, with ` . ` before a last tail that is not
/// `nil`.
pub open spec fn print(x: Sexp) -> Seq<char>
    decreases x, 0nat,
{
    match x {
        Sexp::Int(i) => decimal(i),
        Sexp::Float(s) => s,
        Sexp::Str(s) => s,
        Sexp::Symbol(s) => s,
        Sexp::Keyword(s) => seq![':'] + s,
        Sexp::Func(_) => "#<function>"@,
        Sexp::Lambda { params, body, env } => "#<lambda "@ + print(*params) + seq![' '] + print(
            *body,
        ) + seq!['>'],
        Sexp::Cons { car, cdr } => if is_quote_form(x) {
            seq!['\''] + print(*cdr->car)
        } else {
            seq!['('] + print(*car) + print_tail(*cdr) + seq![')']
        },
    }
}

/// What follows the first element inside the parentheses: each further
/// element after a space, then ` . ` and the tail if the list does not end in
/// `nil`.
pub open spec fn print_tail(x: Sexp) -> Seq<char>
    decreases x, 1nat,
{
    match x {
        Sexp::Cons { car, cdr } => seq![' '] + print(*car) + print_tail(*cdr),
        _ => if x == nil() {
            Seq::empty()
        } else {
            seq![' ', '.', ' '] + print(x)
        },
    }
}

/// The bindings `bindings[i..]`, each as `(name value)`, with one space
/// between two of them.
pub open spec fn print_bindings(bindings: Seq<Bound>, i: int) -> Seq<char>
    decreases bindings.len() - i,
{
    if i < 0 || i >= bindings.len() {
        Seq::empty()
    } else {
        (if i > 0 {
            seq![' ']
        } else {
            Seq::empty()
        }) + seq!['('] + bindings[i].name + seq![' '] + print(bindings[i].value) + seq![')']
            + print_bindings(bindings, i + 1)
    }
}

/// The text of the bindings of a scope: `(var (...) fn (...))`, with the
/// variables and the functions in the order in which they were first bound.
/// The enclosing scopes are not shown.
pub open spec fn print_scope(s: Scope) -> Seq<char> {
    "(var ("@ + print_bindings(s.variable, 0) + ") fn ("@ + print_bindings(s.function, 0) + "))"@
}

/// The name of a failure, as it is shown to the user.
pub open spec fn failure_name(f: Failure) -> Seq<char> {
    match f {
        Failure::Dummy => "DummyError"@,
        Failure::ReplEmpty => "ReplEmptyError"@,
        Failure::Reader => "ReaderError"@,
        Failure::ReaderEof => "ReaderEofError"@,
        Failure::ReaderInvalidEscape { .. } => "ReaderInvalidEscapeError"@,
        Failure::WrongTypeArgument { .. } => "WrongTypeArgument"@,
        Failure::WrongNumberOfArguments { .. } => "WrongNumberOfArguments"@,
        Failure::VoidVariable { .. } => "VoidVariable"@,
        Failure::VoidFunction { .. } => "VoidFunction"@,
        Failure::Arithmetic => "ArithmeticError"@,
        Failure::RecursionLimit => "RecursionLimitError"@,
        Failure::FloatDependent => Seq::empty(),
    }
}

/// Appends the text of `x` to `out`.
pub fn write_exp(x: &RuspExp, out: &mut String)
    ensures
        final(out)@ == old(out)@ + print(x@),
    decreases x, 0nat,
{
    match x {
        RuspExp::Atom(RuspAtom::Int(i)) => write_int(*i, out),
        RuspExp::Atom(RuspAtom::Float(s)) => write_str(s.as_str(), out),
        RuspExp::Atom(RuspAtom::String(s)) => write_str(s.as_str(), out),
        RuspExp::Atom(RuspAtom::Symbol(s)) => write_str(s.as_str(), out),
        RuspExp::Atom(RuspAtom::Keyword(s)) => {
            out.push(':');
            write_str(s.as_str(), out);
            assert(out@ =~= old(out)@ + print(x@));
        },
        RuspExp::Atom(RuspAtom::Func(_)) => write_str("#<function>", out),
        RuspExp::Atom(RuspAtom::Lambda { params, body, env }) => {
            write_str("#<lambda ", out);
            write_exp(params, out);
            out.push(' ');
            write_exp(body, out);
            out.push('>');
            assert(out@ =~= old(out)@ + print(x@));
        },
        RuspExp::Cons { car, cdr } => {
            if let Some(quoted) = quoted(x) {
                out.push('\'');
                write_exp(quoted, out);
                assert(out@ =~= old(out)@ + print(x@));
            } else {
                out.push('(');
                write_exp(car, out);
                write_tail(cdr, out);
                out.push(')');
                assert(out@ =~= old(out)@ + print(x@));
            }
        },
    }
}

/// The `X` of `(quote X)`, if `x` has that shape.
pub fn quoted(x: &RuspExp) -> (r: Option<&RuspExp>)
    ensures
        r is Some <==> is_quote_form(x@),
        r matches Some(q) ==> q@ == quoted_of(x@) && decreases_to!(x => q),
{
    proof {
        reveal_with_fuel(exp_view, 3);
    }
    if let RuspExp::Cons { car, cdr } = x {
        if let RuspExp::Atom(RuspAtom::Symbol(s)) = &**car {
            if is_text(s, "quote") {
                if let RuspExp::Cons { car: quoted, cdr: rest } = &**cdr {
                    if rest.nilp() {
                        return Some(&**quoted);
                    }
                }
            }
        }
    }
    None
}

fn write_tail(x: &RuspExp, out: &mut String)
    ensures
        final(out)@ == old(out)@ + print_tail(x@),
    decreases x, 1nat,
{
    match x {
        RuspExp::Cons { car, cdr } => {
            out.push(' ');
            write_exp(car, out);
            write_tail(cdr, out);
            assert(out@ =~= old(out)@ + print_tail(x@));
        },
        _ => {
            if !x.nilp() {
                out.push(' ');
                out.push('.');
                out.push(' ');
                write_exp(x, out);
                assert(out@ =~= old(out)@ + print_tail(x@));
            } else {
                assert(out@ =~= old(out)@ + print_tail(x@));
            }
        },
    }
}

impl RuspExp {
    /// The canonical text of the expression.
    pub fn to_string(&self) -> (r: String)
        ensures
            r@ == print(self@),
    {
        let mut out = String::new();
        write_exp(self, &mut out);
        assert(out@ =~= print(self@));
        out
    }
}

fn write_bindings(bindings: &Vec<Binding>, out: &mut String)
    ensures
        final(out)@ == old(out)@ + print_bindings(bindings_view(*bindings), 0),
{
    let ghost bs = bindings_view(*bindings);
    let mut i: usize = 0;
    while i < bindings.len()
        invariant
            i <= bindings.len(),
            bs == bindings_view(*bindings),
            out@ + print_bindings(bs, i as int) == old(out)@ + print_bindings(bs, 0),
        decreases bindings.len() - i,
    {
        let ghost before = out@;
        if i > 0 {
            out.push(' ');
        }
        out.push('(');
        write_str(bindings[i].name.as_str(), out);
        out.push(' ');
        write_exp(&bindings[i].value, out);
        out.push(')');
        assert(out@ + print_bindings(bs, i + 1) =~= before + print_bindings(bs, i as int));
        i += 1;
    }
    assert(out@ + print_bindings(bs, i as int) =~= out@);
}

impl RuspEnv {
    /// The text of the bindings of this scope.
    pub fn to_string(&self) -> (r: String)
        ensures
            r@ == print_scope(self@),
    {
        let mut out = String::new();
        write_str("(var (", &mut out);
        write_bindings(&self.variable, &mut out);
        write_str(") fn (", &mut out);
        write_bindings(&self.function, &mut out);
        write_str("))", &mut out);
        assert(out@ =~= print_scope(self@));
        out
    }
}

impl RuspErr {
    /// The name of the error.
    pub fn to_string(&self) -> (r: String)
        ensures
            r@ == failure_name(self@),
    {
        match self {
            RuspErr::DummyError => crate::text::text("DummyError"),
            RuspErr::ReplEmptyError => crate::text::text("ReplEmptyError"),
            RuspErr::ReaderError => crate::text::text("ReaderError"),
            RuspErr::ReaderEofError => crate::text::text("ReaderEofError"),
            RuspErr::ReaderInvalidEscapeError { .. } => crate::text::text(
                "ReaderInvalidEscapeError",
            ),
            RuspErr::WrongTypeArgument { .. } => crate::text::text("WrongTypeArgument"),
            RuspErr::WrongNumberOfArguments { .. } => crate::text::text("WrongNumberOfArguments"),
            RuspErr::VoidVariable { .. } => crate::text::text("VoidVariable"),
            RuspErr::VoidFunction { .. } => crate::text::text("VoidFunction"),
            RuspErr::ArithmeticError => crate::text::text("ArithmeticError"),
            RuspErr::RecursionLimitError => crate::text::text("RecursionLimitError"),
        }
    }
}

} // verus!
