//! Laws of the reader, the printer and the evaluator, proved of the model
//! that the contracts of the executable code are stated over.

use vstd::prelude::*;
use crate::grammar::{
    atom_of, digits_end, int_literal_value, is_delimiter, is_float_literal, is_int_literal,
    is_whitespace, lemma_digits_end, lemma_read_bounds, lemma_skip_space, lemma_token_end, parsed,
    read_at, read_list_at, read_string_at, sign_len, skip_space, token_end,
};
use crate::model::{
    assoc, cons, lemma_bind_assoc, nil, ArithOp, Builtin, Failure, Relation, Scope, Sexp,
};
use crate::printer::{is_quote_form, print, print_tail};
use crate::semantics::{
    apply_closure, apply_form, arith, bind_args, call_builtin, compare, eval, eval_each,
    extract_args, fail, if_form, in_i64, is_lambda_form, lambda_form, list_items, param_names,
    set_form,
};
use crate::text::{all_digits, decimal, decimal_nat, digit_char, digits_value, is_digit};

verus! {

/// No closing parenthesis stands in `s` at or after `pos`.
pub open spec fn never_closed(s: Seq<char>, pos: int) -> bool {
    forall|i: int| pos <= i < s.len() ==> #[trigger] s[i] != ')'
}

/// The failure of a text that ends too early, or of a string literal with an
/// escape that is not known.
pub open spec fn is_eof_or_escape(r: Result<Sexp, Failure>) -> bool {
    r matches Err(e) && (e == Failure::ReaderEof || e is ReaderInvalidEscape)
}

/// Reading a string literal fails only with `ReaderEof` or
/// `ReaderInvalidEscape`.
pub proof fn law_string_failures(s: Seq<char>, pos: int, acc: Seq<char>)
    requires
        0 <= pos <= s.len(),
    ensures
        read_string_at(s, pos, acc).result is Ok || is_eof_or_escape(
            read_string_at(s, pos, acc).result,
        ),
    decreases s.len() - pos,
{
    if pos < s.len() && s[pos] != '"' {
        if s[pos] == '\\' {
            if pos + 1 < s.len() && (s[pos + 1] == '"' || s[pos + 1] == '\\') {
                law_string_failures(s, pos + 2, acc.push(s[pos + 1]));
            }
        } else {
            law_string_failures(s, pos + 1, acc.push(s[pos]));
        }
    }
}

/// Every dot in `s` stands inside a token, after a character of that
/// token: none stands after white space, a parenthesis or the end of a
/// string, where it would make a dotted pair.
pub open spec fn dots_inside_tokens(s: Seq<char>) -> bool {
    forall|i: int|
        0 <= i < s.len() && #[trigger] s[i] == '.' ==> i > 0 && !is_delimiter(s[i - 1]) && s[i
            - 1] != '"'
}

/// Where an expression can end: at the end of the text, before a delimiter,
/// or after a double quote or a closing parenthesis.
pub open spec fn is_end_of_expression(s: Seq<char>, n: int) -> bool {
    ||| n >= s.len()
    ||| is_delimiter(s[n])
    ||| n > 0 && (s[n - 1] == '"' || s[n - 1] == ')')
}

/// A string literal that was read ends after a double quote.
pub proof fn lemma_string_end(s: Seq<char>, pos: int, acc: Seq<char>)
    requires
        0 <= pos <= s.len(),
        read_string_at(s, pos, acc).result is Ok,
    ensures
        0 < read_string_at(s, pos, acc).next <= s.len(),
        s[read_string_at(s, pos, acc).next - 1] == '"',
    decreases s.len() - pos,
{
    if pos < s.len() && s[pos] != '"' {
        if s[pos] == '\\' {
            if pos + 1 < s.len() && (s[pos + 1] == '"' || s[pos + 1] == '\\') {
                lemma_string_end(s, pos + 2, acc.push(s[pos + 1]));
            }
        } else {
            lemma_string_end(s, pos + 1, acc.push(s[pos]));
        }
    }
}

/// An expression that was read ends where an expression can end.
pub proof fn lemma_read_end(s: Seq<char>, pos: int)
    requires
        0 <= pos <= s.len(),
        read_at(s, pos).result is Ok,
    ensures
        is_end_of_expression(s, read_at(s, pos).next),
    decreases s.len() - pos, 0nat,
{
    lemma_skip_space(s, pos);
    let p = skip_space(s, pos);
    if p < s.len() {
        if s[p] == '\'' {
            lemma_read_end(s, p + 1);
        } else if s[p] == ':' {
            lemma_token_end(s, p + 1);
        } else if s[p] == '"' {
            lemma_string_end(s, p + 1, Seq::empty());
        } else if s[p] == '(' {
            lemma_list_end(s, p + 1);
        } else if s[p] != ')' {
            lemma_token_end(s, p);
        }
    }
}

/// A list that was read ends after a closing parenthesis.
pub proof fn lemma_list_end(s: Seq<char>, pos: int)
    requires
        0 <= pos <= s.len(),
        read_list_at(s, pos).result is Ok,
    ensures
        0 < read_list_at(s, pos).next <= s.len(),
        s[read_list_at(s, pos).next - 1] == ')',
    decreases s.len() - pos, 1nat,
{
    lemma_skip_space(s, pos);
    let p = skip_space(s, pos);
    if p < s.len() && s[p] != ')' {
        lemma_read_bounds(s, p);
        let first = read_at(s, p);
        if first.result is Ok {
            lemma_skip_space(s, first.next);
            let q = skip_space(s, first.next);
            if q < s.len() && s[q] == '.' {
                lemma_skip_space(s, q + 1);
                let r = skip_space(s, q + 1);
                if !(r < s.len() && s[r] == ')') {
                    lemma_read_bounds(s, r);
                    if read_at(s, r).result is Ok {
                        lemma_skip_space(s, read_at(s, r).next);
                    }
                }
            } else {
                lemma_list_end(s, first.next);
            }
        }
    }
}

/// The failures that reading can end in.
pub open spec fn is_reader_failure(e: Failure) -> bool {
    e == Failure::Reader || e == Failure::ReaderEof || e is ReaderInvalidEscape
}

/// Reading an expression fails only with `Reader`, `ReaderEof` or
/// `ReaderInvalidEscape`.
pub proof fn law_reader_failures(s: Seq<char>, pos: int)
    requires
        0 <= pos <= s.len(),
    ensures
        read_at(s, pos).result matches Err(e) ==> is_reader_failure(e),
    decreases s.len() - pos, 0nat,
{
    lemma_skip_space(s, pos);
    let p = skip_space(s, pos);
    if p < s.len() {
        if s[p] == '\'' {
            law_reader_failures(s, p + 1);
        } else if s[p] == '"' {
            law_string_failures(s, p + 1, Seq::empty());
        } else if s[p] == '(' {
            law_list_failures(s, p + 1);
        }
    }
}

/// Reading a list fails only with `Reader`, `ReaderEof` or
/// `ReaderInvalidEscape`.
pub proof fn law_list_failures(s: Seq<char>, pos: int)
    requires
        0 <= pos <= s.len(),
    ensures
        read_list_at(s, pos).result matches Err(e) ==> is_reader_failure(e),
    decreases s.len() - pos, 1nat,
{
    lemma_skip_space(s, pos);
    let p = skip_space(s, pos);
    if p < s.len() && s[p] != ')' {
        law_reader_failures(s, p);
        lemma_read_bounds(s, p);
        let first = read_at(s, p);
        if first.result is Ok {
            assert(skip_space(s, p) == p);
            lemma_skip_space(s, first.next);
            let q = skip_space(s, first.next);
            if q < s.len() && s[q] == '.' {
                lemma_skip_space(s, q + 1);
                let r = skip_space(s, q + 1);
                if !(r < s.len() && s[r] == ')') {
                    law_reader_failures(s, r);
                }
            } else {
                law_list_failures(s, first.next);
            }
        }
    }
}

/// Where no closing parenthesis is left in the text and every dot stands
/// inside a token, reading an expression never fails with `Reader`.
pub proof fn law_unclosed_read(s: Seq<char>, pos: int)
    requires
        0 <= pos <= s.len(),
        never_closed(s, pos),
        dots_inside_tokens(s),
    ensures
        read_at(s, pos).result is Ok || is_eof_or_escape(read_at(s, pos).result),
    decreases s.len() - pos, 0nat,
{
    lemma_skip_space(s, pos);
    let p = skip_space(s, pos);
    if p < s.len() {
        assert(s[p] != ')');
        if s[p] == '\'' {
            law_unclosed_read(s, p + 1);
        } else if s[p] == '"' {
            law_string_failures(s, p + 1, Seq::empty());
        } else if s[p] == '(' {
            law_unclosed_list(s, p + 1);
        }
    }
}

/// A list that is never closed, in a text whose dots all stand inside
/// tokens, fails to read, and fails with the end of input (or with a bad
/// escape in a string inside it), never with `Reader`.
pub proof fn law_unclosed_list(s: Seq<char>, pos: int)
    requires
        0 <= pos <= s.len(),
        never_closed(s, pos),
        dots_inside_tokens(s),
    ensures
        is_eof_or_escape(read_list_at(s, pos).result),
    decreases s.len() - pos, 1nat,
{
    lemma_skip_space(s, pos);
    let p = skip_space(s, pos);
    if p < s.len() {
        assert(s[p] != ')');
        law_unclosed_read(s, p);
        lemma_read_bounds(s, p);
        let first = read_at(s, p);
        if first.result is Ok {
            assert(skip_space(s, p) == p);
            lemma_skip_space(s, first.next);
            let q = skip_space(s, first.next);
            if q < s.len() && s[q] == '.' {
                lemma_read_end(s, p);
                assert(!is_delimiter('.'));
                if q > first.next {
                    assert(is_whitespace(s[q - 1]));
                }
                assert(false);
            }
            law_unclosed_list(s, first.next);
        }
    }
}

/// A text that opens a list and never closes it reads as `ReaderEof`,
/// provided it holds no backslash and its dots all stand inside tokens.
pub proof fn law_unterminated_list(s: Seq<char>)
    requires
        s.len() > 0,
        s[0] == '(',
        never_closed(s, 0),
        dots_inside_tokens(s),
        forall|i: int| 0 <= i < s.len() ==> #[trigger] s[i] != '\\',
    ensures
        read_at(s, 0).result == Err::<Sexp, Failure>(Failure::ReaderEof),
{
    assert(!is_whitespace(s[0]));
    law_unclosed_list(s, 1);
    lemma_no_escape_failure_list(s, 1);
}

/// The end of the text cuts short the expression that starts at `pos`:
/// nothing but white space is left, or a quote stands before such an
/// expression, or a list starts that the end of the text cuts short.
pub open spec fn is_cut_short(s: Seq<char>, pos: int) -> bool
    decreases s.len() - pos, 0nat,
{
    let p = skip_space(s, pos);
    if !(0 <= pos <= p < s.len()) {
        true
    } else if s[p] == '\'' {
        is_cut_short(s, p + 1)
    } else if s[p] == '(' {
        is_list_cut_short(s, p + 1)
    } else {
        false
    }
}

/// The end of the text cuts short the list whose elements start at `pos`:
/// what is left is complete expressions, then either the end of the text, or
/// a dot and the end of the text, or a dot, one more complete expression and
/// the end of the text; or the last of the expressions is itself cut short.
pub open spec fn is_list_cut_short(s: Seq<char>, pos: int) -> bool
    decreases s.len() - pos, 1nat,
{
    let p = skip_space(s, pos);
    if !(0 <= pos <= p < s.len()) {
        true
    } else if s[p] == ')' {
        false
    } else {
        let first = read_at(s, p);
        if first.result is Ok {
            let q = skip_space(s, first.next);
            if !(p < first.next <= q <= s.len()) {
                false
            } else if q < s.len() && s[q] == '.' {
                let r = skip_space(s, q + 1);
                if !(q < r <= s.len()) || (r < s.len() && s[r] == ')') {
                    false
                } else if read_at(s, r).result is Ok {
                    skip_space(s, read_at(s, r).next) >= s.len()
                } else {
                    is_cut_short(s, r)
                }
            } else {
                is_list_cut_short(s, first.next)
            }
        } else {
            is_cut_short(s, p)
        }
    }
}

/// An expression that the end of the text cuts short reads as `ReaderEof`,
/// never as `Reader` and never with success: more text may complete it.
pub proof fn law_cut_short_is_eof(s: Seq<char>, pos: int)
    requires
        0 <= pos <= s.len(),
        is_cut_short(s, pos),
    ensures
        read_at(s, pos).result == Err::<Sexp, Failure>(Failure::ReaderEof),
    decreases s.len() - pos, 0nat,
{
    lemma_skip_space(s, pos);
    let p = skip_space(s, pos);
    if p < s.len() {
        if s[p] == '\'' {
            law_cut_short_is_eof(s, p + 1);
        } else if s[p] == '(' {
            law_list_cut_short_is_eof(s, p + 1);
        }
    }
}

/// A list that the end of the text cuts short reads as `ReaderEof`, never
/// as `Reader` and never with success.
pub proof fn law_list_cut_short_is_eof(s: Seq<char>, pos: int)
    requires
        0 <= pos <= s.len(),
        is_list_cut_short(s, pos),
    ensures
        read_list_at(s, pos).result == Err::<Sexp, Failure>(Failure::ReaderEof),
    decreases s.len() - pos, 1nat,
{
    lemma_skip_space(s, pos);
    let p = skip_space(s, pos);
    if p < s.len() {
        lemma_read_bounds(s, p);
        let first = read_at(s, p);
        if first.result is Ok {
            lemma_skip_space(s, first.next);
            let q = skip_space(s, first.next);
            if q < s.len() && s[q] == '.' {
                lemma_skip_space(s, q + 1);
                let r = skip_space(s, q + 1);
                lemma_read_bounds(s, r);
                if read_at(s, r).result is Ok {
                    lemma_skip_space(s, read_at(s, r).next);
                } else {
                    law_cut_short_is_eof(s, r);
                }
            } else {
                law_list_cut_short_is_eof(s, first.next);
            }
        } else {
            law_cut_short_is_eof(s, p);
        }
    }
}

/// Without a backslash in the text no string literal has a bad escape.
proof fn lemma_no_escape_failure_string(s: Seq<char>, pos: int, acc: Seq<char>)
    requires
        0 <= pos <= s.len(),
        forall|i: int| 0 <= i < s.len() ==> #[trigger] s[i] != '\\',
    ensures
        !(read_string_at(s, pos, acc).result matches Err(e) && e is ReaderInvalidEscape),
    decreases s.len() - pos,
{
    if pos < s.len() && s[pos] != '"' {
        assert(s[pos] != '\\');
        lemma_no_escape_failure_string(s, pos + 1, acc.push(s[pos]));
    }
}

proof fn lemma_no_escape_failure_read(s: Seq<char>, pos: int)
    requires
        0 <= pos <= s.len(),
        forall|i: int| 0 <= i < s.len() ==> #[trigger] s[i] != '\\',
    ensures
        !(read_at(s, pos).result matches Err(e) && e is ReaderInvalidEscape),
    decreases s.len() - pos, 0nat,
{
    lemma_skip_space(s, pos);
    let p = skip_space(s, pos);
    if p < s.len() {
        if s[p] == '\'' {
            lemma_no_escape_failure_read(s, p + 1);
        } else if s[p] == '"' {
            lemma_no_escape_failure_string(s, p + 1, Seq::empty());
        } else if s[p] == '(' {
            lemma_no_escape_failure_list(s, p + 1);
        }
    }
}

proof fn lemma_no_escape_failure_list(s: Seq<char>, pos: int)
    requires
        0 <= pos <= s.len(),
        forall|i: int| 0 <= i < s.len() ==> #[trigger] s[i] != '\\',
    ensures
        !(read_list_at(s, pos).result matches Err(e) && e is ReaderInvalidEscape),
    decreases s.len() - pos, 1nat,
{
    lemma_skip_space(s, pos);
    let p = skip_space(s, pos);
    if p < s.len() && s[p] != ')' {
        lemma_no_escape_failure_read(s, p);
        lemma_read_bounds(s, p);
        let first = read_at(s, p);
        if first.result is Ok {
            assert(skip_space(s, p) == p);
            lemma_skip_space(s, first.next);
            let q = skip_space(s, first.next);
            if q < s.len() && s[q] == '.' {
                lemma_skip_space(s, q + 1);
                let r = skip_space(s, q + 1);
                if !(r < s.len() && s[r] == ')') {
                    lemma_no_escape_failure_read(s, r);
                }
            } else {
                lemma_no_escape_failure_list(s, first.next);
            }
        }
    }
}

/// The value of a call without arguments does not depend on the scope that
/// it is made from: the body sees the scope that the closure was made in.
pub proof fn law_call_ignores_callers_scope(f: Sexp, first: Scope, second: Scope, depth: nat)
    requires
        f is Lambda,
    ensures
        apply_closure(f, nil(), first, depth).result == apply_closure(
            f,
            nil(),
            second,
            depth,
        ).result,
{
    let names = param_names(*f->params);
    assert(list_items(nil()) == Some(Seq::<Sexp>::empty()));
    if names is Some {
        let ns = names->0;
        let inner = Scope::child_of(*f->env);
        if ns.len() == 0 {
            assert(bind_args(ns, Seq::empty(), 0, first, inner, depth).result == Ok::<
                Scope,
                Failure,
            >(inner));
            assert(bind_args(ns, Seq::empty(), 0, second, inner, depth).result == Ok::<
                Scope,
                Failure,
            >(inner));
        }
    }
}

/// Binding the arguments of a call adds variables to the scope of the call
/// and nothing else: its functions and its enclosing scope stay as they
/// were.
pub proof fn lemma_bind_args_keeps_outer(
    names: Seq<Seq<char>>,
    items: Seq<Sexp>,
    i: int,
    env: Scope,
    scope: Scope,
    depth: nat,
)
    requires
        bind_args(names, items, i, env, scope, depth).result is Ok,
    ensures
        bind_args(names, items, i, env, scope, depth).result->Ok_0.outer == scope.outer,
        bind_args(names, items, i, env, scope, depth).result->Ok_0.function == scope.function,
    decreases names.len() - i,
{
    if 0 <= i && i < names.len() && i < items.len() {
        let o = eval(items[i], env, depth);
        if let Ok(v) = o.result {
            lemma_bind_args_keeps_outer(
                names,
                items,
                i + 1,
                o.env,
                scope.bind_variable(names[i], v),
                depth,
            );
        }
    }
}

/// Scoping is lexical: the body of a closure is evaluated in a scope that
/// holds the parameters and lies inside the scope that the closure was made
/// in, whatever scope the call is made from.
pub proof fn law_lexical_scope(f: Sexp, args: Sexp, env: Scope, depth: nat)
    requires
        f is Lambda,
        param_names(*f->params) is Some,
        list_items(args) is Some,
    ensures
        ({
            let b = bind_args(
                param_names(*f->params)->0,
                list_items(args)->0,
                0,
                env,
                Scope::child_of(*f->env),
                depth,
            );
            match b.result {
                Ok(scope) => {
                    &&& scope.outer == Some(f->env)
                    &&& apply_closure(f, args, env, depth).result == eval(
                        *f->body,
                        scope,
                        depth,
                    ).result
                },
                Err(e) => apply_closure(f, args, env, depth).result == Err::<Sexp, Failure>(e),
            }
        }),
{
    let names = param_names(*f->params)->0;
    let items = list_items(args)->0;
    let b = bind_args(names, items, 0, env, Scope::child_of(*f->env), depth);
    if b.result is Ok {
        lemma_bind_args_keeps_outer(names, items, 0, env, Scope::child_of(*f->env), depth);
    }
}

/// Binding the arguments of a call binds parameters only: a name that is
/// no parameter, and was not bound in the scope of the call before, is not
/// bound in it afterwards.
pub proof fn lemma_bind_args_binds_params(
    names: Seq<Seq<char>>,
    items: Seq<Sexp>,
    i: int,
    env: Scope,
    scope: Scope,
    depth: nat,
    free: Seq<char>,
)
    requires
        bind_args(names, items, i, env, scope, depth).result is Ok,
        forall|j: int| 0 <= j < names.len() ==> #[trigger] names[j] != free,
        assoc(scope.variable, free) is None,
    ensures
        assoc(bind_args(names, items, i, env, scope, depth).result->Ok_0.variable, free) is None,
    decreases names.len() - i,
{
    if 0 <= i && i < names.len() && i < items.len() {
        let o = eval(items[i], env, depth);
        if let Ok(v) = o.result {
            assert(names[i] != free);
            lemma_bind_assoc(scope.variable, names[i], v, free);
            lemma_bind_args_binds_params(
                names,
                items,
                i + 1,
                o.env,
                scope.bind_variable(names[i], v),
                depth,
                free,
            );
        }
    }
}

/// A free name of the body resolves in the scope that the closure was made
/// in, never in the caller's: where the body of a closure is a symbol that
/// is no parameter, a call whose arguments evaluate gives what that symbol
/// is bound to in the closure's own scope, whatever the caller's scope
/// binds it to.
pub proof fn law_free_name_is_lexical(
    f: Sexp,
    args: Sexp,
    env: Scope,
    depth: nat,
    free: Seq<char>,
)
    requires
        f is Lambda,
        *f->body == Sexp::Symbol(free),
        param_names(*f->params) is Some,
        forall|j: int|
            0 <= j < param_names(*f->params)->0.len() ==> #[trigger] param_names(
                *f->params,
            )->0[j] != free,
        list_items(args) is Some,
        bind_args(
            param_names(*f->params)->0,
            list_items(args)->0,
            0,
            env,
            Scope::child_of(*f->env),
            depth,
        ).result is Ok,
    ensures
        apply_closure(f, args, env, depth).result == match (*f->env).variable_of(free) {
            Some(value) => Ok::<Sexp, Failure>(value),
            None => Err::<Sexp, Failure>(Failure::VoidVariable { name: free }),
        },
{
    let names = param_names(*f->params)->0;
    let items = list_items(args)->0;
    let inner = Scope::child_of(*f->env);
    lemma_bind_args_keeps_outer(names, items, 0, env, inner, depth);
    lemma_bind_args_binds_params(names, items, 0, env, inner, depth, free);
}

/// A closure keeps the scope that it was made in: a variable that is bound
/// in the caller's scope after the closure was made does not change what a
/// call of the closure gives.
pub proof fn law_lexical_capture(
    form: Sexp,
    env: Scope,
    name: Seq<char>,
    value: Sexp,
    depth: nat,
)
    requires
        lambda_form(form, env).result is Ok,
    ensures
        ({
            let closure = lambda_form(form, env).result->Ok_0;
            &&& closure matches Sexp::Lambda { env: captured, .. } && *captured == env
            &&& apply_closure(closure, nil(), env.bind_variable(name, value), depth).result
                == apply_closure(closure, nil(), env, depth).result
        }),
{
    let closure = lambda_form(form, env).result->Ok_0;
    law_call_ignores_callers_scope(closure, env.bind_variable(name, value), env, depth);
}

/// A run of characters that holds no delimiter and ends at a delimiter or
/// at the end of the text is one token.
pub proof fn lemma_token_end_is(s: Seq<char>, pos: int, end: int)
    requires
        0 <= pos <= end <= s.len(),
        forall|i: int| pos <= i < end ==> !is_delimiter(#[trigger] s[i]),
        end < s.len() ==> is_delimiter(s[end]),
    ensures
        token_end(s, pos) == end,
    decreases end - pos,
{
    if pos < end {
        assert(!is_delimiter(s[pos]));
        lemma_token_end_is(s, pos + 1, end);
    }
}

/// A run of digits that ends at a character that is none, or at the end of
/// the text, is what `digits_end` finds.
pub proof fn lemma_digits_end_is(t: Seq<char>, pos: int, end: int)
    requires
        0 <= pos <= end <= t.len(),
        forall|i: int| pos <= i < end ==> is_digit(#[trigger] t[i]),
        end < t.len() ==> !is_digit(t[end]),
    ensures
        digits_end(t, pos) == end,
    decreases end - pos,
{
    if pos < end {
        assert(is_digit(t[pos]));
        lemma_digits_end_is(t, pos + 1, end);
    }
}

/// The decimal notation of a natural number holds digits only, at least
/// one, and denotes that number.
pub proof fn lemma_decimal_nat(n: nat)
    ensures
        decimal_nat(n).len() >= 1,
        all_digits(decimal_nat(n)),
        digits_value(decimal_nat(n)) == n,
    decreases n,
{
    reveal_with_fuel(digits_value, 2);
    if n >= 10 {
        lemma_decimal_nat(n / 10);
        let d = decimal_nat(n / 10);
        let s = d.push(digit_char((n % 10) as int));
        assert(s.drop_last() =~= d);
        assert(s.last() == digit_char((n % 10) as int));
    } else {
        let s = seq![digit_char(n as int)];
        assert(s.drop_last() =~= Seq::<char>::empty());
        assert(s.last() == digit_char(n as int));
        assert(digits_value(s.drop_last()) == 0);
    }
}

/// A token that holds a sign and digits only reads as itself: no white
/// space, no delimiter, and no character that starts another kind of
/// expression is in it.
pub proof fn lemma_number_is_one_token(t: Seq<char>)
    requires
        is_int_literal(t),
    ensures
        read_at(t, 0) == parsed(atom_of(t), t.len() as int),
        !is_float_literal(t),
{
    let k = sign_len(t);
    lemma_digits_end(t, k);
    assert forall|i: int| 0 <= i < t.len() implies !is_delimiter(#[trigger] t[i]) by {
        if i >= k {
            assert(is_digit(t[i]));
        }
    }
    assert(!is_delimiter(t[0]));
    lemma_token_end_is(t, 0, t.len() as int);
    assert(t.subrange(0, t.len() as int) =~= t);
    if k == 0 {
        assert(is_digit(t[0]));
    }
}

/// Every integer literal whose value fits in 64 bits reads as that integer,
/// and the integer prints as its canonical decimal text.
pub proof fn law_integer_literal(t: Seq<char>)
    requires
        is_int_literal(t),
        in_i64(int_literal_value(t)),
    ensures
        read_at(t, 0) == parsed(Sexp::Int(int_literal_value(t)), t.len() as int),
        print(Sexp::Int(int_literal_value(t))) == decimal(int_literal_value(t)),
{
    lemma_number_is_one_token(t);
}

/// The canonical decimal text of an integer is an integer literal that
/// denotes it.
pub proof fn lemma_decimal_is_literal(n: int)
    ensures
        is_int_literal(decimal(n)),
        int_literal_value(decimal(n)) == n,
{
    let t = decimal(n);
    if n < 0 {
        let m = (-n) as nat;
        lemma_decimal_nat(m);
        let d = decimal_nat(m);
        assert(t[0] == '-');
        assert(t.subrange(1, t.len() as int) =~= d);
        assert forall|i: int| 1 <= i < t.len() implies is_digit(#[trigger] t[i]) by {
            assert(t[i] == d[i - 1]);
        }
        lemma_digits_end_is(t, 1, t.len() as int);
    } else {
        let m = n as nat;
        lemma_decimal_nat(m);
        assert(is_digit(t[0]));
        assert(t.subrange(0, t.len() as int) =~= t);
        lemma_digits_end_is(t, 0, t.len() as int);
    }
}

/// An integer that is printed and read again is the same integer: the
/// canonical decimal text of `n` reads as `n`.
pub proof fn law_integer_round_trip(n: int)
    requires
        in_i64(n),
    ensures
        print(Sexp::Int(n)) == decimal(n),
        read_at(decimal(n), 0) == parsed(Sexp::Int(n), decimal(n).len() as int),
{
    lemma_decimal_is_literal(n);
    law_integer_literal(decimal(n));
}

/// A run of white space that ends at a character that is none, or at the
/// end of the text, is what `skip_space` passes over.
pub proof fn lemma_skip_space_is(s: Seq<char>, pos: int, end: int)
    requires
        0 <= pos <= end <= s.len(),
        forall|i: int| pos <= i < end ==> is_whitespace(#[trigger] s[i]),
        end < s.len() ==> !is_whitespace(s[end]),
    ensures
        skip_space(s, pos) == end,
    decreases end - pos,
{
    if pos < end {
        assert(is_whitespace(s[pos]));
        lemma_skip_space_is(s, pos + 1, end);
    }
}

/// A token that reads as an atom by itself: it is not empty, holds no
/// delimiter, and does not start with a character that starts another kind
/// of expression.
pub open spec fn is_plain_token(t: Seq<char>) -> bool {
    &&& t.len() > 0
    &&& forall|i: int| 0 <= i < t.len() ==> !is_delimiter(#[trigger] t[i])
    &&& t[0] != '\''
    &&& t[0] != ':'
    &&& t[0] != '"'
}

/// The tokens `ts[i..]`, each after one space.
pub open spec fn elements_text(ts: Seq<Seq<char>>, i: int) -> Seq<char>
    decreases ts.len() - i,
{
    if i < 0 || i >= ts.len() {
        Seq::empty()
    } else {
        seq![' '] + ts[i] + elements_text(ts, i + 1)
    }
}

/// The tokens `ts` in parentheses, with one space between two of them.
pub open spec fn list_text(ts: Seq<Seq<char>>) -> Seq<char> {
    seq!['('] + ts[0] + elements_text(ts, 1) + seq![')']
}

/// The list of the atoms that the tokens `ts[i..]` stand for.
pub open spec fn atoms_from(ts: Seq<Seq<char>>, i: int) -> Sexp
    decreases ts.len() - i,
{
    if i < 0 || i >= ts.len() {
        nil()
    } else {
        cons(atom_of(ts[i]), atoms_from(ts, i + 1))
    }
}

/// Tokens that can stand in a list and come out of the printer as they went
/// into the reader: each is a plain token and the text of its own atom, and
/// none but the first starts with a dot, which would make a dotted pair.
pub open spec fn are_list_tokens(ts: Seq<Seq<char>>) -> bool {
    &&& forall|i: int| 0 <= i < ts.len() ==> is_plain_token(#[trigger] ts[i])
    &&& forall|i: int| 0 <= i < ts.len() ==> print(atom_of(#[trigger] ts[i])) == ts[i]
    &&& forall|i: int| 1 <= i < ts.len() ==> (#[trigger] ts[i])[0] != '.'
}

/// A plain token that stands at `p` and ends at `e`, before a delimiter or
/// at the end of the text, reads as its atom.
pub proof fn lemma_read_token_at(s: Seq<char>, p: int, e: int)
    requires
        0 <= p < e <= s.len(),
        is_plain_token(s.subrange(p, e)),
        e < s.len() ==> is_delimiter(s[e]),
    ensures
        read_at(s, p) == parsed(atom_of(s.subrange(p, e)), e),
{
    let t = s.subrange(p, e);
    assert forall|j: int| p <= j < e implies !is_delimiter(#[trigger] s[j]) by {
        assert(s[j] == t[j - p]);
    }
    assert(s[p] == t[0]);
    lemma_token_end_is(s, p, e);
    lemma_skip_space_is(s, p, p);
}

/// After an element that no dot follows, the rest of the list is read from
/// where the element ended.
pub proof fn lemma_list_continues(s: Seq<char>, pos: int, p: int, a: Sexp, e: int, q: int)
    requires
        0 <= pos <= p < e <= q <= s.len(),
        skip_space(s, pos) == p,
        s[p] != ')',
        read_at(s, p) == parsed(a, e),
        skip_space(s, e) == q,
        q < s.len() ==> s[q] != '.',
    ensures
        read_list_at(s, pos) == match read_list_at(s, e).result {
            Err(_) => read_list_at(s, e),
            Ok(cdr) => parsed(cons(a, cdr), read_list_at(s, e).next),
        },
{
}

/// Where the parts of a text stand in it.
proof fn lemma_text_parts(pre: Seq<char>, sep: Seq<char>, t: Seq<char>, mid: Seq<char>)
    requires
        t.len() > 0,
    ensures
        ({
            let s = pre + sep + t + mid + seq![')'];
            let p: int = (pre.len() + sep.len()) as int;
            let e: int = p + t.len();
            &&& s.len() == e + mid.len() + 1
            &&& s.subrange(p, e) == t
            &&& s[p] == t[0]
            &&& (sep.len() > 0 ==> s[pre.len() as int] == sep[0])
            &&& (mid.len() == 0 ==> s[e] == ')')
            &&& (mid.len() > 0 ==> s[e] == mid[0])
            &&& (mid.len() > 1 ==> s[e + 1] == mid[1])
        }),
{
    let s = pre + sep + t + mid + seq![')'];
    let p: int = (pre.len() + sep.len()) as int;
    let e: int = p + t.len();
    assert(s.subrange(p, e) =~= t);
}

/// A space, a token and more text: the space comes first, the token's first
/// character second, and the text can be grouped with what stands before.
proof fn lemma_text_regroup(front: Seq<char>, u: Seq<char>, rest: Seq<char>)
    requires
        u.len() > 0,
    ensures
        (seq![' '] + u + rest)[0] == ' ',
        (seq![' '] + u + rest)[1] == u[0],
        (seq![' '] + u + rest).len() > 1,
        front + (seq![' '] + u + rest) + seq![')'] == front + seq![' '] + u + rest + seq![')'],
{
    assert(front + (seq![' '] + u + rest) + seq![')'] =~= front + seq![' '] + u + rest + seq![')']);
}

/// Reading the elements of a list from the token `ts[i]` on gives the list
/// of their atoms and ends after the closing parenthesis. `pre` is the text
/// before, `sep` the space before the token, if there is one.
proof fn lemma_read_elements(pre: Seq<char>, sep: Seq<char>, ts: Seq<Seq<char>>, i: int)
    requires
        0 <= i < ts.len(),
        are_list_tokens(ts),
        sep.len() == 0 || sep == seq![' '],
    ensures
        ({
            let s = pre + sep + ts[i] + elements_text(ts, i + 1) + seq![')'];
            read_list_at(s, pre.len() as int) == parsed(atoms_from(ts, i), s.len() as int)
        }),
    decreases ts.len() - i,
{
    let t = ts[i];
    let mid = elements_text(ts, i + 1);
    let s = pre + sep + t + mid + seq![')'];
    let pos = pre.len() as int;
    let p = pos + sep.len();
    let e = p + t.len();
    assert(is_plain_token(t));
    lemma_text_parts(pre, sep, t, mid);
    assert(!is_delimiter(t[0]));
    assert(is_whitespace(' '));
    assert(is_delimiter(')'));
    if sep.len() > 0 {
        assert(is_whitespace(s[pos]));
    }
    lemma_skip_space_is(s, pos, p);
    if i + 1 < ts.len() {
        let u = ts[i + 1];
        let rest = elements_text(ts, i + 2);
        assert(is_plain_token(u));
        lemma_text_regroup(pre + sep + t, u, rest);
        assert(mid == seq![' '] + u + rest);
        assert(s[e] == ' ');
        assert(s[e + 1] == u[0]);
        assert(!is_delimiter(u[0]));
        assert(u[0] != '.');
        lemma_read_token_at(s, p, e);
        lemma_skip_space_is(s, e, e + 1);
        lemma_read_elements(pre + sep + t, seq![' '], ts, i + 1);
        lemma_list_continues(s, pos, p, atom_of(t), e, e + 1);
    } else {
        assert(mid.len() == 0);
        assert(s[e] == ')');
        lemma_read_token_at(s, p, e);
        lemma_skip_space_is(s, e, e);
        lemma_list_continues(s, pos, p, atom_of(t), e, e);
        lemma_list_closes(s, e);
    }
}

/// A closing parenthesis ends the list with `nil`.
pub proof fn lemma_list_closes(s: Seq<char>, e: int)
    requires
        0 <= e < s.len(),
        s[e] == ')',
    ensures
        read_list_at(s, e) == parsed(nil(), e + 1),
{
    assert(!is_whitespace(')'));
    lemma_skip_space_is(s, e, e);
}

/// The tail of a list of atoms prints as its tokens, each after one space.
proof fn lemma_print_elements(ts: Seq<Seq<char>>, i: int)
    requires
        0 <= i <= ts.len(),
        are_list_tokens(ts),
    ensures
        print_tail(atoms_from(ts, i)) == elements_text(ts, i),
    decreases ts.len() - i,
{
    if i < ts.len() {
        lemma_print_elements(ts, i + 1);
        assert(print(atom_of(ts[i])) == ts[i]);
    }
}

/// A list of atoms that is read and printed again is the same text: the
/// tokens in parentheses, with one space between two of them. The one
/// list that does not come out as it went in is `(quote x)`, which prints
/// as `'x`.
pub proof fn law_list_round_trip(ts: Seq<Seq<char>>)
    requires
        ts.len() >= 1,
        are_list_tokens(ts),
        !(ts.len() == 2 && ts[0] == "quote"@),
    ensures
        read_at(list_text(ts), 0) == parsed(atoms_from(ts, 0), list_text(ts).len() as int),
        print(atoms_from(ts, 0)) == list_text(ts),
{
    let s = list_text(ts);
    assert(s[0] == '(');
    lemma_skip_space_is(s, 0, 0);
    lemma_read_elements(seq!['('], Seq::empty(), ts, 0);
    assert(seq!['('] + Seq::<char>::empty() + ts[0] + elements_text(ts, 1) + seq![')'] =~= s);
    lemma_print_elements(ts, 1);
    let list = atoms_from(ts, 0);
    assert(print(atom_of(ts[0])) == ts[0]);
    if is_quote_form(list) {
        assert(atom_of(ts[0]) == Sexp::Symbol("quote"@));
        assert(ts[0] == "quote"@);
        assert(atoms_from(ts, 1) is Cons);
        assert(ts.len() >= 2);
        assert(atoms_from(ts, 2) == nil());
        if ts.len() > 2 {
            assert(atoms_from(ts, 2) is Cons);
        }
        assert(false);
    }
    assert(atoms_from(ts, 0) == cons(atom_of(ts[0]), atoms_from(ts, 1)));
}

/// After a variable is bound in a scope, that name is found with the new
/// value and every other name as before. Functions and the enclosing scopes
/// are left as they were.
pub proof fn law_bind_variable(s: Scope, name: Seq<char>, value: Sexp, other: Seq<char>)
    ensures
        s.bind_variable(name, value).variable_of(other) == if other == name {
            Some(value)
        } else {
            s.variable_of(other)
        },
        s.bind_variable(name, value).function_of(other) == s.function_of(other),
        s.bind_variable(name, value).outer == s.outer,
{
    lemma_bind_assoc(s.variable, name, value, other);
}

/// A binding in the scope of a call hides the binding of the same name in
/// the enclosing scope and changes nothing in it.
pub proof fn law_shadowing(parent: Scope, name: Seq<char>, value: Sexp, other: Seq<char>)
    ensures
        Scope::child_of(parent).bind_variable(name, value).variable_of(other) == if other == name {
            Some(value)
        } else {
            parent.variable_of(other)
        },
        Scope::child_of(parent).bind_variable(name, value).outer == Some(Box::new(parent)),
{
    let child = Scope::child_of(parent);
    lemma_bind_assoc(child.variable, name, value, other);
}

/// A symbol that is not bound as a variable evaluates to `VoidVariable`,
/// and a call of a name that is not bound as a function to `VoidFunction`.
pub proof fn law_unbound_names(name: Seq<char>, args: Sexp, env: Scope, depth: nat)
    ensures
        env.variable_of(name) is None ==> eval(Sexp::Symbol(name), env, depth) == fail(
            Failure::VoidVariable { name },
            env,
        ),
        env.function_of(name) is None && depth > 0 ==> eval(
            cons(Sexp::Symbol(name), args),
            env,
            depth,
        ) == fail(Failure::VoidFunction { name }, env),
{
}

/// The evaluation was not cut short by the bound on nesting.
pub open spec fn completed<T>(r: Result<T, Failure>) -> bool {
    !(r matches Err(e) && e == Failure::RecursionLimit)
}

/// The bound on nesting only cuts evaluations short: one that was not cut
/// short gives the same result, and leaves the same scope, under every
/// larger bound.
pub proof fn law_deeper_bound(x: Sexp, env: Scope, depth: nat, more: nat)
    requires
        completed(eval(x, env, depth).result),
    ensures
        eval(x, env, depth + more) == eval(x, env, depth),
    decreases more,
{
    if more > 0 {
        law_deeper_bound(x, env, depth, (more - 1) as nat);
        lemma_deeper_eval(x, env, (depth + more - 1) as nat);
    }
}

proof fn lemma_deeper_eval(x: Sexp, env: Scope, depth: nat)
    requires
        completed(eval(x, env, depth).result),
    ensures
        eval(x, env, depth + 1) == eval(x, env, depth),
    decreases depth, 0nat, 0nat,
{
    if let Sexp::Cons { car, cdr } = x {
        if depth > 0 {
            let d = (depth - 1) as nat;
            match *car {
                Sexp::Symbol(name) => match env.function_of(name) {
                    None => {},
                    Some(Sexp::Func(b)) => {
                        lemma_deeper_builtin(b, *cdr, env, d);
                    },
                    Some(f) => {
                        if f is Lambda {
                            lemma_deeper_closure(f, *cdr, env, d);
                        }
                    },
                },
                _ => {
                    if is_lambda_form(*car) {
                        let f = eval(*car, env, d);
                        lemma_deeper_eval(*car, env, d);
                        if let Ok(closure) = f.result {
                            lemma_deeper_closure(closure, *cdr, f.env, d);
                        }
                    }
                },
            }
        }
    }
}

proof fn lemma_deeper_each(items: Seq<Sexp>, i: int, acc: Seq<Sexp>, env: Scope, depth: nat)
    requires
        completed(eval_each(items, i, acc, env, depth).result),
    ensures
        eval_each(items, i, acc, env, depth + 1) == eval_each(items, i, acc, env, depth),
    decreases depth, 1nat, items.len() - i,
{
    if 0 <= i < items.len() {
        let o = eval(items[i], env, depth);
        lemma_deeper_eval(items[i], env, depth);
        if let Ok(v) = o.result {
            lemma_deeper_each(items, i + 1, acc.push(v), o.env, depth);
        }
    }
}

proof fn lemma_deeper_bind(
    names: Seq<Seq<char>>,
    items: Seq<Sexp>,
    i: int,
    env: Scope,
    scope: Scope,
    depth: nat,
)
    requires
        completed(bind_args(names, items, i, env, scope, depth).result),
    ensures
        bind_args(names, items, i, env, scope, depth + 1) == bind_args(
            names,
            items,
            i,
            env,
            scope,
            depth,
        ),
    decreases depth, 1nat, names.len() - i,
{
    if 0 <= i && i < names.len() && i < items.len() {
        let o = eval(items[i], env, depth);
        lemma_deeper_eval(items[i], env, depth);
        if let Ok(v) = o.result {
            lemma_deeper_bind(names, items, i + 1, o.env, scope.bind_variable(names[i], v), depth);
        }
    }
}

proof fn lemma_deeper_closure(f: Sexp, args: Sexp, env: Scope, depth: nat)
    requires
        completed(apply_closure(f, args, env, depth).result),
    ensures
        apply_closure(f, args, env, depth + 1) == apply_closure(f, args, env, depth),
    decreases depth, 2nat, 0nat,
{
    if let Sexp::Lambda { params, body, env: captured } = f {
        if let Some(names) = param_names(*params) {
            if let Some(items) = list_items(args) {
                let inner = Scope::child_of(*captured);
                let b = bind_args(names, items, 0, env, inner, depth);
                lemma_deeper_bind(names, items, 0, env, inner, depth);
                if let Ok(scope) = b.result {
                    lemma_deeper_eval(*body, scope, depth);
                }
            }
        }
    }
}

proof fn lemma_deeper_arith(op: ArithOp, args: Sexp, env: Scope, depth: nat)
    requires
        completed(arith(op, args, env, depth).result),
    ensures
        arith(op, args, env, depth + 1) == arith(op, args, env, depth),
    decreases depth, 3nat, 0nat,
{
    if let Some(items) = list_items(args) {
        let vals = eval_each(items, 0, Seq::empty(), env, depth);
        if vals.result is Err {
            assert(arith(op, args, env, depth).result == Err::<Sexp, Failure>(vals.result->Err_0));
        }
        lemma_deeper_each(items, 0, Seq::empty(), env, depth);
    }
}

proof fn lemma_deeper_compare(rel: Relation, args: Sexp, env: Scope, depth: nat)
    requires
        completed(compare(rel, args, env, depth).result),
    ensures
        compare(rel, args, env, depth + 1) == compare(rel, args, env, depth),
    decreases depth, 3nat, 0nat,
{
    if let Some(items) = list_items(args) {
        let vals = eval_each(items, 0, Seq::empty(), env, depth);
        if vals.result is Err {
            assert(compare(rel, args, env, depth).result == Err::<Sexp, Failure>(
                vals.result->Err_0,
            ));
        }
        lemma_deeper_each(items, 0, Seq::empty(), env, depth);
    }
}

proof fn lemma_deeper_if(args: Sexp, env: Scope, depth: nat)
    requires
        completed(if_form(args, env, depth).result),
    ensures
        if_form(args, env, depth + 1) == if_form(args, env, depth),
    decreases depth, 3nat, 0nat,
{
    if let Ok(a) = extract_args(args, 2, 1) {
        let c = eval(a[0], env, depth);
        lemma_deeper_eval(a[0], env, depth);
        if let Ok(v) = c.result {
            if v != nil() {
                lemma_deeper_eval(a[1], c.env, depth);
            } else {
                lemma_deeper_eval(a[2], c.env, depth);
            }
        }
    }
}

proof fn lemma_deeper_set(args: Sexp, env: Scope, depth: nat)
    requires
        completed(set_form(args, env, depth).result),
    ensures
        set_form(args, env, depth + 1) == set_form(args, env, depth),
    decreases depth, 3nat, 0nat,
{
    if let Ok(a) = extract_args(args, 2, 0) {
        if a[0] is Symbol {
            lemma_deeper_eval(a[1], env, depth);
        }
    }
}

proof fn lemma_deeper_apply(args: Sexp, env: Scope, depth: nat)
    requires
        completed(apply_form(args, env, depth).result),
    ensures
        apply_form(args, env, depth + 1) == apply_form(args, env, depth),
    decreases depth, 3nat, 0nat,
{
    if let Ok(a) = extract_args(args, 2, 0) {
        let f = eval(a[0], env, depth);
        lemma_deeper_eval(a[0], env, depth);
        if let Ok(closure) = f.result {
            let l = eval(a[1], f.env, depth);
            lemma_deeper_eval(a[1], f.env, depth);
            if let Ok(list) = l.result {
                lemma_deeper_closure(closure, list, l.env, depth);
            }
        }
    }
}

proof fn lemma_deeper_builtin(b: Builtin, args: Sexp, env: Scope, depth: nat)
    requires
        completed(call_builtin(b, args, env, depth).result),
    ensures
        call_builtin(b, args, env, depth + 1) == call_builtin(b, args, env, depth),
    decreases depth, 4nat, 0nat,
{
    match b {
        Builtin::Arith(op) => lemma_deeper_arith(op, args, env, depth),
        Builtin::Compare(rel) => lemma_deeper_compare(rel, args, env, depth),
        Builtin::IfForm => lemma_deeper_if(args, env, depth),
        Builtin::SetForm => lemma_deeper_set(args, env, depth),
        Builtin::SetqForm => lemma_deeper_set(args, env, depth),
        Builtin::QuoteForm => {},
        Builtin::LambdaForm => {},
        Builtin::ApplyForm => lemma_deeper_apply(args, env, depth),
    }
}

} // verus!
