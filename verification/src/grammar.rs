//! The grammar that the reader follows, as functions on a sequence of
//! characters and a position in it.

use vstd::prelude::*;
use crate::model::{cons, nil, Failure, Sexp};
use crate::text::{digits_value, is_digit};

verus! {

/// White space, as Unicode defines it.
pub open spec fn is_whitespace(c: char) -> bool {
    let u = c as u32;
    ||| 0x09 <= u <= 0x0D
    ||| u == 0x20
    ||| u == 0x85
    ||| u == 0xA0
    ||| u == 0x1680
    ||| 0x2000 <= u <= 0x200A
    ||| u == 0x2028
    ||| u == 0x2029
    ||| u == 0x202F
    ||| u == 0x205F
    ||| u == 0x3000
}

/// A character that ends a token: white space or a parenthesis.
pub open spec fn is_delimiter(c: char) -> bool {
    is_whitespace(c) || c == '(' || c == ')'
}

/// The first position at or after `pos` that holds no white space.
pub open spec fn skip_space(s: Seq<char>, pos: int) -> int
    decreases s.len() - pos,
{
    if 0 <= pos < s.len() && is_whitespace(s[pos]) {
        skip_space(s, pos + 1)
    } else {
        pos
    }
}

/// The end of the token that starts at `pos`: the first position at or after
/// `pos` that holds a delimiter, or the end of the text.
pub open spec fn token_end(s: Seq<char>, pos: int) -> int
    decreases s.len() - pos,
{
    if 0 <= pos < s.len() && !is_delimiter(s[pos]) {
        token_end(s, pos + 1)
    } else {
        pos
    }
}

/// The end of the run of decimal digits that starts at `pos`.
pub open spec fn digits_end(t: Seq<char>, pos: int) -> int
    decreases t.len() - pos,
{
    if 0 <= pos < t.len() && is_digit(t[pos]) {
        digits_end(t, pos + 1)
    } else {
        pos
    }
}

/// 1 if `t` starts with a sign, else 0.
pub open spec fn sign_len(t: Seq<char>) -> int {
    if t.len() > 0 && (t[0] == '+' || t[0] == '-') {
        1
    } else {
        0
    }
}

/// An optional sign, then one or more digits.
pub open spec fn is_int_literal(t: Seq<char>) -> bool {
    let k = sign_len(t);
    k < digits_end(t, k) == t.len()
}

/// An optional sign, then digits (possibly none), a dot, and one or more
/// digits.
pub open spec fn is_float_literal(t: Seq<char>) -> bool {
    let dot = digits_end(t, sign_len(t));
    &&& dot < t.len()
    &&& t[dot] == '.'
    &&& dot + 1 < digits_end(t, dot + 1) == t.len()
}

/// The integer that an integer literal denotes.
pub open spec fn int_literal_value(t: Seq<char>) -> int {
    let magnitude = digits_value(t.subrange(sign_len(t), t.len() as int));
    if t.len() > 0 && t[0] == '-' {
        -magnitude
    } else {
        magnitude as int
    }
}

/// The atom that the token `t` stands for. A float literal is a float; an
/// integer literal whose value fits in 64 bits is an integer; every other
/// token is a symbol.
pub open spec fn atom_of(t: Seq<char>) -> Sexp {
    if is_float_literal(t) {
        Sexp::Float(t)
    } else if is_int_literal(t) && i64::MIN <= int_literal_value(t) <= i64::MAX {
        Sexp::Int(int_literal_value(t))
    } else {
        Sexp::Symbol(t)
    }
}

/// What one act of reading gives: an expression or a failure, and the
/// position at which the reader is left.
pub struct Parsed {
    pub result: Result<Sexp, Failure>,
    pub next: int,
}

pub open spec fn parsed(x: Sexp, next: int) -> Parsed {
    Parsed { result: Ok(x), next }
}

pub open spec fn failed(f: Failure, next: int) -> Parsed {
    Parsed { result: Err(f), next }
}

/// Reads the rest of a string literal. `pos` is inside the literal, after
/// the opening quote, and `acc` holds what was read of it so far. A
/// backslash before a quote or a backslash stands for that character; before
/// anything else it is an error. The text ending inside the literal is
/// `ReaderEof`.
pub open spec fn read_string_at(s: Seq<char>, pos: int, acc: Seq<char>) -> Parsed
    decreases s.len() - pos,
{
    if !(0 <= pos < s.len()) {
        failed(Failure::ReaderEof, pos)
    } else if s[pos] == '"' {
        parsed(Sexp::Str(acc), pos + 1)
    } else if s[pos] == '\\' {
        if pos + 1 >= s.len() {
            failed(Failure::ReaderEof, pos + 1)
        } else if s[pos + 1] == '"' || s[pos + 1] == '\\' {
            read_string_at(s, pos + 2, acc.push(s[pos + 1]))
        } else {
            failed(Failure::ReaderInvalidEscape { ch: s[pos + 1] }, pos + 2)
        }
    } else {
        read_string_at(s, pos + 1, acc.push(s[pos]))
    }
}

/// Reads one expression from `s` at `pos`.
///
/// White space is skipped first. Then `'X` reads as `(quote X)`; a colon
/// starts a keyword, which runs to the end of the token; a double quote
/// starts a string; `(` starts a list; `)` is `Reader`; anything else is a
/// token, read as `atom_of` says. The text ending before an expression
/// starts is `ReaderEof`.
pub open spec fn read_at(s: Seq<char>, pos: int) -> Parsed
    decreases s.len() - pos, 0nat,
{
    let p = skip_space(s, pos);
    if !(0 <= pos <= p < s.len()) {
        failed(Failure::ReaderEof, p)
    } else if s[p] == '\'' {
        let q = read_at(s, p + 1);
        match q.result {
            Ok(x) => parsed(cons(Sexp::Symbol("quote"@), cons(x, nil())), q.next),
            Err(_) => q,
        }
    } else if s[p] == ':' {
        let e = token_end(s, p + 1);
        parsed(Sexp::Keyword(s.subrange(p + 1, e)), e)
    } else if s[p] == '"' {
        read_string_at(s, p + 1, Seq::empty())
    } else if s[p] == '(' {
        read_list_at(s, p + 1)
    } else if s[p] == ')' {
        failed(Failure::Reader, p + 1)
    } else {
        let e = token_end(s, p);
        parsed(atom_of(s.subrange(p, e)), e)
    }
}

/// Reads the rest of a list: `pos` is after the opening parenthesis or
/// after an element.
///
/// `)` ends the list with `nil`. Otherwise an element is read; if a dot
/// follows it, one more expression and then `)` make a dotted pair; if not,
/// the rest of the list follows. The text ending before the closing
/// parenthesis is `ReaderEof`: more text may complete the list. A dot that
/// is followed by `)` at once, or by an expression and then by anything but
/// `)`, is `Reader`: no further text can mend it.
pub open spec fn read_list_at(s: Seq<char>, pos: int) -> Parsed
    decreases s.len() - pos, 1nat,
{
    let p = skip_space(s, pos);
    if !(0 <= pos <= p < s.len()) {
        failed(Failure::ReaderEof, p)
    } else if s[p] == ')' {
        parsed(nil(), p + 1)
    } else {
        let first = read_at(s, p);
        match first.result {
            Err(_) => first,
            Ok(car) => {
                let q = skip_space(s, first.next);
                if !(p < first.next <= q <= s.len()) {
                    // A successful read always moves forward.
                    first
                } else if q < s.len() && s[q] == '.' {
                    let r = skip_space(s, q + 1);
                    if !(q < r <= s.len()) {
                        first
                    } else if r < s.len() && s[r] == ')' {
                        failed(Failure::Reader, r + 1)
                    } else {
                        let last = read_at(s, r);
                        match last.result {
                            Err(_) => last,
                            Ok(cdr) => {
                                let e = skip_space(s, last.next);
                                if 0 <= e < s.len() && s[e] == ')' {
                                    parsed(cons(car, cdr), e + 1)
                                } else if 0 <= e < s.len() {
                                    failed(Failure::Reader, e)
                                } else {
                                    failed(Failure::ReaderEof, e)
                                }
                            },
                        }
                    }
                } else {
                    let rest = read_list_at(s, first.next);
                    match rest.result {
                        Err(_) => rest,
                        Ok(cdr) => parsed(cons(car, cdr), rest.next),
                    }
                }
            },
        }
    }
}

/// `skip_space` moves forward, stays inside the text, and stops on a
/// character that is no white space.
pub proof fn lemma_skip_space(s: Seq<char>, pos: int)
    requires
        0 <= pos <= s.len(),
    ensures
        pos <= skip_space(s, pos) <= s.len(),
        skip_space(s, pos) < s.len() ==> !is_whitespace(s[skip_space(s, pos)]),
        forall|i: int| pos <= i < skip_space(s, pos) ==> is_whitespace(#[trigger] s[i]),
    decreases s.len() - pos,
{
    if pos < s.len() && is_whitespace(s[pos]) {
        lemma_skip_space(s, pos + 1);
    }
}

/// `token_end` moves forward, stays inside the text, and stops on a
/// delimiter; the token holds none.
pub proof fn lemma_token_end(s: Seq<char>, pos: int)
    requires
        0 <= pos <= s.len(),
    ensures
        pos <= token_end(s, pos) <= s.len(),
        token_end(s, pos) < s.len() ==> is_delimiter(s[token_end(s, pos)]),
        forall|i: int| pos <= i < token_end(s, pos) ==> !is_delimiter(#[trigger] s[i]),
    decreases s.len() - pos,
{
    if pos < s.len() && !is_delimiter(s[pos]) {
        lemma_token_end(s, pos + 1);
    }
}

/// `digits_end` moves forward, stays inside the text, and stops on a
/// character that is no digit; the run holds digits only.
pub proof fn lemma_digits_end(t: Seq<char>, pos: int)
    requires
        0 <= pos <= t.len(),
    ensures
        pos <= digits_end(t, pos) <= t.len(),
        digits_end(t, pos) < t.len() ==> !is_digit(t[digits_end(t, pos)]),
        forall|i: int| pos <= i < digits_end(t, pos) ==> is_digit(#[trigger] t[i]),
    decreases t.len() - pos,
{
    if pos < t.len() && is_digit(t[pos]) {
        lemma_digits_end(t, pos + 1);
    }
}

/// Reading a string literal moves forward and stays inside the text.
pub proof fn lemma_read_string_bounds(s: Seq<char>, pos: int, acc: Seq<char>)
    requires
        0 <= pos <= s.len(),
    ensures
        pos <= read_string_at(s, pos, acc).next <= s.len(),
        read_string_at(s, pos, acc).result is Ok ==> pos < read_string_at(s, pos, acc).next,
    decreases s.len() - pos,
{
    if pos < s.len() && s[pos] != '"' {
        if s[pos] == '\\' {
            if pos + 1 < s.len() && (s[pos + 1] == '"' || s[pos + 1] == '\\') {
                lemma_read_string_bounds(s, pos + 2, acc.push(s[pos + 1]));
            }
        } else {
            lemma_read_string_bounds(s, pos + 1, acc.push(s[pos]));
        }
    }
}

/// Reading stays inside the text, and a successful read ends after the
/// place where the expression started.
pub proof fn lemma_read_bounds(s: Seq<char>, pos: int)
    requires
        0 <= pos <= s.len(),
    ensures
        pos <= read_at(s, pos).next <= s.len(),
        read_at(s, pos).result is Ok ==> skip_space(s, pos) < read_at(s, pos).next,
    decreases s.len() - pos, 0nat,
{
    lemma_skip_space(s, pos);
    let p = skip_space(s, pos);
    if p < s.len() {
        if s[p] == '\'' {
            lemma_read_bounds(s, p + 1);
            lemma_skip_space(s, p + 1);
        } else if s[p] == ':' {
            lemma_token_end(s, p + 1);
        } else if s[p] == '"' {
            lemma_read_string_bounds(s, p + 1, Seq::empty());
        } else if s[p] == '(' {
            lemma_read_list_bounds(s, p + 1);
        } else if s[p] == ')' {
        } else {
            lemma_token_end(s, p);
            assert(!is_delimiter(s[p]));
        }
    }
}

/// Reading a list stays inside the text, and a successful read moves forward.
pub proof fn lemma_read_list_bounds(s: Seq<char>, pos: int)
    requires
        0 <= pos <= s.len(),
    ensures
        pos <= read_list_at(s, pos).next <= s.len(),
        read_list_at(s, pos).result is Ok ==> skip_space(s, pos) < read_list_at(s, pos).next,
    decreases s.len() - pos, 1nat,
{
    lemma_skip_space(s, pos);
    let p = skip_space(s, pos);
    if p < s.len() && s[p] != ')' {
        lemma_read_bounds(s, p);
        let first = read_at(s, p);
        if first.result is Ok {
            lemma_skip_space(s, p);
            assert(skip_space(s, p) == p);
            lemma_skip_space(s, first.next);
            let q = skip_space(s, first.next);
            if q < s.len() && s[q] == '.' {
                lemma_skip_space(s, q + 1);
                let r = skip_space(s, q + 1);
                if !(r < s.len() && s[r] == ')') {
                    lemma_read_bounds(s, r);
                    let last = read_at(s, r);
                    if last.result is Ok {
                        lemma_skip_space(s, last.next);
                    }
                }
            } else {
                lemma_read_list_bounds(s, first.next);
            }
        }
    }
}

} // verus!
