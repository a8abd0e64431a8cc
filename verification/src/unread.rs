//! Reading undoes printing: the text of an expression that holds only what
//! the reader can make reads as that expression.

use vstd::prelude::*;
use crate::grammar::{
    atom_of, is_delimiter, is_whitespace, parsed, read_at, read_list_at, skip_space,
};
use crate::laws::{
    is_plain_token, lemma_decimal_is_literal, lemma_list_closes, lemma_list_continues,
    lemma_number_is_one_token, lemma_read_token_at, lemma_skip_space_is, lemma_token_end_is,
};
use crate::model::{cons, nil, Sexp};
use crate::printer::{is_quote_form, print, print_tail};
use crate::semantics::in_i64;
use crate::text::{decimal, is_digit};

verus! {

/// An atom that the reader can make from its own text: an integer of 64
/// bits, a float or a symbol whose text is a token that reads as it, or a
/// keyword without a delimiter in its name.
pub open spec fn is_readable_atom(x: Sexp) -> bool {
    match x {
        Sexp::Int(n) => in_i64(n),
        Sexp::Float(t) => is_plain_token(t) && atom_of(t) == x,
        Sexp::Symbol(t) => is_plain_token(t) && atom_of(t) == x,
        Sexp::Keyword(k) => forall|i: int| 0 <= i < k.len() ==> !is_delimiter(#[trigger] k[i]),
        _ => false,
    }
}

/// An expression that the reader can make from its own text: a readable
/// atom, or a pair of a readable expression and a readable tail.
pub open spec fn is_readable(x: Sexp) -> bool
    decreases x,
{
    match x {
        Sexp::Cons { car, cdr } => is_readable(*car) && is_readable_tail(*cdr),
        _ => is_readable_atom(x),
    }
}

/// What can follow the first element of a readable pair: `nil`, a
/// readable atom after a dot, or more readable elements, none of which
/// starts with a dot, which would read as the dot of a pair.
pub open spec fn is_readable_tail(x: Sexp) -> bool
    decreases x,
{
    match x {
        Sexp::Cons { car, cdr } => is_readable(*car) && print(*car)[0] != '.' && is_readable_tail(
            *cdr,
        ),
        _ => x == nil() || is_readable_atom(x),
    }
}

/// An integer literal is a plain token.
proof fn lemma_decimal_is_plain(n: int)
    ensures
        is_plain_token(decimal(n)),
        in_i64(n) ==> atom_of(decimal(n)) == Sexp::Int(n),
{
    let t = decimal(n);
    lemma_decimal_is_literal(n);
    lemma_number_is_one_token(t);
    let k = crate::grammar::sign_len(t);
    crate::grammar::lemma_digits_end(t, k);
    assert forall|i: int| 0 <= i < t.len() implies !is_delimiter(#[trigger] t[i]) by {
        if i >= k {
            assert(is_digit(t[i]));
        }
    }
    if k == 0 {
        assert(is_digit(t[0]));
    }
}

/// The text of a readable expression is not empty and starts with a
/// character that is neither white space nor a closing parenthesis.
pub proof fn lemma_print_first(x: Sexp)
    requires
        is_readable(x),
    ensures
        print(x).len() > 0,
        !is_whitespace(print(x)[0]),
        print(x)[0] != ')',
{
    match x {
        Sexp::Int(n) => {
            lemma_decimal_is_plain(n);
            assert(!is_delimiter(decimal(n)[0]));
        },
        Sexp::Float(t) => {
            assert(!is_delimiter(t[0]));
        },
        Sexp::Symbol(t) => {
            assert(!is_delimiter(t[0]));
        },
        Sexp::Keyword(k) => {
            assert(print(x)[0] == ':');
        },
        Sexp::Cons { car, cdr } => {
            if is_quote_form(x) {
                assert(print(x)[0] == '\'');
            } else {
                assert(print(x)[0] == '(');
            }
        },
        _ => {},
    }
}

/// Where a text stands between what is before it and what is after it.
proof fn lemma_middle(pre: Seq<char>, t: Seq<char>, post: Seq<char>)
    ensures
        ({
            let s = pre + t + post;
            let p = pre.len() as int;
            let e = p + t.len();
            &&& s.len() == e + post.len()
            &&& s.subrange(p, e) == t
            &&& (t.len() > 0 ==> s[p] == t[0])
            &&& (post.len() > 0 ==> s[e] == post[0])
            &&& forall|i: int| 0 <= i < t.len() ==> s[p + i] == #[trigger] t[i]
        }),
{
    let s = pre + t + post;
    let p = pre.len() as int;
    let e = p + t.len();
    assert(s.subrange(p, e) =~= t);
}

/// The text of a readable atom reads as that atom, whatever stands before
/// it, if the end of the text or a delimiter follows.
pub proof fn lemma_read_printed_atom(pre: Seq<char>, x: Sexp, post: Seq<char>)
    requires
        is_readable_atom(x),
        post.len() == 0 || is_delimiter(post[0]),
    ensures
        read_at(pre + print(x) + post, pre.len() as int) == parsed(
            x,
            (pre.len() + print(x).len()) as int,
        ),
{
    let t = print(x);
    let s = pre + t + post;
    let p = pre.len() as int;
    let e = p + t.len();
    lemma_middle(pre, t, post);
    match x {
        Sexp::Keyword(k) => {
            assert(t =~= seq![':'] + k);
            assert(s[p] == ':');
            assert(!is_whitespace(':'));
            lemma_skip_space_is(s, p, p);
            assert forall|i: int| p + 1 <= i < e implies !is_delimiter(#[trigger] s[i]) by {
                assert(s[i] == t[i - p]);
                assert(t[i - p] == k[i - p - 1]);
            }
            lemma_token_end_is(s, p + 1, e);
            assert(s.subrange(p + 1, e) =~= k);
        },
        Sexp::Int(n) => {
            lemma_decimal_is_plain(n);
            lemma_read_token_at(s, p, e);
        },
        _ => {
            lemma_read_token_at(s, p, e);
        },
    }
}

/// A quote before an expression reads as `(quote X)`.
proof fn lemma_quote_reads(s: Seq<char>, p: int, x: Sexp, n: int)
    requires
        0 <= p < s.len(),
        s[p] == '\'',
        read_at(s, p + 1) == parsed(x, n),
    ensures
        read_at(s, p) == parsed(cons(Sexp::Symbol("quote"@), cons(x, nil())), n),
{
    assert(!is_whitespace('\''));
    lemma_skip_space_is(s, p, p);
}

/// An opening parenthesis starts a list.
proof fn lemma_open_reads(s: Seq<char>, p: int)
    requires
        0 <= p < s.len(),
        s[p] == '(',
    ensures
        read_at(s, p) == read_list_at(s, p + 1),
{
    assert(!is_whitespace('('));
    lemma_skip_space_is(s, p, p);
}

/// An element, a dot, one more expression and a closing parenthesis read
/// as a pair.
proof fn lemma_pair_reads(
    s: Seq<char>,
    pos: int,
    p: int,
    car: Sexp,
    e: int,
    q: int,
    r: int,
    cdr: Sexp,
    n: int,
)
    requires
        0 <= pos <= p < e <= q < r < n < s.len(),
        skip_space(s, pos) == p,
        s[p] != ')',
        read_at(s, p) == parsed(car, e),
        skip_space(s, e) == q,
        s[q] == '.',
        skip_space(s, q + 1) == r,
        s[r] != ')',
        read_at(s, r) == parsed(cdr, n),
        s[n] == ')',
    ensures
        read_list_at(s, pos) == parsed(cons(car, cdr), n + 1),
{
    assert(!is_whitespace(')'));
    lemma_skip_space_is(s, n, n);
}

/// The tail of a list prints as nothing or starts with a space.
proof fn lemma_print_tail_first(x: Sexp)
    ensures
        print_tail(x).len() > 0 ==> print_tail(x)[0] == ' ',
{
}

/// The text of a list whose first element is the last.
proof fn lemma_text_last(front: Seq<char>, t: Seq<char>, post: Seq<char>)
    ensures
        ({
            let s = front + t + Seq::<char>::empty() + seq![')'] + post;
            &&& s == front + t + (seq![')'] + post)
            &&& s[(front.len() + t.len()) as int] == ')'
            &&& s.len() == front.len() + t.len() + 1 + post.len()
        }),
{
    let s = front + t + Seq::<char>::empty() + seq![')'] + post;
    assert(s =~= front + t + (seq![')'] + post));
}

/// The text of a list with a further element `u` after the element `t`.
proof fn lemma_text_more(
    front: Seq<char>,
    t: Seq<char>,
    u: Seq<char>,
    rest: Seq<char>,
    post: Seq<char>,
)
    requires
        u.len() > 0,
    ensures
        ({
            let mid = seq![' '] + u + rest;
            let s = front + t + mid + seq![')'] + post;
            let e = (front.len() + t.len()) as int;
            &&& s == front + t + (mid + seq![')'] + post)
            &&& s == (front + t) + seq![' '] + u + rest + seq![')'] + post
            &&& (mid + seq![')'] + post)[0] == ' '
            &&& s[e] == ' '
            &&& s[e + 1] == u[0]
            &&& s.len() == e + 1 + u.len() + rest.len() + 1 + post.len()
        }),
{
    let mid = seq![' '] + u + rest;
    let s = front + t + mid + seq![')'] + post;
    assert(s =~= front + t + (mid + seq![')'] + post));
    assert(s =~= (front + t) + seq![' '] + u + rest + seq![')'] + post);
}

/// The text of a pair: the element `t`, a dot, and the expression `v`.
proof fn lemma_text_pair(front: Seq<char>, t: Seq<char>, v: Seq<char>, post: Seq<char>)
    requires
        v.len() > 0,
    ensures
        ({
            let mid = seq![' ', '.', ' '] + v;
            let s = front + t + mid + seq![')'] + post;
            let e = (front.len() + t.len()) as int;
            &&& s == front + t + (mid + seq![')'] + post)
            &&& s == (front + t + seq![' ', '.', ' ']) + v + (seq![')'] + post)
            &&& (mid + seq![')'] + post)[0] == ' '
            &&& s[e] == ' '
            &&& s[e + 1] == '.'
            &&& s[e + 2] == ' '
            &&& s[e + 3] == v[0]
            &&& s[e + 3 + v.len()] == ')'
            &&& s.len() == e + 3 + v.len() + 1 + post.len()
            &&& (front + t + seq![' ', '.', ' ']).len() == e + 3
        }),
{
    let mid = seq![' ', '.', ' '] + v;
    let s = front + t + mid + seq![')'] + post;
    assert(s =~= front + t + (mid + seq![')'] + post));
    assert(s =~= (front + t + seq![' ', '.', ' ']) + v + (seq![')'] + post));
}

/// The space before an element, if there is one, is passed over.
proof fn lemma_separator(pre: Seq<char>, sep: Seq<char>, rest: Seq<char>)
    requires
        sep.len() == 0 || sep == seq![' '],
        rest.len() > 0,
        !is_whitespace(rest[0]),
    ensures
        skip_space(pre + sep + rest, pre.len() as int) == pre.len() + sep.len(),
        (pre + sep + rest)[(pre.len() + sep.len()) as int] == rest[0],
{
    let s = pre + sep + rest;
    let pos = pre.len() as int;
    let p = pos + sep.len();
    assert(is_whitespace(' '));
    if sep.len() > 0 {
        assert(s[pos] == sep[0]);
    }
    assert(s[p] == rest[0]);
    lemma_skip_space_is(s, pos, p);
}

/// Reading undoes printing: the text of a readable expression reads as
/// that expression, and the reader stops at the end of that text, whatever
/// stands before it, if the end of the text or a delimiter follows.
pub proof fn law_read_printed(pre: Seq<char>, x: Sexp, post: Seq<char>)
    requires
        is_readable(x),
        post.len() == 0 || is_delimiter(post[0]),
    ensures
        read_at(pre + print(x) + post, pre.len() as int) == parsed(
            x,
            (pre.len() + print(x).len()) as int,
        ),
    decreases x, 1nat,
{
    let s = pre + print(x) + post;
    let p = pre.len() as int;
    match x {
        Sexp::Cons { car, cdr } => {
            lemma_middle(pre, print(x), post);
            if is_quote_form(x) {
                match *cdr {
                    Sexp::Cons { car: quoted, cdr: end } => {
                        let t = print(*quoted);
                        assert(is_readable_tail(*cdr));
                        assert(is_readable(*quoted));
                        law_read_printed(pre + seq!['\''], *quoted, post);
                        assert((pre + seq!['\'']) + t + post =~= s);
                        lemma_quote_reads(s, p, *quoted, (pre.len() + 1 + t.len()) as int);
                    },
                    _ => {},
                }
            } else {
                let t = print(*car);
                let u = print_tail(*cdr);
                lemma_read_items(pre + seq!['('], Seq::empty(), x, post);
                assert((pre + seq!['(']) + Seq::<char>::empty() + t + u + seq![')'] + post =~= s);
                lemma_open_reads(s, p);
            }
        },
        _ => {
            lemma_read_printed_atom(pre, x, post);
        },
    }
}

/// The elements of a readable list, from its first, read as the list; the
/// reader stops after the closing parenthesis. `sep` is the space before
/// the first element, if there is one.
proof fn lemma_read_items(pre: Seq<char>, sep: Seq<char>, x: Sexp, post: Seq<char>)
    requires
        x is Cons,
        is_readable(*x->car),
        is_readable_tail(*x->cdr),
        sep.len() == 0 || sep == seq![' '],
    ensures
        read_list_at(
            pre + sep + print(*x->car) + print_tail(*x->cdr) + seq![')'] + post,
            pre.len() as int,
        ) == parsed(
            x,
            (pre.len() + sep.len() + print(*x->car).len() + print_tail(*x->cdr).len() + 1) as int,
        ),
    decreases x, 0nat,
{
    match x {
        Sexp::Cons { car, cdr } => {
            let t = print(*car);
            let u = print_tail(*cdr);
            let front = pre + sep;
            let s = pre + sep + t + u + seq![')'] + post;
            let pos = pre.len() as int;
            let p = pos + sep.len();
            let e = p + t.len();
            lemma_print_first(*car);
            assert(is_whitespace(' '));
            assert(is_delimiter(')'));
            assert(!is_whitespace('.'));
            match *cdr {
                Sexp::Cons { car: next, cdr: more } => {
                    let v = print(*next);
                    lemma_print_first(*next);
                    lemma_text_more(front, t, v, print_tail(*more), post);
                    let tail = u + seq![')'] + post;
                    lemma_middle(front, t, tail);
                    law_read_printed(front, *car, tail);
                    lemma_read_items(front + t, seq![' '], *cdr, post);
                    if sep.len() > 0 {
                        assert(s[pos] == ' ');
                    }
                    lemma_skip_space_is(s, pos, p);
                    lemma_skip_space_is(s, e, e + 1);
                    lemma_list_continues(s, pos, p, *car, e, e + 1);
                },
                _ => {
                    if *cdr == nil() {
                        lemma_text_last(front, t, post);
                        let tail = seq![')'] + post;
                        lemma_middle(front, t, tail);
                        law_read_printed(front, *car, tail);
                        if sep.len() > 0 {
                            assert(s[pos] == ' ');
                        }
                        lemma_skip_space_is(s, pos, p);
                        lemma_skip_space_is(s, e, e);
                        lemma_list_continues(s, pos, p, *car, e, e);
                        lemma_list_closes(s, e);
                    } else {
                        let v = print(*cdr);
                        lemma_print_first(*cdr);
                        lemma_text_pair(front, t, v, post);
                        let tail = u + seq![')'] + post;
                        lemma_middle(front, t, tail);
                        law_read_printed(front, *car, tail);
                        law_read_printed(front + t + seq![' ', '.', ' '], *cdr, seq![')'] + post);
                        if sep.len() > 0 {
                            assert(s[pos] == ' ');
                        }
                        lemma_skip_space_is(s, pos, p);
                        lemma_skip_space_is(s, e, e + 1);
                        lemma_skip_space_is(s, e + 2, e + 3);
                        lemma_pair_reads(s, pos, p, *car, e, e + 1, e + 3, *cdr, e + 3 + v.len());
                    }
                },
            }
        },
        _ => {},
    }
}

/// The text of a readable expression, read from its start, is that
/// expression, and all of the text is read.
pub proof fn law_reading_undoes_printing(x: Sexp)
    requires
        is_readable(x),
    ensures
        read_at(print(x), 0) == parsed(x, print(x).len() as int),
{
    law_read_printed(Seq::empty(), x, Seq::empty());
    assert(Seq::<char>::empty() + print(x) + Seq::<char>::empty() =~= print(x));
}

} // verus!
