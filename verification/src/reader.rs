//! The reader: turns text into expressions, one per call.

use vstd::prelude::*;
use crate::grammar::{
    atom_of, digits_end, int_literal_value, is_int_literal, is_whitespace, lemma_digits_end,
    lemma_read_bounds, lemma_skip_space, read_at, read_list_at, read_string_at, sign_len,
    skip_space, token_end,
};
use crate::model::Sexp;
use crate::text::{chars_of, digit_value, digits_value, is_digit, string_of, text};
use crate::types::{result_view, RuspAtom, RuspErr, RuspExp};

verus! {

/// A cursor over a text. Each call of `read` takes one expression from it.
pub struct Reader {
    input: Vec<char>,
    pos: usize,
}

pub fn is_space(c: char) -> (r: bool)
    ensures
        r == is_whitespace(c),
{
    let u = c as u32;
    (0x09 <= u && u <= 0x0D) || u == 0x20 || u == 0x85 || u == 0xA0 || u == 0x1680 || (0x2000 <= u
        && u <= 0x200A) || u == 0x2028 || u == 0x2029 || u == 0x202F || u == 0x205F || u == 0x3000
}

fn is_decimal_digit(c: char) -> (r: bool)
    ensures
        r == is_digit(c),
{
    let u = c as u32;
    48 <= u && u <= 57
}

/// The first position at or after `from` that holds no white space.
pub fn skip_spaces(v: &Vec<char>, from: usize) -> (r: usize)
    requires
        from <= v.len(),
    ensures
        r == skip_space(v@, from as int),
        from <= r <= v.len(),
{
    let mut i = from;
    while i < v.len() && is_space(v[i])
        invariant
            from <= i <= v.len(),
            skip_space(v@, from as int) == skip_space(v@, i as int),
        decreases v.len() - i,
    {
        i += 1;
    }
    i
}

fn scan_token(v: &Vec<char>, from: usize) -> (r: usize)
    requires
        from <= v.len(),
    ensures
        r == token_end(v@, from as int),
        from <= r <= v.len(),
{
    let mut i = from;
    while i < v.len() && !(is_space(v[i]) || v[i] == '(' || v[i] == ')')
        invariant
            from <= i <= v.len(),
            token_end(v@, from as int) == token_end(v@, i as int),
        decreases v.len() - i,
    {
        i += 1;
    }
    i
}

fn scan_digits(t: &Vec<char>, from: usize) -> (r: usize)
    requires
        from <= t.len(),
    ensures
        r == digits_end(t@, from as int),
        from <= r <= t.len(),
{
    let mut i = from;
    while i < t.len() && is_decimal_digit(t[i])
        invariant
            from <= i <= t.len(),
            digits_end(t@, from as int) == digits_end(t@, i as int),
        decreases t.len() - i,
    {
        i += 1;
    }
    i
}

/// A longer run of digits denotes no smaller a number.
proof fn lemma_digits_value_grows(s: Seq<char>, k: int, i: int, j: int)
    requires
        0 <= k <= i <= j <= s.len(),
        forall|x: int| k <= x < j ==> is_digit(#[trigger] s[x]),
    ensures
        digits_value(s.subrange(k, i)) <= digits_value(s.subrange(k, j)),
    decreases j - i,
{
    if i < j {
        lemma_digits_value_grows(s, k, i, j - 1);
        assert(s.subrange(k, j).drop_last() =~= s.subrange(k, j - 1));
        assert(is_digit(s[j - 1]));
    }
}

/// The value of an integer literal, or `None` if it does not fit in 64 bits.
fn parse_int(t: &Vec<char>) -> (r: Option<i64>)
    requires
        is_int_literal(t@),
    ensures
        match r {
            Some(v) => v == int_literal_value(t@),
            None => !(i64::MIN <= int_literal_value(t@) <= i64::MAX),
        },
{
    let negative = t[0] == '-';
    let k: usize = if t[0] == '+' || t[0] == '-' {
        1
    } else {
        0
    };
    let limit: u64 = if negative {
        0x8000_0000_0000_0000
    } else {
        0x7fff_ffff_ffff_ffff
    };
    proof {
        lemma_digits_end(t@, k as int);
    }
    let mut acc: u64 = 0;
    let mut i: usize = k;
    assert(t@.subrange(k as int, k as int) =~= Seq::empty());
    while i < t.len()
        invariant
            k <= i <= t.len(),
            k == sign_len(t@),
            forall|x: int| k <= x < t.len() ==> is_digit(#[trigger] t@[x]),
            acc == digits_value(t@.subrange(k as int, i as int)),
            acc <= limit,
            t.len() > 0,
            negative == (t@[0] == '-'),
            limit == if negative {
                0x8000_0000_0000_0000u64
            } else {
                0x7fff_ffff_ffff_ffffu64
            },
        decreases t.len() - i,
    {
        assert(is_digit(t@[i as int]));
        let d: u64 = (t[i] as u32 - 48) as u64;
        assert(d == digit_value(t@[i as int]));
        assert(t@.subrange(k as int, i + 1).drop_last() =~= t@.subrange(k as int, i as int));
        if acc > (limit - d) / 10 {
            proof {
                lemma_digits_value_grows(t@, k as int, i + 1, t.len() as int);
                assert(digits_value(t@.subrange(k as int, i + 1)) == acc * 10 + d);
            }
            return None;
        }
        acc = acc * 10 + d;
        i += 1;
    }
    if negative {
        if acc == 0x8000_0000_0000_0000 {
            Some(i64::MIN)
        } else {
            Some(-(acc as i64))
        }
    } else {
        Some(acc as i64)
    }
}

/// The atom that the token `t` stands for.
fn classify(t: &Vec<char>) -> (r: RuspExp)
    ensures
        r@ == atom_of(t@),
{
    let k: usize = if t.len() > 0 && (t[0] == '+' || t[0] == '-') {
        1
    } else {
        0
    };
    let d = scan_digits(t, k);
    let name = string_of(t, 0, t.len());
    assert(name@ =~= t@);
    if d < t.len() && t[d] == '.' {
        let f = scan_digits(t, d + 1);
        if d + 1 < f && f == t.len() {
            return RuspExp::Atom(RuspAtom::Float(name));
        }
    }
    if k < d && d == t.len() {
        if let Some(v) = parse_int(t) {
            return RuspExp::Atom(RuspAtom::Int(v));
        }
    }
    RuspExp::Atom(RuspAtom::Symbol(name))
}

/// A copy of `v[from..to]`.
fn slice_of(v: &Vec<char>, from: usize, to: usize) -> (r: Vec<char>)
    requires
        from <= to <= v.len(),
    ensures
        r@ == v@.subrange(from as int, to as int),
{
    let mut r: Vec<char> = Vec::new();
    let mut i = from;
    while i < to
        invariant
            from <= i <= to <= v.len(),
            r@ == v@.subrange(from as int, i as int),
        decreases to - i,
    {
        r.push(v[i]);
        assert(r@ =~= v@.subrange(from as int, i + 1));
        i += 1;
    }
    r
}

impl Reader {
    /// The text that is read.
    pub closed spec fn text(&self) -> Seq<char> {
        self.input@
    }

    /// The position of the next character to read.
    pub closed spec fn cursor(&self) -> int {
        self.pos as int
    }

    /// The cursor lies inside the text or at its end.
    #[verifier::type_invariant]
    spec fn inside(&self) -> bool {
        self.pos <= self.input.len()
    }

    /// A reader at the start of `input`.
    pub fn new(input: &str) -> (r: Reader)
        ensures
            r.text() == input@,
            r.cursor() == 0,
    {
        Reader { input: chars_of(input), pos: 0 }
    }

    /// Whether nothing but white space is left to read.
    pub fn at_end(&self) -> (r: bool)
        ensures
            r == (skip_space(self.text(), self.cursor()) >= self.text().len()),
    {
        proof {
            use_type_invariant(&*self);
        }
        skip_spaces(&self.input, self.pos) >= self.input.len()
    }

    fn skip_whitespace(&mut self)
        ensures
            final(self).text() == old(self).text(),
            final(self).cursor() == skip_space(old(self).text(), old(self).cursor()),
            old(self).cursor() <= final(self).cursor(),
    {
        proof {
            use_type_invariant(&*self);
        }
        self.pos = skip_spaces(&self.input, self.pos);
    }

    fn read_string(&mut self) -> (r: Result<RuspExp, RuspErr>)
        requires
            old(self).cursor() < old(self).text().len(),
        ensures
            final(self).text() == old(self).text(),
            result_view(r) == read_string_at(
                old(self).text(),
                old(self).cursor() + 1,
                Seq::empty(),
            ).result,
            final(self).cursor() == read_string_at(
                old(self).text(),
                old(self).cursor() + 1,
                Seq::empty(),
            ).next,
    {
        proof {
            use_type_invariant(&*self);
        }
        let mut result = String::new();
        let mut i: usize = self.pos + 1;
        let n = self.input.len();
        loop
            invariant
                self.input == old(self).input,
                n == self.input.len(),
                old(self).pos < i <= n,
                read_string_at(self.input@, old(self).pos + 1, Seq::empty()) == read_string_at(
                    self.input@,
                    i as int,
                    result@,
                ),
            decreases n - i,
        {
            if i >= n {
                self.pos = n;
                return Err(RuspErr::ReaderEofError);
            }
            let c = self.input[i];
            if c == '"' {
                self.pos = i + 1;
                return Ok(RuspExp::Atom(RuspAtom::String(result)));
            } else if c == '\\' {
                if i + 1 >= n {
                    self.pos = n;
                    return Err(RuspErr::ReaderEofError);
                }
                let e = self.input[i + 1];
                if e == '"' || e == '\\' {
                    result.push(e);
                    i += 2;
                } else {
                    self.pos = i + 2;
                    return Err(RuspErr::ReaderInvalidEscapeError { char: e });
                }
            } else {
                result.push(c);
                i += 1;
            }
        }
    }

    fn read_atom(&mut self) -> (r: Result<RuspExp, RuspErr>)
        ensures
            final(self).text() == old(self).text(),
            final(self).cursor() == token_end(old(self).text(), old(self).cursor()),
            r matches Ok(x) && x@ == atom_of(
                old(self).text().subrange(old(self).cursor(), final(self).cursor()),
            ),
    {
        proof {
            use_type_invariant(&*self);
        }
        let end = scan_token(&self.input, self.pos);
        let token = slice_of(&self.input, self.pos, end);
        self.pos = end;
        Ok(classify(&token))
    }

    fn read_keyword(&mut self) -> (r: Result<RuspExp, RuspErr>)
        requires
            old(self).cursor() < old(self).text().len(),
        ensures
            final(self).text() == old(self).text(),
            final(self).cursor() == token_end(old(self).text(), old(self).cursor() + 1),
            r matches Ok(x) && x@ == Sexp::Keyword(
                old(self).text().subrange(old(self).cursor() + 1, final(self).cursor()),
            ),
    {
        proof {
            use_type_invariant(&*self);
        }
        let end = scan_token(&self.input, self.pos + 1);
        let name = string_of(&self.input, self.pos + 1, end);
        self.pos = end;
        Ok(RuspExp::Atom(RuspAtom::Keyword(name)))
    }

    fn read_cons(&mut self) -> (r: Result<RuspExp, RuspErr>)
        ensures
            final(self).text() == old(self).text(),
            result_view(r) == read_list_at(old(self).text(), old(self).cursor()).result,
            final(self).cursor() == read_list_at(old(self).text(), old(self).cursor()).next,
        decreases old(self).text().len() - old(self).cursor(), 1nat,
    {
        proof {
            use_type_invariant(&*self);
        }
        let ghost s = self.input@;
        self.skip_whitespace();
        let p = self.pos;
        if p >= self.input.len() {
            return Err(RuspErr::ReaderEofError);
        }
        if self.input[p] == ')' {
            self.pos = p + 1;
            return Ok(RuspExp::nil());
        }
        proof {
            lemma_read_bounds(s, p as int);
            lemma_skip_space(s, p as int);
        }
        let car = match self.read() {
            Ok(x) => x,
            Err(e) => {
                return Err(e);
            },
        };
        let ghost first = read_at(s, p as int);
        proof {
            lemma_skip_space(s, first.next);
        }
        let q = skip_spaces(&self.input, self.pos);
        if q < self.input.len() && self.input[q] == '.' {
            proof {
                lemma_skip_space(s, q + 1);
            }
            let r = skip_spaces(&self.input, q + 1);
            if r < self.input.len() && self.input[r] == ')' {
                self.pos = r + 1;
                return Err(RuspErr::ReaderError);
            }
            self.pos = r;
            let cdr = match self.read() {
                Ok(x) => x,
                Err(e) => {
                    return Err(e);
                },
            };
            proof {
                lemma_read_bounds(s, r as int);
                lemma_skip_space(s, read_at(s, r as int).next);
            }
            self.skip_whitespace();
            if self.pos >= self.input.len() {
                return Err(RuspErr::ReaderEofError);
            }
            if self.input[self.pos] == ')' {
                self.pos = self.pos + 1;
                return Ok(RuspExp::cons(car, cdr));
            }
            return Err(RuspErr::ReaderError);
        }
        let cdr = match self.read_cons() {
            Ok(x) => x,
            Err(e) => {
                return Err(e);
            },
        };
        Ok(RuspExp::cons(car, cdr))
    }

    /// Reads one expression and moves the cursor past it. On failure the
    /// cursor is left where the grammar gave up.
    pub fn read(&mut self) -> (r: Result<RuspExp, RuspErr>)
        ensures
            final(self).text() == old(self).text(),
            result_view(r) == read_at(old(self).text(), old(self).cursor()).result,
            final(self).cursor() == read_at(old(self).text(), old(self).cursor()).next,
            old(self).cursor() <= final(self).cursor() <= final(self).text().len(),
        decreases old(self).text().len() - old(self).cursor(), 0nat,
    {
        proof {
            use_type_invariant(&*self);
            lemma_read_bounds(self.input@, self.pos as int);
        }
        let ghost s = self.input@;
        self.skip_whitespace();
        let p = self.pos;
        if p >= self.input.len() {
            return Err(RuspErr::ReaderEofError);
        }
        let c = self.input[p];
        if c == '\'' {
            self.pos = p + 1;
            match self.read() {
                Ok(x) => Ok(
                    RuspExp::cons(RuspExp::symbol("quote"), RuspExp::cons(x, RuspExp::nil())),
                ),
                Err(e) => Err(e),
            }
        } else if c == ':' {
            self.read_keyword()
        } else if c == '"' {
            self.read_string()
        } else if c == '(' {
            self.pos = p + 1;
            self.read_cons()
        } else if c == ')' {
            self.pos = p + 1;
            Err(RuspErr::ReaderError)
        } else {
            self.read_atom()
        }
    }
}

} // verus!
