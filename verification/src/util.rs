//! Walking two sequences in step.

use vstd::prelude::*;

verus! {

#[derive(Debug, Clone, Copy, PartialEq, Eq, Structural)]
pub enum UtliErr {
    NoSameLengthIteratorError,
}

/// Two sequences that are walked in step. Each call of `next` takes one
/// item from each.
pub struct SafeZipEq<A, B> {
    a: Vec<A>,
    b: Vec<B>,
}

impl<A, B> SafeZipEq<A, B> {
    /// The items of the first sequence that are still to come.
    pub closed spec fn left(&self) -> Seq<A> {
        self.a@
    }

    /// The items of the second sequence that are still to come.
    pub closed spec fn right(&self) -> Seq<B> {
        self.b@
    }

    /// The next pair. When both sequences are at their end there is none;
    /// when only one is, an item is taken from the other and the result is
    /// `NoSameLengthIteratorError`.
    pub fn next(&mut self) -> (r: Option<Result<(A, B), UtliErr>>)
        ensures
            match r {
                None => {
                    &&& old(self).left().len() == 0
                    &&& old(self).right().len() == 0
                    &&& final(self).left() == old(self).left()
                    &&& final(self).right() == old(self).right()
                },
                Some(Ok((x, y))) => {
                    &&& old(self).left().len() > 0
                    &&& old(self).right().len() > 0
                    &&& x == old(self).left()[0]
                    &&& y == old(self).right()[0]
                    &&& final(self).left() == old(self).left().drop_first()
                    &&& final(self).right() == old(self).right().drop_first()
                },
                Some(Err(e)) => {
                    &&& e == UtliErr::NoSameLengthIteratorError
                    &&& (old(self).left().len() == 0) != (old(self).right().len() == 0)
                    &&& final(self).left() == if old(self).left().len() == 0 {
                        old(self).left()
                    } else {
                        old(self).left().drop_first()
                    }
                    &&& final(self).right() == if old(self).right().len() == 0 {
                        old(self).right()
                    } else {
                        old(self).right().drop_first()
                    }
                },
            },
    {
        let ghost left = self.a@;
        let ghost right = self.b@;
        let x = if self.a.len() > 0 {
            Some(self.a.remove(0))
        } else {
            None
        };
        let y = if self.b.len() > 0 {
            Some(self.b.remove(0))
        } else {
            None
        };
        assert(left.len() > 0 ==> self.a@ =~= left.drop_first());
        assert(right.len() > 0 ==> self.b@ =~= right.drop_first());
        match (x, y) {
            (None, None) => None,
            (Some(x), Some(y)) => Some(Ok((x, y))),
            _ => Some(Err(UtliErr::NoSameLengthIteratorError)),
        }
    }
}

/// Walks `i` and `j` in step, from their first items.
pub fn safe_zip_eq<A, B>(i: Vec<A>, j: Vec<B>) -> (r: SafeZipEq<A, B>)
    ensures
        r.left() == i@,
        r.right() == j@,
{
    SafeZipEq { a: i, b: j }
}

} // verus!
