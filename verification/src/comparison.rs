//! Three-way comparisons.

use vstd::prelude::*;

use crate::text::chars_of;

verus! {

/// How one value stands to another.
#[derive(Debug, Clone, Copy, PartialEq, Eq, Structural)]
pub enum Comparison {
    Less,
    Equal,
    Greater,
}

impl Comparison {
    /// The comparison with its sides exchanged.
    pub open spec fn flipped(self) -> Comparison {
        match self {
            Comparison::Less => Comparison::Greater,
            Comparison::Equal => Comparison::Equal,
            Comparison::Greater => Comparison::Less,
        }
    }

    /// This comparison, or `next` where it finds no difference.
    pub open spec fn refined(self, next: Comparison) -> Comparison {
        if self == Comparison::Equal {
            next
        } else {
            self
        }
    }

    pub fn flip(self) -> (result: Comparison)
        ensures
            result == self.flipped(),
    {
        match self {
            Comparison::Less => Comparison::Greater,
            Comparison::Equal => Comparison::Equal,
            Comparison::Greater => Comparison::Less,
        }
    }

    pub fn refine(self, next: Comparison) -> (result: Comparison)
        ensures
            result == self.refined(next),
    {
        match self {
            Comparison::Equal => next,
            _ => self,
        }
    }
}

/// How one number stands to another.
pub open spec fn number_order(a: int, b: int) -> Comparison {
    if a < b {
        Comparison::Less
    } else if a == b {
        Comparison::Equal
    } else {
        Comparison::Greater
    }
}

/// How one text stands to another in the order of their characters' codes.
pub open spec fn text_order(a: Seq<char>, b: Seq<char>) -> Comparison
    decreases a.len(),
{
    if a.len() == 0 || b.len() == 0 {
        number_order(a.len() as int, b.len() as int)
    } else {
        number_order(a[0] as int, b[0] as int).refined(text_order(a.skip(1), b.skip(1)))
    }
}

pub fn compare_usize(a: usize, b: usize) -> (result: Comparison)
    ensures
        result == number_order(a as int, b as int),
{
    if a < b {
        Comparison::Less
    } else if a == b {
        Comparison::Equal
    } else {
        Comparison::Greater
    }
}

pub fn compare_i128(a: i128, b: i128) -> (result: Comparison)
    ensures
        result == number_order(a as int, b as int),
{
    if a < b {
        Comparison::Less
    } else if a == b {
        Comparison::Equal
    } else {
        Comparison::Greater
    }
}

/// Compares two texts by their characters' codes.
pub fn compare_text(a: &str, b: &str) -> (result: Comparison)
    ensures
        result == text_order(a@, b@),
{
    let left = chars_of(a);
    let right = chars_of(b);
    let mut index: usize = 0;
    assert(a@.skip(0) =~= a@);
    assert(b@.skip(0) =~= b@);
    while index < left.len() && index < right.len()
        invariant
            left@ == a@,
            right@ == b@,
            index <= left@.len(),
            index <= right@.len(),
            text_order(a@, b@) == text_order(a@.skip(index as int), b@.skip(index as int)),
        decreases left@.len() - index,
    {
        assert(a@.skip(index as int).skip(1) =~= a@.skip(index + 1));
        assert(b@.skip(index as int).skip(1) =~= b@.skip(index + 1));
        if left[index] < right[index] {
            return Comparison::Less;
        }
        if left[index] > right[index] {
            return Comparison::Greater;
        }
        index += 1;
    }
    compare_usize(left.len() - index, right.len() - index)
}

/// Texts are in one order: comparing the other way round flips the result, only
/// equal texts compare equal, and the order chains.
pub proof fn law_text_order(a: Seq<char>, b: Seq<char>, c: Seq<char>)
    ensures
        text_order(b, a) == text_order(a, b).flipped(),
        text_order(a, b) == Comparison::Equal <==> a == b,
        text_order(a, b) != Comparison::Greater && text_order(b, c) != Comparison::Greater
            ==> text_order(a, c) != Comparison::Greater,
    decreases a.len() + b.len() + c.len(),
{
    if a.len() > 0 && b.len() > 0 && c.len() > 0 {
        law_text_order(a.skip(1), b.skip(1), c.skip(1));
    } else if a.len() > 0 && b.len() > 0 {
        law_text_order(a.skip(1), b.skip(1), c);
    }
    if a.len() > 0 && b.len() > 0 {
        if a[0] == b[0] && a.skip(1) == b.skip(1) {
            assert(a =~= seq![a[0]] + a.skip(1));
            assert(b =~= seq![b[0]] + b.skip(1));
        }
    } else if a.len() == b.len() {
        assert(a =~= b);
    }
}

} // verus!
