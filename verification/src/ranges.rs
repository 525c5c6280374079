//! Sets of characters given as inclusive ranges.
//!
//! A character class is a list of pairs of characters; each pair stands for
//! the characters between its two ends. The set operations are those of
//! `regex_syntax`.

use vstd::prelude::*;
use regex_syntax::hir::{ClassUnicode, ClassUnicodeRange};
use crate::text::char_is_scalar;

verus! {

/// Whether `c` lies between the two ends of `r`.
pub open spec fn in_range(r: (char, char), c: char) -> bool {
    r.0 <= c <= r.1 || r.1 <= c <= r.0
}

/// Whether some range of `ranges` holds `c`.
pub open spec fn covers(ranges: Seq<(char, char)>, c: char) -> bool {
    exists|i: int| 0 <= i < ranges.len() && in_range(#[trigger] ranges[i], c)
}

/// Whether `a` and `b` hold the same characters.
pub open spec fn same_chars(a: Seq<(char, char)>, b: Seq<(char, char)>) -> bool {
    forall|c: char| covers(a, c) == covers(b, c)
}

/// Whether every range starts at or before its end.
pub open spec fn upright(ranges: Seq<(char, char)>) -> bool {
    forall|i: int| 0 <= i < ranges.len() ==> (#[trigger] ranges[i]).0 <= ranges[i].1
}

/// Whether every range starts at or before its end and ends before the
/// next one starts.
pub open spec fn ordered(ranges: Seq<(char, char)>) -> bool {
    &&& upright(ranges)
    &&& forall|i: int, j: int|
        0 <= i < j < ranges.len() ==> (#[trigger] ranges[i]).1 < (#[trigger] ranges[j]).0
}

/// Makes a class of `a` and of `b` with `ClassUnicode::new`, which takes
/// ranges in any order, overlapping or not, and each with its ends in either
/// order, and calls `ClassUnicode::symmetric_difference`. The ranges that come
/// out are in ascending order, each ending before the next one starts, and
/// hold the characters that exactly one of `a` and `b` holds.
#[verifier::external_body]
pub(crate) fn symmetric_difference(a: &Vec<(char, char)>, b: &Vec<(char, char)>) -> (r: Vec<
    (char, char),
>)
    ensures
        ordered(r@),
        forall|c: char| covers(r@, c) <==> (covers(a@, c) != covers(b@, c)),
{
    let mut x = ClassUnicode::new(a.iter().map(|p| ClassUnicodeRange::new(p.0, p.1)));
    let y = ClassUnicode::new(b.iter().map(|p| ClassUnicodeRange::new(p.0, p.1)));
    x.symmetric_difference(&y);
    x.iter().map(|p| (p.start(), p.end())).collect()
}

/// Tells whether `a` and `b` hold the same characters.
pub fn same_set(a: &Vec<(char, char)>, b: &Vec<(char, char)>) -> (r: bool)
    ensures
        r == same_chars(a@, b@),
{
    let d = symmetric_difference(a, b);
    proof {
        if d.len() > 0 {
            assert(in_range(d@[0], d@[0].0));
            assert(covers(d@, d@[0].0));
        }
    }
    d.len() == 0
}

/// The characters that `class` does not hold, as ranges in ascending
/// order: those that exactly one of `class` and the class of all characters
/// holds.
pub fn complement(class: &Vec<(char, char)>) -> (r: Vec<(char, char)>)
    ensures
        ordered(r@),
        forall|c: char| covers(r@, c) <==> !covers(class@, c),
{
    let mut all: Vec<(char, char)> = Vec::new();
    all.push(('\0', '\u{10FFFF}'));
    proof {
        assert forall|c: char| covers(all@, c) by {
            char_is_scalar(c);
            assert(in_range(all@[0], c));
        }
    }
    symmetric_difference(class, &all)
}

} // verus!
