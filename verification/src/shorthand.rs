//! Recognising the shorthand classes `\d`, `\w`, `\s`, their negations, and `.`.

use vstd::prelude::*;
use regex_syntax::hir::{Class, HirKind};
use regex_syntax::Parser;
use crate::ranges::{same_chars, same_set};

verus! {

/// The number of shorthand classes.
pub const SHORTHANDS: usize = 7;

/// The shorthand classes, in the order in which they are tried.
pub open spec fn shorthand_pattern(i: int) -> Seq<char> {
    if i == 0 {
        "\\d"@
    } else if i == 1 {
        "\\w"@
    } else if i == 2 {
        "\\s"@
    } else if i == 3 {
        "\\S"@
    } else if i == 4 {
        "\\W"@
    } else if i == 5 {
        "\\D"@
    } else {
        "."@
    }
}

/// The ranges of the class that `regex_syntax::Parser::parse`, as
/// `Parser::new` sets it up, makes of `pattern`; `None` where it rejects the
/// pattern or makes something other than a class of characters.
pub uninterp spec fn parsed_class(pattern: Seq<char>) -> Option<Seq<(char, char)>>;

/// The classes of the shorthand patterns, in their order.
pub open spec fn shorthand_classes() -> Seq<Option<Seq<(char, char)>>> {
    Seq::new(SHORTHANDS as nat, |i: int| parsed_class(shorthand_pattern(i)))
}

/// Whether candidate `i` is there and holds the same characters as `ranges`.
pub open spec fn matches_at(
    ranges: Seq<(char, char)>,
    candidates: Seq<Option<Seq<(char, char)>>>,
    i: int,
) -> bool {
    &&& 0 <= i < candidates.len()
    &&& candidates[i] matches Some(c)
    &&& same_chars(ranges, c)
}

/// The first candidate that holds the same characters as `ranges`.
pub open spec fn first_match(
    ranges: Seq<(char, char)>,
    candidates: Seq<Option<Seq<(char, char)>>>,
) -> Option<int>
    decreases candidates.len(),
{
    if candidates.len() == 0 {
        None
    } else {
        match first_match(ranges, candidates.drop_last()) {
            Some(i) => Some(i),
            None => if matches_at(ranges, candidates, candidates.len() - 1) {
                Some(candidates.len() - 1)
            } else {
                None
            },
        }
    }
}

/// The shorthand that stands for `ranges`: the first whose class holds the
/// same characters.
pub open spec fn shorthand(ranges: Seq<(char, char)>) -> Option<Seq<char>> {
    match first_match(ranges, shorthand_classes()) {
        Some(i) => Some(shorthand_pattern(i)),
        None => None,
    }
}

/// The candidates as sequences of ranges.
pub open spec fn candidate_views(candidates: Seq<Option<Vec<(char, char)>>>) -> Seq<
    Option<Seq<(char, char)>>,
> {
    Seq::new(
        candidates.len(),
        |i: int|
            match candidates[i] {
                Some(v) => Some(v@),
                None => None,
            },
    )
}

/// `first_match` gives the least index at which a candidate matches.
pub proof fn first_match_is_least(
    ranges: Seq<(char, char)>,
    candidates: Seq<Option<Seq<(char, char)>>>,
)
    ensures
        match first_match(ranges, candidates) {
            Some(i) => matches_at(ranges, candidates, i) && forall|j: int|
                0 <= j < i ==> !matches_at(ranges, candidates, j),
            None => forall|j: int| !matches_at(ranges, candidates, j),
        },
    decreases candidates.len(),
{
    if candidates.len() > 0 {
        let front = candidates.drop_last();
        first_match_is_least(ranges, front);
        assert forall|j: int| 0 <= j < front.len() implies matches_at(ranges, front, j)
            == matches_at(ranges, candidates, j) by {
            assert(front[j] == candidates[j]);
        }
    }
}

/// Runs `Parser::new().parse(pattern)` of `regex_syntax` and hands out the
/// ranges of the class that it made, each as its two ends, in the order in
/// which `ClassUnicode::iter` walks them.
#[verifier::external_body]
pub(crate) fn parse_class(pattern: &str) -> (r: Option<Vec<(char, char)>>)
    ensures
        match r {
            Some(v) => parsed_class(pattern@) == Some(v@),
            None => parsed_class(pattern@) is None,
        },
{
    match Parser::new().parse(pattern) {
        Ok(hir) => match hir.kind() {
            HirKind::Class(Class::Unicode(c)) => Some(
                c.iter().map(|p| (p.start(), p.end())).collect(),
            ),
            _ => None,
        },
        Err(_) => None,
    }
}

/// The shorthand pattern at place `i`.
pub fn pattern(i: usize) -> (p: &'static str)
    requires
        i < SHORTHANDS,
    ensures
        p@ == shorthand_pattern(i as int),
{
    if i == 0 {
        "\\d"
    } else if i == 1 {
        "\\w"
    } else if i == 2 {
        "\\s"
    } else if i == 3 {
        "\\S"
    } else if i == 4 {
        "\\W"
    } else if i == 5 {
        "\\D"
    } else {
        "."
    }
}

/// The place of the first candidate that is there and holds the same
/// characters as `class`.
pub fn shorthand_among(class: &Vec<(char, char)>, candidates: &Vec<Option<Vec<(char, char)>>>) -> (r:
    Option<usize>)
    ensures
        match r {
            Some(i) => first_match(class@, candidate_views(candidates@)) == Some(i as int),
            None => first_match(class@, candidate_views(candidates@)) is None,
        },
{
    let ghost views = candidate_views(candidates@);
    let mut i: usize = 0;
    while i < candidates.len()
        invariant
            i <= candidates.len(),
            views == candidate_views(candidates@),
            first_match(class@, views.take(i as int)) is None,
        decreases candidates.len() - i,
    {
        proof {
            assert(views.take(i + 1).drop_last() =~= views.take(i as int));
        }
        let hit = match &candidates[i] {
            Some(c) => same_set(class, c),
            None => false,
        };
        if hit {
            proof {
                first_match_extends(class@, views, i + 1);
            }
            return Some(i);
        }
        i += 1;
    }
    assert(views.take(i as int) =~= views);
    None
}

/// A match among the first `n` candidates is the match among all of them.
pub proof fn first_match_extends(
    ranges: Seq<(char, char)>,
    candidates: Seq<Option<Seq<(char, char)>>>,
    n: int,
)
    requires
        0 <= n <= candidates.len(),
        first_match(ranges, candidates.take(n)) is Some,
    ensures
        first_match(ranges, candidates) == first_match(ranges, candidates.take(n)),
    decreases candidates.len() - n,
{
    if n < candidates.len() {
        assert(candidates.take(n + 1).drop_last() =~= candidates.take(n));
        first_match_extends(ranges, candidates, n + 1);
    } else {
        assert(candidates.take(n) =~= candidates);
    }
}

/// The shorthand that stands for `class`, if there is one.
pub fn char_class(class: &Vec<(char, char)>) -> (r: Option<&'static str>)
    ensures
        match r {
            Some(s) => shorthand(class@) == Some(s@),
            None => shorthand(class@) is None,
        },
{
    let mut candidates: Vec<Option<Vec<(char, char)>>> = Vec::new();
    let mut i: usize = 0;
    while i < SHORTHANDS
        invariant
            i <= SHORTHANDS,
            candidates.len() == i,
            candidate_views(candidates@) =~= shorthand_classes().take(i as int),
        decreases SHORTHANDS - i,
    {
        let parsed = parse_class(pattern(i));
        candidates.push(parsed);
        i += 1;
    }
    assert(shorthand_classes().take(SHORTHANDS as int) =~= shorthand_classes());
    match shorthand_among(class, &candidates) {
        Some(i) => {
            proof {
                first_match_is_least(class@, shorthand_classes());
            }
            Some(pattern(i))
        },
        None => None,
    }
}

} // verus!
