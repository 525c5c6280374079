//! Writing a class as the set of characters that it leaves out.
//!
//! Where few characters are missing from a class, it reads best as `[^`,
//! the missing characters, and `]`. The characters are listed range by range
//! in ascending order, and the listing is given up once the whole, brackets
//! included, would grow past a fixed length.

use vstd::prelude::*;
use vstd::string::*;
use crate::ranges::{complement, covers, in_range, ordered, upright};
use crate::text::{char_is_scalar, code_of, is_scalar};

verus! {

/// The greatest length of the whole set as it is written: `[^`, the
/// characters listed, and `]`.
pub const MAX_LEN: usize = 48;

/// The characters with a code from `lo` to `hi`, in ascending order.
pub open spec fn chars_between(lo: int, hi: int) -> Seq<char>
    decreases hi - lo + 1,
{
    if hi < lo {
        Seq::empty()
    } else if is_scalar(hi) {
        chars_between(lo, hi - 1).push(hi as char)
    } else {
        chars_between(lo, hi - 1)
    }
}

/// The characters of each range in turn, from its first end to its second.
pub open spec fn enumerate(ranges: Seq<(char, char)>) -> Seq<char>
    decreases ranges.len(),
{
    if ranges.len() == 0 {
        Seq::empty()
    } else {
        enumerate(ranges.drop_last()) + chars_between(
            ranges.last().0 as int,
            ranges.last().1 as int,
        )
    }
}

/// The characters with a code up to `hi` that no range of `ranges` holds, in
/// ascending order.
pub open spec fn missing_up_to(ranges: Seq<(char, char)>, hi: int) -> Seq<char>
    decreases hi + 1,
{
    if hi < 0 {
        Seq::empty()
    } else if is_scalar(hi) && !covers(ranges, hi as char) {
        missing_up_to(ranges, hi - 1).push(hi as char)
    } else {
        missing_up_to(ranges, hi - 1)
    }
}

/// The characters that no range of `ranges` holds, in ascending order.
pub open spec fn missing(ranges: Seq<(char, char)>) -> Seq<char> {
    missing_up_to(ranges, 0x10FFFF)
}

/// `[^`, the characters `chars`, and `]`, where these are at most `MAX_LEN`
/// long together.
pub open spec fn bracketed(chars: Seq<char>) -> Option<Seq<char>> {
    if chars.len() + 3 <= MAX_LEN {
        Some("[^"@ + chars + "]"@)
    } else {
        None
    }
}

/// The set of missing characters that stands for the class `ranges`, where
/// it is short enough.
pub open spec fn everything_except(ranges: Seq<(char, char)>) -> Option<Seq<char>> {
    bracketed(missing(ranges))
}

/// A longer stretch of codes holds at least the characters of a shorter one
/// that starts at the same code.
pub proof fn chars_between_grows(lo: int, mid: int, hi: int)
    requires
        mid <= hi,
    ensures
        chars_between(lo, mid).len() <= chars_between(lo, hi).len(),
    decreases hi - mid,
{
    if mid < hi {
        chars_between_grows(lo, mid, hi - 1);
        if hi < lo {
            assert(chars_between(lo, mid).len() == 0);
        }
    }
}

/// The characters between `lo` and `hi` are those of the stretch with a code
/// in that span: `c` is listed exactly when `lo <= c <= hi`.
pub proof fn chars_between_holds(lo: int, hi: int, c: char)
    ensures
        chars_between(lo, hi).contains(c) <==> lo <= c as int <= hi,
    decreases hi - lo + 1,
{
    if hi < lo {
    } else {
        chars_between_holds(lo, hi - 1, c);
        let front = chars_between(lo, hi - 1);
        if is_scalar(hi) {
            let all = front.push(hi as char);
            if front.contains(c) {
                let i = choose|i: int| 0 <= i < front.len() && front[i] == c;
                assert(all[i] == c);
            }
            if c as int == hi {
                assert(all[front.len() as int] == c);
            }
        }
    }
}

/// The listing of more ranges is at least as long as the listing of the
/// first `n` of them.
pub proof fn enumerate_grows(ranges: Seq<(char, char)>, n: int)
    requires
        0 <= n <= ranges.len(),
    ensures
        enumerate(ranges.take(n)).len() <= enumerate(ranges).len(),
    decreases ranges.len() - n,
{
    if n < ranges.len() {
        assert(ranges.take(n + 1).drop_last() =~= ranges.take(n));
        enumerate_grows(ranges, n + 1);
    } else {
        assert(ranges.take(n) =~= ranges);
    }
}

/// A character is listed exactly when one of the ranges, read from its first
/// end to its second, holds it.
pub proof fn enumerate_holds(ranges: Seq<(char, char)>, c: char)
    requires
        upright(ranges),
    ensures
        enumerate(ranges).contains(c) <==> covers(ranges, c),
    decreases ranges.len(),
{
    if ranges.len() > 0 {
        let front = ranges.drop_last();
        let last = ranges.last();
        assert(upright(front)) by {
            assert forall|i: int| 0 <= i < front.len() implies (#[trigger] front[i]).0
                <= front[i].1 by {
                assert(front[i] == ranges[i]);
            }
        }
        enumerate_holds(front, c);
        chars_between_holds(last.0 as int, last.1 as int, c);
        let a = enumerate(front);
        let b = chars_between(last.0 as int, last.1 as int);
        assert((a + b).contains(c) <==> a.contains(c) || b.contains(c)) by {
            if a.contains(c) {
                let i = choose|i: int| 0 <= i < a.len() && a[i] == c;
                assert((a + b)[i] == c);
            }
            if b.contains(c) {
                let i = choose|i: int| 0 <= i < b.len() && b[i] == c;
                assert((a + b)[a.len() + i] == c);
            }
            if (a + b).contains(c) {
                let i = choose|i: int| 0 <= i < (a + b).len() && (a + b)[i] == c;
                if i < a.len() {
                    assert(a[i] == c);
                } else {
                    assert(b[i - a.len()] == c);
                }
            }
        }
        assert(ranges[ranges.len() - 1] == last);
        if covers(front, c) {
            let i = choose|i: int| 0 <= i < front.len() && in_range(#[trigger] front[i], c);
            assert(front[i] == ranges[i]);
        }
        if covers(ranges, c) {
            let i = choose|i: int| 0 <= i < ranges.len() && in_range(#[trigger] ranges[i], c);
            if i < front.len() {
                assert(front[i] == ranges[i]);
            }
        }
    }
}

/// Whether each character of `s` comes before the next.
pub open spec fn ascending(s: Seq<char>) -> bool {
    forall|i: int, j: int| 0 <= i < j < s.len() ==> s[i] < s[j]
}

/// The characters between two codes are listed in ascending order.
pub proof fn chars_between_ascends(lo: int, hi: int)
    ensures
        ascending(chars_between(lo, hi)),
    decreases hi - lo + 1,
{
    if lo <= hi {
        chars_between_ascends(lo, hi - 1);
        let front = chars_between(lo, hi - 1);
        assert forall|i: int| 0 <= i < front.len() implies (front[i] as int) < hi by {
            chars_between_holds(lo, hi - 1, front[i]);
        }
    }
}

/// The characters of ranges that are in ascending order are listed in
/// ascending order.
pub proof fn enumerate_ascends(ranges: Seq<(char, char)>)
    requires
        ordered(ranges),
    ensures
        ascending(enumerate(ranges)),
    decreases ranges.len(),
{
    if ranges.len() > 0 {
        let front = ranges.drop_last();
        let last = ranges.last();
        assert(ordered(front)) by {
            assert forall|i: int| 0 <= i < front.len() implies (#[trigger] front[i]).0
                <= front[i].1 by {
                assert(front[i] == ranges[i]);
            }
            assert forall|i: int, j: int| 0 <= i < j < front.len() implies (#[trigger] front[i]).1
                < (#[trigger] front[j]).0 by {
                assert(front[i] == ranges[i]);
                assert(front[j] == ranges[j]);
            }
        }
        enumerate_ascends(front);
        chars_between_ascends(last.0 as int, last.1 as int);
        let a = enumerate(front);
        let b = chars_between(last.0 as int, last.1 as int);
        assert forall|i: int, j: int| 0 <= i < a.len() && 0 <= j < b.len() implies a[i]
            < b[j] by {
            enumerate_holds(front, a[i]);
            chars_between_holds(last.0 as int, last.1 as int, b[j]);
            let k = choose|k: int| 0 <= k < front.len() && in_range(#[trigger] front[k], a[i]);
            assert(front[k] == ranges[k]);
            assert(ranges[k].1 < ranges[ranges.len() - 1].0);
        }
        assert(ascending(a + b));
    }
}

/// The missing characters up to a code are in ascending order, and they are
/// the characters up to that code that no range holds.
pub proof fn missing_up_to_holds(ranges: Seq<(char, char)>, hi: int)
    ensures
        ascending(missing_up_to(ranges, hi)),
        forall|c: char| #[trigger]
            missing_up_to(ranges, hi).contains(c) <==> c as int <= hi && !covers(ranges, c),
    decreases hi + 1,
{
    if hi >= 0 {
        missing_up_to_holds(ranges, hi - 1);
        let front = missing_up_to(ranges, hi - 1);
        let all = missing_up_to(ranges, hi);
        assert forall|i: int| 0 <= i < front.len() implies (front[i] as int) < hi by {
            assert(front.contains(front[i]));
        }
        assert forall|c: char| all.contains(c) <==> c as int <= hi && !covers(ranges, c) by {
            char_is_scalar(c);
            if front.contains(c) {
                let i = choose|i: int| 0 <= i < front.len() && front[i] == c;
                assert(all[i] == c);
            }
            if c as int == hi && !covers(ranges, c) {
                assert(all[front.len() as int] == c);
            }
            if all.contains(c) {
                let i = choose|i: int| 0 <= i < all.len() && all[i] == c;
                if i < front.len() {
                    assert(front[i] == c);
                }
            }
        }
    } else {
        assert forall|c: char| !(#[trigger] missing_up_to(ranges, hi).contains(c)) && !(c as int
            <= hi) by {
            char_is_scalar(c);
        }
    }
}

/// Two lists in ascending order that hold the same characters are the same
/// list.
pub proof fn ascending_is_determined(a: Seq<char>, b: Seq<char>)
    requires
        ascending(a),
        ascending(b),
        forall|c: char| a.contains(c) <==> b.contains(c),
    ensures
        a == b,
    decreases a.len(),
{
    if a.len() == 0 {
        if b.len() > 0 {
            assert(b.contains(b[0]));
        }
        assert(a =~= b);
    } else {
        assert(a.contains(a.last()));
        let k = choose|k: int| 0 <= k < b.len() && b[k] == a.last();
        assert(b.contains(b.last()));
        let j = choose|j: int| 0 <= j < a.len() && a[j] == b.last();
        assert(a.last() == b.last());
        let a0 = a.drop_last();
        let b0 = b.drop_last();
        assert forall|c: char| a0.contains(c) <==> b0.contains(c) by {
            if a0.contains(c) {
                let i = choose|i: int| 0 <= i < a0.len() && a0[i] == c;
                assert(a[i] == c);
                assert(a.contains(c));
                let m = choose|m: int| 0 <= m < b.len() && b[m] == c;
                assert(b0[m] == c);
            }
            if b0.contains(c) {
                let i = choose|i: int| 0 <= i < b0.len() && b0[i] == c;
                assert(b[i] == c);
                assert(b.contains(c));
                let m = choose|m: int| 0 <= m < a.len() && a[m] == c;
                assert(a0[m] == c);
            }
        }
        ascending_is_determined(a0, b0);
        assert(a =~= a0.push(a.last()));
        assert(b =~= b0.push(b.last()));
    }
}

/// Ranges in ascending order that hold what `ranges` does not hold list the
/// missing characters of `ranges`.
pub proof fn complement_lists_missing(ranges: Seq<(char, char)>, rest: Seq<(char, char)>)
    requires
        ordered(rest),
        forall|c: char| covers(rest, c) <==> !covers(ranges, c),
    ensures
        enumerate(rest) == missing(ranges),
{
    enumerate_ascends(rest);
    missing_up_to_holds(ranges, 0x10FFFF);
    assert forall|c: char| enumerate(rest).contains(c) <==> missing(ranges).contains(c) by {
        char_is_scalar(c);
        enumerate_holds(rest, c);
    }
    ascending_is_determined(enumerate(rest), missing(ranges));
}

/// `[^`, the characters of `ranges` listed range by range, and `]`; `None`
/// once `[^`, the characters listed so far, and `]` would be more than
/// `MAX_LEN` long.
pub fn enumerate_bounded(ranges: &Vec<(char, char)>) -> (r: Option<String>)
    ensures
        match r {
            Some(s) => bracketed(enumerate(ranges@)) == Some(s@),
            None => bracketed(enumerate(ranges@)) is None,
        },
{
    let mut s = String::from_str("[^");
    let mut len: usize = 2;
    proof {
        reveal_strlit("[^");
        assert(s@ =~= "[^"@ + enumerate(ranges@.take(0)));
    }
    let mut i: usize = 0;
    while i < ranges.len()
        invariant
            i <= ranges.len(),
            len < MAX_LEN,
            len == 2 + enumerate(ranges@.take(i as int)).len(),
            s@ == "[^"@ + enumerate(ranges@.take(i as int)),
        decreases ranges.len() - i,
    {
        let first: char = ranges[i].0;
        let last: char = ranges[i].1;
        let lo: u32 = code_of(first);
        let hi: u32 = code_of(last);
        let ghost before = enumerate(ranges@.take(i as int));
        proof {
            assert(ranges@.take(i + 1).drop_last() =~= ranges@.take(i as int));
            assert(ranges@.take(i + 1).last() == ranges@[i as int]);
        }
        let mut code: u32 = lo;
        while code <= hi
            invariant
                i < ranges.len(),
                ranges@.take(i + 1).last() == (first, last),
                before == enumerate(ranges@.take(i as int)),
                ranges@.take(i + 1).drop_last() == ranges@.take(i as int),
                lo == first as int,
                hi == last as int,
                lo <= code,
                lo <= hi ==> code <= hi + 1,
                hi < lo ==> code == lo,
                len < MAX_LEN,
                len == 2 + before.len() + chars_between(lo as int, code - 1).len(),
                s@ == "[^"@ + before + chars_between(lo as int, code - 1),
            decreases hi + 1 - code,
        {
            match char::from_u32(code) {
                Some(c) => {
                    s.push(c);
                    len += 1;
                    proof {
                        assert(s@ =~= "[^"@ + before + chars_between(lo as int, code as int));
                    }
                    if len + 1 > MAX_LEN {
                        proof {
                            chars_between_grows(lo as int, code as int, hi as int);
                            enumerate_grows(ranges@, i + 1);
                            assert(enumerate(ranges@.take(i + 1)).len() == before.len()
                                + chars_between(lo as int, hi as int).len());
                        }
                        return None;
                    }
                },
                None => {},
            }
            code += 1;
        }
        proof {
            assert(chars_between(lo as int, code - 1) =~= chars_between(lo as int, hi as int));
            assert(s@ =~= "[^"@ + enumerate(ranges@.take(i + 1)));
        }
        i += 1;
    }
    assert(ranges@.take(i as int) =~= ranges@);
    s.append("]");
    Some(s)
}

/// The set of missing characters that stands for `class`: `[^`, the
/// characters that `class` does not hold in ascending order, and `]`. `None`
/// where that is more than `MAX_LEN` long.
pub fn is_everything_except(class: &Vec<(char, char)>) -> (r: Option<String>)
    ensures
        match r {
            Some(s) => everything_except(class@) == Some(s@),
            None => everything_except(class@) is None,
        },
{
    let rest = complement(class);
    proof {
        complement_lists_missing(class@, rest@);
    }
    enumerate_bounded(&rest)
}

} // verus!
