//! Quoted literals of the diagram language.
//!
//! A literal stands between single quotes. A quote inside it is escaped with
//! a backslash; a control character, or one from U+FFFF on, is replaced by
//! its code in upper-case hexadecimal between `<` and `>`.

use vstd::prelude::*;
use vstd::string::*;
use crate::text::{push_upper_hex, upper_hex};

verus! {

/// Whether `c` is a control character: U+0000 to U+001F or U+007F to U+009F.
pub open spec fn is_control(c: char) -> bool {
    c as u32 <= 0x1F || 0x7F <= c as u32 <= 0x9F
}

/// Whether `c` is written as its code rather than as itself.
pub open spec fn needs_placeholder(c: char) -> bool {
    is_control(c) || c as u32 >= 0xFFFF
}

/// The code of `c` in upper-case hexadecimal between `<` and `>`.
pub open spec fn placeholder(c: char) -> Seq<char> {
    seq!['<'] + upper_hex(c as nat) + seq!['>']
}

/// What stands for `c` inside a literal. A backslash is doubled only where
/// the literal holds a single character (`lone`).
pub open spec fn escaped(c: char, lone: bool) -> Seq<char> {
    if c == '\'' {
        seq!['\\', '\'']
    } else if lone && c == '\\' {
        seq!['\\', '\\']
    } else if needs_placeholder(c) {
        placeholder(c)
    } else {
        seq![c]
    }
}

/// What stands for the characters of `s` inside a literal, in order.
pub open spec fn escaped_text(s: Seq<char>) -> Seq<char>
    decreases s.len(),
{
    if s.len() == 0 {
        Seq::empty()
    } else {
        escaped_text(s.drop_last()) + escaped(s.last(), false)
    }
}

/// The literal for the single character `c`.
pub open spec fn quoted_char(c: char) -> Seq<char> {
    seq!['\''] + escaped(c, true) + seq!['\'']
}

/// The literal for the string `s`.
pub open spec fn quoted(s: Seq<char>) -> Seq<char> {
    seq!['\''] + escaped_text(s) + seq!['\'']
}

/// Escaping a string that ends in `c` escapes what comes before it and then `c`.
pub proof fn escaped_text_push(s: Seq<char>, c: char)
    ensures
        escaped_text(s.push(c)) == escaped_text(s) + escaped(c, false),
{
    assert(s.push(c).drop_last() =~= s);
}

/// Tells whether `c` is a control character.
pub fn control(c: char) -> (r: bool)
    ensures
        r == is_control(c),
{
    let code: u32 = c as u32;
    code <= 0x1F || (0x7F <= code && code <= 0x9F)
}

/// Appends to `out` what stands for `c` inside a literal.
pub fn push_escaped(out: &mut String, c: char, lone: bool)
    ensures
        final(out)@ == old(out)@ + escaped(c, lone),
{
    if c == '\'' {
        out.push('\\');
        out.push('\'');
    } else if lone && c == '\\' {
        out.push('\\');
        out.push('\\');
    } else if control(c) || c as u32 >= 0xFFFF {
        out.push('<');
        push_upper_hex(out, c as u32);
        out.push('>');
    } else {
        out.push(c);
    }
    assert(out@ =~= old(out)@ + escaped(c, lone));
}

/// Appends to `out` the literal for the single character `c`.
pub fn push_quoted_char(out: &mut String, c: char)
    ensures
        final(out)@ == old(out)@ + quoted_char(c),
{
    out.push('\'');
    push_escaped(out, c, true);
    out.push('\'');
    assert(out@ =~= old(out)@ + quoted_char(c));
}

/// Appends to `out` the literal for the string `s`.
pub fn push_quoted(out: &mut String, s: &str)
    ensures
        final(out)@ == old(out)@ + quoted(s@),
{
    out.push('\'');
    let n = s.unicode_len();
    let mut i: usize = 0;
    while i < n
        invariant
            n == s@.len(),
            i <= n,
            out@ == old(out)@ + seq!['\''] + escaped_text(s@.take(i as int)),
        decreases n - i,
    {
        let c = s.get_char(i);
        proof {
            escaped_text_push(s@.take(i as int), c);
            assert(s@.take(i as int).push(c) =~= s@.take(i + 1));
        }
        push_escaped(out, c, false);
        i += 1;
    }
    out.push('\'');
    assert(s@.take(n as int) =~= s@);
    assert(out@ =~= old(out)@ + quoted(s@));
}

/// The literal for the single character `c`.
pub fn py_char_str(c: char) -> (r: String)
    ensures
        r@ == quoted_char(c),
{
    let mut r = String::new();
    push_quoted_char(&mut r, c);
    assert(r@ =~= quoted_char(c));
    r
}

/// The literal for the string `s`.
pub fn py_str(s: &str) -> (r: String)
    ensures
        r@ == quoted(s@),
{
    let mut r = String::new();
    push_quoted(&mut r, s);
    assert(r@ =~= quoted(s@));
    r
}

} // verus!
