//! Building blocks for text: appending characters and writing numbers.

use vstd::prelude::*;

verus! {

/// `String::push` appends the given character to the end of the string.
pub assume_specification[ String::push ](s: &mut String, ch: char)
    ensures
        final(s)@ == old(s)@.push(ch),
;

/// `char::from_u32` gives the character with the given code, and `None` for
/// a surrogate code or a code above U+10FFFF.
pub assume_specification[ char::from_u32 ](i: u32) -> (r: Option<char>)
    ensures
        r == if is_scalar(i as int) { Some(i as char) } else { None::<char> },
;

/// Whether `code` is the code of a character: at most U+10FFFF and not a
/// surrogate.
pub open spec fn is_scalar(code: int) -> bool {
    0 <= code <= 0xD7FF || 0xE000 <= code <= 0x10FFFF
}

/// The code of a character is at most U+10FFFF and no surrogate.
pub proof fn char_is_scalar(c: char)
    ensures
        is_scalar(c as int),
{
}

/// The character that stands for the digit `d` in bases up to sixteen, with
/// upper-case letters from ten on.
pub open spec fn digit_char(d: int) -> char {
    if d < 10 {
        (0x30 + d) as char
    } else {
        (0x41 + d - 10) as char
    }
}

/// The decimal digits of `n`, most significant first.
pub open spec fn decimal(n: nat) -> Seq<char>
    decreases n,
{
    if n < 10 {
        seq![digit_char(n as int)]
    } else {
        decimal(n / 10).push(digit_char((n % 10) as int))
    }
}

/// The hexadecimal digits of `n`, most significant first, in upper case.
pub open spec fn upper_hex(n: nat) -> Seq<char>
    decreases n,
{
    if n < 16 {
        seq![digit_char(n as int)]
    } else {
        upper_hex(n / 16).push(digit_char((n % 16) as int))
    }
}

/// The code of `c`.
pub fn code_of(c: char) -> (code: u32)
    ensures
        code == c as int,
        is_scalar(code as int),
{
    c as u32
}

fn digit(d: u32) -> (c: char)
    requires
        d < 16,
    ensures
        c == digit_char(d as int),
{
    let code: u8 = if d < 10 { 0x30u8 + d as u8 } else { 0x41u8 + (d as u8 - 10u8) };
    code as char
}

/// Appends the decimal digits of `n` to `out`.
pub fn push_decimal(out: &mut String, n: u32)
    ensures
        final(out)@ == old(out)@ + decimal(n as nat),
    decreases n,
{
    if n >= 10 {
        push_decimal(out, n / 10);
    }
    out.push(digit(n % 10));
}

/// Appends the upper-case hexadecimal digits of `n` to `out`.
pub fn push_upper_hex(out: &mut String, n: u32)
    ensures
        final(out)@ == old(out)@ + upper_hex(n as nat),
    decreases n,
{
    if n >= 16 {
        push_upper_hex(out, n / 16);
    }
    out.push(digit(n % 16));
}

} // verus!
