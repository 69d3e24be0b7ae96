//! Text building blocks: characters of a string, decimal rendering, padding.
use vstd::prelude::*;

verus! {

/// The character of a decimal digit `d` (0 to 9).
pub open spec fn digit_char(d: int) -> char {
    (d + 48) as char
}

/// The decimal representation of `n`, without leading zeros ("0" for zero).
pub open spec fn decimal(n: nat) -> Seq<char>
    decreases n,
{
    if n < 10 {
        seq![digit_char(n as int)]
    } else {
        decimal(n / 10).push(digit_char((n % 10) as int))
    }
}

/// `n` copies of the character `c`.
pub open spec fn repeat_char(c: char, n: nat) -> Seq<char> {
    Seq::new(n, |i: int| c)
}

/// `s`, right-aligned in a field of `width` characters (filled with `fill`).
pub open spec fn pad_left(s: Seq<char>, width: nat, fill: char) -> Seq<char> {
    if s.len() >= width {
        s
    } else {
        repeat_char(fill, (width - s.len()) as nat) + s
    }
}

/// `s`, left-aligned in a field of `width` characters (filled with spaces).
pub open spec fn pad_right(s: Seq<char>, width: nat) -> Seq<char> {
    if s.len() >= width {
        s
    } else {
        s + repeat_char(' ', (width - s.len()) as nat)
    }
}

/// Appends a character to a string.
///
/// Calls `String::push`, which std documents as appending the character to
/// the end of the string; the contract says exactly that.
#[verifier::external_body]
pub(crate) fn push_char(s: &mut String, c: char)
    ensures
        final(s)@ == old(s)@.push(c),
{
    s.push(c)
}

/// Appends a string slice.
pub fn push_str(s: &mut String, other: &str)
    ensures
        final(s)@ == old(s)@ + other@,
{
    s.append(other);
}

/// The characters of a string slice, in order.
pub fn chars_of(s: &str) -> (r: Vec<char>)
    ensures
        r@ == s@,
{
    let mut r: Vec<char> = Vec::new();
    for c in it: s.chars()
        invariant
            it.seq() == s@,
            r@ == it.seq().take(it.index() as int),
    {
        r.push(c);
        proof {
            assert(it.seq().take(it.index() + 1) =~= r@);
        }
    }
    r
}

/// Appends the decimal representation of `n`.
pub fn push_decimal(s: &mut String, n: u64)
    ensures
        final(s)@ == old(s)@ + decimal(n as nat),
    decreases n,
{
    if n < 10 {
        push_char(s, digit_to_char(n));
    } else {
        push_decimal(s, n / 10);
        push_char(s, digit_to_char(n % 10));
    }
}

/// The character of the decimal digit `d`.
fn digit_to_char(d: u64) -> (c: char)
    requires
        d < 10,
    ensures
        c == digit_char(d as int),
{
    let b: u8 = d as u8 + 48;
    b as char
}

/// The decimal representation of `n`.
pub fn decimal_string(n: u64) -> (r: String)
    ensures
        r@ == decimal(n as nat),
{
    let mut r = String::new();
    push_decimal(&mut r, n);
    r
}

/// Appends `field`, right-aligned in `width` characters, filled with `fill`.
pub fn push_padded_left(s: &mut String, field: &str, width: usize, fill: char)
    ensures
        final(s)@ == old(s)@ + pad_left(field@, width as nat, fill),
{
    let len = field.unicode_len();
    if len < width {
        let mut k: usize = 0;
        while k < width - len
            invariant
                len == field@.len(),
                len < width,
                k <= width - len,
                s@ == old(s)@ + repeat_char(fill, k as nat),
            decreases width - len - k,
        {
            push_char(s, fill);
            proof {
                assert(repeat_char(fill, (k + 1) as nat) =~= repeat_char(fill, k as nat).push(fill));
            }
            k = k + 1;
        }
    }
    push_str(s, field);
    proof {
        assert(s@ =~= old(s)@ + pad_left(field@, width as nat, fill));
    }
}

/// Appends `field`, left-aligned in `width` characters, filled with spaces.
pub fn push_padded_right(s: &mut String, field: &str, width: usize)
    ensures
        final(s)@ == old(s)@ + pad_right(field@, width as nat),
{
    let len = field.unicode_len();
    push_str(s, field);
    if len < width {
        let ghost mid = s@;
        let mut k: usize = 0;
        while k < width - len
            invariant
                len == field@.len(),
                len < width,
                k <= width - len,
                s@ == mid + repeat_char(' ', k as nat),
            decreases width - len - k,
        {
            push_char(s, ' ');
            proof {
                assert(repeat_char(' ', (k + 1) as nat) =~= repeat_char(' ', k as nat).push(' '));
            }
            k = k + 1;
        }
        proof {
            assert(s@ =~= old(s)@ + pad_right(field@, width as nat));
        }
    } else {
        proof {
            assert(s@ =~= old(s)@ + pad_right(field@, width as nat));
        }
    }
}

} // verus!
