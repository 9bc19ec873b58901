//! Text building blocks shared by the client and the decoder: the trusted
//! contracts for three std operations that vstd leaves unspecified, a
//! verified decimal formatter, and a verified string-to-characters
//! conversion.

use vstd::prelude::*;
use vstd::std_specs::iter::IteratorSpec;

verus! {

/// Relies on `String::push_str`: appends the given string slice onto the end
/// of this `String`.
#[verifier::external_body]
pub(crate) fn push_str(out: &mut String, part: &str)
    ensures
        final(out)@ == old(out)@ + part@,
{
    out.push_str(part)
}

/// Relies on `String::push`: appends the given `char` to the end of this
/// `String`.
#[verifier::external_body]
pub(crate) fn push_char(out: &mut String, c: char)
    ensures
        final(out)@ == old(out)@.push(c),
{
    out.push(c)
}

/// Whether `v` is a Unicode scalar value: a code point outside the surrogate
/// range.
pub open spec fn is_scalar_value(v: u32) -> bool {
    v < 0xD800 || (0xE000 <= v && v <= 0x10FFFF)
}

/// Relies on `char::from_u32`: converts the `u32` to a `char`, and returns
/// `None` exactly when the value is a surrogate or lies above the Unicode
/// range.
#[verifier::external_body]
pub(crate) fn char_from_u32(v: u32) -> (r: Option<char>)
    ensures
        match r {
            Some(c) => c as u32 == v && is_scalar_value(v),
            None => !is_scalar_value(v),
        },
{
    char::from_u32(v)
}

/// The character for the decimal digit `d % 10`.
pub open spec fn digit_char(d: nat) -> char {
    ((48 + (d % 10)) as u8) as char
}

/// The decimal numeral of `n`, most significant digit first, with no sign
/// and no leading zero (`0` itself is the single digit `0`).
pub open spec fn sp_dec(n: nat) -> Seq<char>
    decreases n,
{
    if n < 10 {
        seq![digit_char(n)]
    } else {
        sp_dec(n / 10).push(digit_char(n % 10))
    }
}

/// Append the decimal numeral of `n`.
pub(crate) fn push_decimal(out: &mut String, n: u64)
    ensures
        final(out)@ == old(out)@ + sp_dec(n as nat),
    decreases n,
{
    if n >= 10 {
        push_decimal(out, n / 10);
    }
    let d: u8 = (n % 10) as u8;
    push_char(out, (48 + d) as char);
    proof {
        assert((48 + d) as char == digit_char(n as nat));
        assert(out@ =~= old(out)@ + sp_dec(n as nat));
    }
}

/// The characters of `s`, in order.
pub(crate) fn str_chars(s: &str) -> (v: Vec<char>)
    ensures
        v@ == s@,
{
    let mut it = s.chars();
    let mut v: Vec<char> = Vec::new();
    loop
        invariant
            it.obeys_prophetic_iter_laws(),
            it.decrease() is Some,
            v@ + it.remaining() == s@,
        decreases it.decrease()->0,
    {
        match it.next() {
            Some(c) => {
                v.push(c);
            },
            None => {
                proof {
                    assert(v@ =~= s@);
                }
                return v;
            },
        }
    }
}

} // verus!
