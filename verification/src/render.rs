//! Rendering of unsigned 64-bit numbers as linker-script text:
//! uppercase hexadecimal with a `0x` prefix and no padding, the
//! `{:#X}` convention.

use vstd::prelude::*;
use vstd::string::StringExecFns;

verus! {

/// The uppercase hexadecimal digit for a value below sixteen.
pub open spec fn spec_hex_digit(d: nat) -> char {
    if d == 0 {
        '0'
    } else if d == 1 {
        '1'
    } else if d == 2 {
        '2'
    } else if d == 3 {
        '3'
    } else if d == 4 {
        '4'
    } else if d == 5 {
        '5'
    } else if d == 6 {
        '6'
    } else if d == 7 {
        '7'
    } else if d == 8 {
        '8'
    } else if d == 9 {
        '9'
    } else if d == 10 {
        'A'
    } else if d == 11 {
        'B'
    } else if d == 12 {
        'C'
    } else if d == 13 {
        'D'
    } else if d == 14 {
        'E'
    } else {
        'F'
    }
}

/// The hexadecimal digits of `n`, most significant first, with no
/// leading zeros (a single `'0'` for zero).
pub open spec fn spec_hex_digits(n: nat) -> Seq<char>
    decreases n,
{
    if n < 16 {
        seq![spec_hex_digit(n)]
    } else {
        spec_hex_digits(n / 16).push(spec_hex_digit(n % 16))
    }
}

/// The rendering of `n` as `0x`-prefixed uppercase hexadecimal with
/// no padding.
pub open spec fn spec_hex_text(n: u64) -> Seq<char> {
    "0x"@ + spec_hex_digits(n as nat)
}

/// Relies on `String::push`: appends the given character to the end of
/// the string.
#[verifier::external_body]
pub(crate) fn push_char(s: &mut String, c: char)
    ensures
        final(s)@ == old(s)@.push(c),
{
    s.push(c)
}

/// The uppercase hexadecimal digit character for `d < 16`.
fn hex_digit(d: u64) -> (c: char)
    requires
        d < 16,
    ensures
        c == spec_hex_digit(d as nat),
{
    if d == 0 {
        '0'
    } else if d == 1 {
        '1'
    } else if d == 2 {
        '2'
    } else if d == 3 {
        '3'
    } else if d == 4 {
        '4'
    } else if d == 5 {
        '5'
    } else if d == 6 {
        '6'
    } else if d == 7 {
        '7'
    } else if d == 8 {
        '8'
    } else if d == 9 {
        '9'
    } else if d == 10 {
        'A'
    } else if d == 11 {
        'B'
    } else if d == 12 {
        'C'
    } else if d == 13 {
        'D'
    } else if d == 14 {
        'E'
    } else {
        'F'
    }
}

/// Appends the hexadecimal digits of `n` (no prefix, no padding).
fn push_hex_digits(out: &mut String, n: u64)
    ensures
        final(out)@ == old(out)@ + spec_hex_digits(n as nat),
    decreases n,
{
    if n < 16 {
        push_char(out, hex_digit(n));
        proof {
            assert(out@ =~= old(out)@ + spec_hex_digits(n as nat));
        }
    } else {
        push_hex_digits(out, n / 16);
        push_char(out, hex_digit(n % 16));
        proof {
            assert(out@ =~= old(out)@ + spec_hex_digits(n as nat));
        }
    }
}

/// Renders `n` as `0x`-prefixed uppercase hexadecimal with no
/// padding.
pub fn hex_text(n: u64) -> (r: String)
    ensures
        r@ == spec_hex_text(n),
{
    let mut out = String::from_str("0x");
    push_hex_digits(&mut out, n);
    proof {
        assert(out@ =~= spec_hex_text(n));
    }
    out
}

} // verus!
