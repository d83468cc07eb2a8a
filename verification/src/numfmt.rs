//! Writing numbers as decimal and lowercase hexadecimal digit strings,
//! with the digit sequences defined by recursion on the value.

use vstd::prelude::*;

use crate::strutil::chars_to_string;

verus! {

/// The lowercase digit for `n`, for `0 <= n < 16`.
pub open spec fn digit_char_lower(n: int) -> char {
    if n == 0 {
        '0'
    } else if n == 1 {
        '1'
    } else if n == 2 {
        '2'
    } else if n == 3 {
        '3'
    } else if n == 4 {
        '4'
    } else if n == 5 {
        '5'
    } else if n == 6 {
        '6'
    } else if n == 7 {
        '7'
    } else if n == 8 {
        '8'
    } else if n == 9 {
        '9'
    } else if n == 10 {
        'a'
    } else if n == 11 {
        'b'
    } else if n == 12 {
        'c'
    } else if n == 13 {
        'd'
    } else if n == 14 {
        'e'
    } else {
        'f'
    }
}

/// The decimal digits of `n`, most significant first, no leading zeros
/// (a single `'0'` for zero).
pub open spec fn spec_dec_digits(n: nat) -> Seq<char>
    decreases n,
{
    if n < 10 {
        seq![digit_char_lower(n as int)]
    } else {
        spec_dec_digits(n / 10) + seq![digit_char_lower((n % 10) as int)]
    }
}

/// The lowercase hexadecimal digits of `n`, most significant first, no
/// leading zeros (a single `'0'` for zero).
pub open spec fn spec_hex_digits(n: nat) -> Seq<char>
    decreases n,
{
    if n < 16 {
        seq![digit_char_lower(n as int)]
    } else {
        spec_hex_digits(n / 16) + seq![digit_char_lower((n % 16) as int)]
    }
}

/// The lowercase digit for `n`, executable.
fn digit_char_lower_exec(n: u64) -> (r: char)
    requires
        n < 16,
    ensures
        r == digit_char_lower(n as int),
{
    if n == 0 {
        '0'
    } else if n == 1 {
        '1'
    } else if n == 2 {
        '2'
    } else if n == 3 {
        '3'
    } else if n == 4 {
        '4'
    } else if n == 5 {
        '5'
    } else if n == 6 {
        '6'
    } else if n == 7 {
        '7'
    } else if n == 8 {
        '8'
    } else if n == 9 {
        '9'
    } else if n == 10 {
        'a'
    } else if n == 11 {
        'b'
    } else if n == 12 {
        'c'
    } else if n == 13 {
        'd'
    } else if n == 14 {
        'e'
    } else {
        'f'
    }
}

/// Appends the decimal digits of `n`.
pub fn push_dec_digits(n: u64, out: &mut Vec<char>)
    ensures
        final (out)@ == old(out)@ + spec_dec_digits(n as nat),
    decreases n,
{
    if n < 10 {
        out.push(digit_char_lower_exec(n));
        proof {
            assert(final (out)@ =~= old(out)@ + spec_dec_digits(n as nat));
        }
    } else {
        push_dec_digits(n / 10, out);
        out.push(digit_char_lower_exec(n % 10));
        proof {
            assert(final (out)@ =~= old(out)@ + spec_dec_digits(n as nat));
        }
    }
}

/// Appends the lowercase hexadecimal digits of `n`.
pub fn push_hex_digits(n: u64, out: &mut Vec<char>)
    ensures
        final (out)@ == old(out)@ + spec_hex_digits(n as nat),
    decreases n,
{
    if n < 16 {
        out.push(digit_char_lower_exec(n));
        proof {
            assert(final (out)@ =~= old(out)@ + spec_hex_digits(n as nat));
        }
    } else {
        push_hex_digits(n / 16, out);
        out.push(digit_char_lower_exec(n % 16));
        proof {
            assert(final (out)@ =~= old(out)@ + spec_hex_digits(n as nat));
        }
    }
}

/// `n` written in decimal.
pub fn u64_to_dec_string(n: u64) -> (r: String)
    ensures
        r@ == spec_dec_digits(n as nat),
{
    let mut out: Vec<char> = Vec::new();
    push_dec_digits(n, &mut out);
    proof {
        assert(out@ =~= spec_dec_digits(n as nat));
    }
    chars_to_string(&out)
}

/// `n` written in lowercase hexadecimal.
pub fn u64_to_hex_string(n: u64) -> (r: String)
    ensures
        r@ == spec_hex_digits(n as nat),
{
    let mut out: Vec<char> = Vec::new();
    push_hex_digits(n, &mut out);
    proof {
        assert(out@ =~= spec_hex_digits(n as nat));
    }
    chars_to_string(&out)
}

} // verus!
