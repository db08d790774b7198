//! Character-level helpers: appending to a string and writing an integer
//! in decimal.

use vstd::prelude::*;
use vstd::std_specs::iter::IteratorSpec;

verus! {

/// Appends one character to a string.
///
/// Trusted: `String::push` of the standard library appends exactly `c`
/// to the end of the string and leaves the rest unchanged.
#[verifier::external_body]
pub(crate) fn push_char(s: &mut String, c: char)
    ensures
        final(s)@ == old(s)@.push(c),
{
    s.push(c);
}

/// The decimal digit for a value from 0 to 9.
pub open spec fn digit_char(d: int) -> char {
    if d == 0 {
        '0'
    } else if d == 1 {
        '1'
    } else if d == 2 {
        '2'
    } else if d == 3 {
        '3'
    } else if d == 4 {
        '4'
    } else if d == 5 {
        '5'
    } else if d == 6 {
        '6'
    } else if d == 7 {
        '7'
    } else if d == 8 {
        '8'
    } else {
        '9'
    }
}

/// The decimal digits of a natural number, most significant first, without
/// leading zeros; zero is written `0`.
pub open spec fn nat_decimal(n: nat) -> Seq<char>
    decreases n,
{
    if n < 10 {
        seq![digit_char(n as int)]
    } else {
        nat_decimal(n / 10).push(digit_char((n % 10) as int))
    }
}

/// The decimal form of an integer: a minus sign for a negative number,
/// then the digits of its magnitude.
pub open spec fn decimal(n: int) -> Seq<char> {
    if n < 0 {
        seq!['-'] + nat_decimal((-n) as nat)
    } else {
        nat_decimal(n as nat)
    }
}

fn digit_of(d: u64) -> (c: char)
    requires
        d < 10,
    ensures
        c == digit_char(d as int),
{
    if d == 0 {
        '0'
    } else if d == 1 {
        '1'
    } else if d == 2 {
        '2'
    } else if d == 3 {
        '3'
    } else if d == 4 {
        '4'
    } else if d == 5 {
        '5'
    } else if d == 6 {
        '6'
    } else if d == 7 {
        '7'
    } else if d == 8 {
        '8'
    } else {
        '9'
    }
}

/// Appends the decimal form of `n` to `out`.
pub fn push_decimal(out: &mut String, n: i64)
    ensures
        final(out)@ == old(out)@ + decimal(n as int),
{
    let ghost start = out@;
    let magnitude: u64 = if n < 0 {
        push_char(out, '-');
        (-(n + 1)) as u64 + 1
    } else {
        n as u64
    };
    let ghost prefix = out@;
    // The digits are produced from the least significant one upwards.
    let mut reversed: Vec<char> = Vec::new();
    let mut rest: u64 = magnitude;
    while rest >= 10
        invariant
            nat_decimal(magnitude as nat) == nat_decimal(rest as nat) + reversed@.reverse(),
        decreases rest,
    {
        let c = digit_of(rest % 10);
        proof {
            let shorter = nat_decimal((rest / 10) as nat);
            assert(nat_decimal(rest as nat) == shorter.push(c));
            assert(reversed@.push(c).reverse() == seq![c] + reversed@.reverse());
            assert(shorter.push(c) + reversed@.reverse() == shorter + (seq![c]
                + reversed@.reverse()));
        }
        reversed.push(c);
        rest = rest / 10;
    }
    let c = digit_of(rest);
    proof {
        assert(reversed@.push(c).reverse() == seq![c] + reversed@.reverse());
    }
    reversed.push(c);
    let mut i: usize = reversed.len();
    while i > 0
        invariant
            i <= reversed.len(),
            out@ == prefix + reversed@.reverse().take(reversed.len() - i),
        decreases i,
    {
        i -= 1;
        proof {
            let digits = reversed@.reverse();
            let k = reversed.len() - i - 1;
            assert(digits.take(k + 1) == digits.take(k).push(reversed@[i as int]));
        }
        push_char(out, reversed[i]);
    }
    proof {
        let digits = reversed@.reverse();
        assert(digits.take(digits.len() as int) == digits);
        assert(digits == nat_decimal(magnitude as nat));
        if n < 0 {
            assert(prefix == start.push('-'));
            assert(start.push('-') + digits == start + (seq!['-'] + digits));
        }
    }
}

/// The decimal form of `n` as a string.
pub fn decimal_string(n: i64) -> (r: String)
    ensures
        r@ == decimal(n as int),
{
    let mut out = String::new();
    push_decimal(&mut out, n);
    assert(Seq::<char>::empty() + decimal(n as int) == decimal(n as int));
    out
}

/// Whether two strings hold the same characters.
pub fn str_eq(a: &str, b: &str) -> (r: bool)
    ensures
        r == (a@ == b@),
{
    broadcast use vstd::string::group_string_axioms;

    let mut left = a.chars();
    let mut right = b.chars();
    let ghost mut k: int = 0;
    loop
        invariant
            0 <= k <= a@.len(),
            k <= b@.len(),
            left.remaining() == a@.skip(k),
            right.remaining() == b@.skip(k),
            a@.take(k) == b@.take(k),
            left.obeys_prophetic_iter_laws(),
            right.obeys_prophetic_iter_laws(),
        decreases a@.len() - k,
    {
        let x = left.next();
        let y = right.next();
        match (x, y) {
            (None, None) => {
                proof {
                    assert(a@.take(k) == a@);
                    assert(b@.take(k) == b@);
                }
                return true;
            },
            (Some(c), Some(d)) => {
                if c != d {
                    proof {
                        assert(a@[k] == c);
                        assert(b@[k] == d);
                    }
                    return false;
                }
                proof {
                    assert(a@.take(k + 1) == a@.take(k).push(c));
                    assert(b@.take(k + 1) == b@.take(k).push(d));
                    assert(a@.skip(k).drop_first() == a@.skip(k + 1));
                    assert(b@.skip(k).drop_first() == b@.skip(k + 1));
                    k = k + 1;
                }
            },
            _ => {
                return false;
            },
        }
    }
}

} // verus!
