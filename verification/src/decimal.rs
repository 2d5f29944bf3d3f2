//! Decimal rendering of integers as ASCII bytes, used for the announce URL's
//! query values and for dotted-quad addresses.

use vstd::prelude::*;
use crate::ascii::{ZERO, MINUS};
use crate::bencode::{is_digit, dec_val, lemma_dec_val_congruent};

verus! {

/// The ASCII digit for a value in `0..10`.
pub open spec fn dec_digit(d: int) -> u8 {
    (ZERO + d) as u8
}

/// The decimal representation of a nonnegative integer, most significant
/// digit first, with no leading zeros.
pub open spec fn spec_udec(n: int) -> Seq<u8>
    decreases n,
{
    if n < 10 {
        seq![dec_digit(n)]
    } else {
        spec_udec(n / 10).push(dec_digit(n % 10))
    }
}

/// The decimal representation of an integer: a minus sign followed by the
/// magnitude when negative.
pub open spec fn spec_idec(n: int) -> Seq<u8> {
    if n < 0 {
        seq![MINUS] + spec_udec(-n)
    } else {
        spec_udec(n)
    }
}

/// The shape of a decimal rendering: at least one byte, every byte a digit,
/// a leading zero digit only for zero itself, and at most three digits for a
/// number up to 255.
pub proof fn lemma_udec_shape(n: int)
    requires
        0 <= n,
    ensures
        1 <= spec_udec(n).len(),
        forall|m: int| 0 <= m < spec_udec(n).len() ==> is_digit(#[trigger] spec_udec(n)[m]),
        spec_udec(n)[0] == ZERO ==> n == 0,
        n <= 9 ==> spec_udec(n).len() == 1,
        n <= 99 ==> spec_udec(n).len() <= 2,
        n <= 255 ==> spec_udec(n).len() <= 3,
    decreases n,
{
    if n >= 10 {
        lemma_udec_shape(n / 10);
        assert(spec_udec(n)[0] == spec_udec(n / 10)[0]);
    }
}

/// The decimal rendering evaluates back to the number it renders.
pub proof fn lemma_udec_value(n: int)
    requires
        0 <= n,
    ensures
        dec_val(spec_udec(n), 0, spec_udec(n).len() as int) == n,
    decreases n,
{
    let u = spec_udec(n);
    if n < 10 {
        assert(dec_val(u, 0, 1) == dec_val(u, 0, 0) * 10 + (u[0] - ZERO));
    } else {
        lemma_udec_value(n / 10);
        let w = spec_udec(n / 10);
        assert(forall|k: int| 0 <= k < w.len() ==> u[0 + k] == #[trigger] w[0 + k]);
        lemma_dec_val_congruent(u, 0, w, 0, w.len() as int);
        assert(dec_val(u, 0, u.len() as int) == dec_val(u, 0, u.len() - 1) * 10 + (u[u.len() - 1]
            - ZERO));
        assert(n / 10 * 10 + n % 10 == n) by {
            vstd::arithmetic::div_mod::lemma_fundamental_div_mod(n, 10);
        }
    }
}

/// Appends the decimal digits of `n` to `out`.
pub fn push_decimal_u64(out: &mut Vec<u8>, n: u64)
    ensures
        final(out)@ == old(out)@ + spec_udec(n as int),
    decreases n,
{
    if n < 10 {
        out.push(ZERO + (n as u8));
        proof {
            assert(out@ =~= old(out)@ + spec_udec(n as int));
        }
    } else {
        push_decimal_u64(out, n / 10);
        out.push(ZERO + ((n % 10) as u8));
        proof {
            assert(out@ =~= old(out)@ + spec_udec(n as int));
        }
    }
}

/// Appends the decimal digits of `n` to `out`, with a leading minus sign when
/// `n` is negative.
pub fn push_decimal_i32(out: &mut Vec<u8>, n: i32)
    ensures
        final(out)@ == old(out)@ + spec_idec(n as int),
{
    if n < 0 {
        out.push(MINUS);
        let m: u64 = (-(n as i64)) as u64;
        push_decimal_u64(out, m);
        proof {
            assert(out@ =~= old(out)@ + spec_idec(n as int));
        }
    } else {
        push_decimal_u64(out, n as u64);
    }
}

/// The decimal digits of `n` as a byte string.
pub fn u64_decimal(n: u64) -> (r: Vec<u8>)
    ensures
        r@ == spec_udec(n as int),
{
    let mut out: Vec<u8> = Vec::new();
    push_decimal_u64(&mut out, n);
    proof {
        assert(out@ =~= spec_udec(n as int));
    }
    out
}

} // verus!
