//! Byte-level primitives of the Bencode format as used by HTTP tracker
//! responses: byte strings `<len>:<bytes>`, integers `i<digits>e`, and a
//! skipper for whole values (needed to pass over unrecognized dictionary
//! keys).
//!
//! The recursive definitions over nested lists and dictionaries carry an
//! explicit fuel bound; callers pass one more than the number of remaining
//! bytes, which a well-formed value can never exhaust, since every recursion
//! step consumes at least one byte.

use vstd::prelude::*;
use crate::ascii::{ZERO, NINE, COLON, MINUS, LC_I, LC_E, LC_L, LC_D};

verus! {

/// An ASCII decimal digit.
pub open spec fn is_digit(b: u8) -> bool {
    ZERO <= b && b <= NINE
}

/// The first position at or after `i` that does not hold a digit.
pub open spec fn digits_end(s: Seq<u8>, i: int) -> int
    decreases s.len() - i,
{
    if 0 <= i && i < s.len() && is_digit(s[i]) {
        digits_end(s, i + 1)
    } else {
        i
    }
}

/// The value of the digit run `s[i..j)` read as a decimal number.
pub open spec fn dec_val(s: Seq<u8>, i: int, j: int) -> int
    decreases j - i,
{
    if i < j {
        dec_val(s, i, j - 1) * 10 + (s[j - 1] - ZERO)
    } else {
        0
    }
}

/// A digit run's value is never negative.
pub proof fn lemma_dec_val_nonneg(s: Seq<u8>, i: int, j: int)
    requires
        i <= j,
        forall|m: int| i <= m < j ==> is_digit(#[trigger] s[m]),
    ensures
        0 <= dec_val(s, i, j),
    decreases j - i,
{
    if i < j {
        lemma_dec_val_nonneg(s, i, j - 1);
    }
}

/// Reading one more digit never makes the value smaller.
pub proof fn lemma_dec_val_monotone(s: Seq<u8>, i: int, j: int, k: int)
    requires
        i <= j <= k,
        forall|m: int| i <= m < k ==> is_digit(#[trigger] s[m]),
    ensures
        0 <= dec_val(s, i, j) <= dec_val(s, i, k),
    decreases k - j,
{
    lemma_dec_val_nonneg(s, i, j);
    if j < k {
        lemma_dec_val_monotone(s, i, j, k - 1);
        lemma_dec_val_nonneg(s, i, k - 1);
    }
}

/// The value of a digit run depends on the bytes alone, wherever they sit.
pub proof fn lemma_dec_val_congruent(s1: Seq<u8>, i1: int, s2: Seq<u8>, i2: int, m: int)
    requires
        0 <= m,
        forall|k: int| 0 <= k < m ==> s1[i1 + k] == #[trigger] s2[i2 + k],
    ensures
        dec_val(s1, i1, i1 + m) == dec_val(s2, i2, i2 + m),
    decreases m,
{
    if m > 0 {
        lemma_dec_val_congruent(s1, i1, s2, i2, m - 1);
        assert(s1[i1 + (m - 1)] == s2[i2 + (m - 1)]);
    }
}

/// The digit scan stops exactly at the first non-digit.
pub proof fn lemma_digits_end_at(s: Seq<u8>, i: int, j: int)
    requires
        0 <= i <= j <= s.len(),
        forall|m: int| i <= m < j ==> is_digit(#[trigger] s[m]),
        j == s.len() || !is_digit(s[j]),
    ensures
        digits_end(s, i) == j,
    decreases j - i,
{
    if i < j {
        lemma_digits_end_at(s, i + 1, j);
    }
}

/// The bounds of a byte string `<len>:<bytes>` starting at `i`: the content's
/// start and end position, or nothing if the text there is not a byte string.
pub open spec fn bstr_bounds(s: Seq<u8>, i: int) -> Option<(int, int)> {
    let j = digits_end(s, i);
    if j == i || j >= s.len() || s[j] != COLON {
        None
    } else {
        let n = dec_val(s, i, j);
        if j + 1 + n > s.len() {
            None
        } else {
            Some((j + 1, j + 1 + n))
        }
    }
}

/// The position after a bencode integer `i<digits>e` (with an optional minus
/// sign) starting at `i`, or nothing if the text there is not one. Used when
/// skipping values, so no range restriction applies.
pub open spec fn int_end(s: Seq<u8>, i: int) -> Option<int> {
    if !(0 <= i && i < s.len() && s[i] == LC_I) {
        None
    } else {
        let d0 = if i + 1 < s.len() && s[i + 1] == MINUS {
            i + 2
        } else {
            i + 1
        };
        let j = digits_end(s, d0);
        if j == d0 || j >= s.len() || s[j] != LC_E {
            None
        } else {
            Some(j + 1)
        }
    }
}

/// The value and end of a nonnegative bencode integer `i<digits>e` starting
/// at `i`. Values above `i64::MAX` and negative values are rejected, as are
/// the fields that carry them.
pub open spec fn uint_value(s: Seq<u8>, i: int) -> Option<(int, int)> {
    if !(0 <= i && i < s.len() && s[i] == LC_I) {
        None
    } else {
        let j = digits_end(s, i + 1);
        if j == i + 1 || j >= s.len() || s[j] != LC_E {
            None
        } else {
            let n = dec_val(s, i + 1, j);
            if n > i64::MAX {
                None
            } else {
                Some((n, j + 1))
            }
        }
    }
}

/// The position after the whole bencode value starting at `i`: a byte
/// string, an integer, or a list or dictionary of further values.
pub open spec fn value_end(s: Seq<u8>, i: int, fuel: nat) -> Option<int>
    decreases fuel,
{
    if fuel == 0 {
        None
    } else if !(0 <= i && i < s.len()) {
        None
    } else if is_digit(s[i]) {
        match bstr_bounds(s, i) {
            Some((_cs, ce)) => Some(ce),
            None => None,
        }
    } else if s[i] == LC_I {
        int_end(s, i)
    } else if s[i] == LC_L || s[i] == LC_D {
        items_end(s, i + 1, (fuel - 1) as nat)
    } else {
        None
    }
}

/// The position after the closing `e` of a run of bencode values starting at
/// `i`, as inside a list or dictionary.
pub open spec fn items_end(s: Seq<u8>, i: int, fuel: nat) -> Option<int>
    decreases fuel,
{
    if fuel == 0 {
        None
    } else if !(0 <= i && i < s.len()) {
        None
    } else if s[i] == LC_E {
        Some(i + 1)
    } else {
        match value_end(s, i, (fuel - 1) as nat) {
            Some(j) => items_end(s, j, (fuel - 1) as nat),
            None => None,
        }
    }
}

/// Scans the digit run starting at `i`.
pub fn scan_digits(v: &Vec<u8>, i: usize) -> (j: usize)
    requires
        i <= v@.len(),
    ensures
        j == digits_end(v@, i as int),
        i <= j <= v@.len(),
        forall|m: int| i <= m < j ==> is_digit(#[trigger] v@[m]),
{
    let mut j = i;
    while j < v.len() && v[j] >= ZERO && v[j] <= NINE
        invariant
            i <= j <= v@.len(),
            digits_end(v@, i as int) == digits_end(v@, j as int),
            forall|m: int| i <= m < j ==> is_digit(#[trigger] v@[m]),
        decreases v@.len() - j,
    {
        j = j + 1;
    }
    j
}

/// Reads the value of the digit run `v[i..j)`, or reports that it exceeds
/// `cap`. Saturation is sound because appending digits never shrinks the
/// value.
pub fn digits_value_capped(v: &Vec<u8>, i: usize, j: usize, cap: u64) -> (r: Option<u64>)
    requires
        i <= j <= v@.len(),
        forall|m: int| i <= m < j ==> is_digit(#[trigger] v@[m]),
    ensures
        match r {
            Some(n) => n == dec_val(v@, i as int, j as int) && n <= cap,
            None => dec_val(v@, i as int, j as int) > cap,
        },
{
    let mut k = i;
    let mut val: u128 = 0;
    while k < j
        invariant
            i <= k <= j <= v@.len(),
            forall|m: int| i <= m < j ==> is_digit(#[trigger] v@[m]),
            val == dec_val(v@, i as int, k as int),
            val <= cap,
            cap <= u64::MAX,
        decreases j - k,
    {
        proof {
            lemma_dec_val_monotone(v@, i as int, k as int, k + 1 as int);
        }
        let d = (v[k] - ZERO) as u128;
        let next = val * 10 + d;
        if next > cap as u128 {
            proof {
                lemma_dec_val_monotone(v@, i as int, k + 1 as int, j as int);
            }
            return None;
        }
        val = next;
        k = k + 1;
    }
    Some(val as u64)
}

/// Finds the bounds of the byte string starting at `i`, as `bstr_bounds`
/// describes them.
pub fn read_bstr_bounds(v: &Vec<u8>, i: usize) -> (r: Option<(usize, usize)>)
    requires
        i <= v@.len(),
    ensures
        match r {
            Some((cs, ce)) => bstr_bounds(v@, i as int) == Some((cs as int, ce as int)) && i < cs
                <= ce <= v@.len(),
            None => bstr_bounds(v@, i as int) is None,
        },
{
    let j = scan_digits(v, i);
    if j == i || j >= v.len() || v[j] != COLON {
        return None;
    }
    match digits_value_capped(v, i, j, (v.len() - j - 1) as u64) {
        None => None,
        Some(n) => Some((j + 1, j + 1 + (n as usize))),
    }
}

/// Finds the end of the integer starting at `i`, as `int_end` describes it.
pub fn read_int_end(v: &Vec<u8>, i: usize) -> (r: Option<usize>)
    requires
        i <= v@.len(),
    ensures
        match r {
            Some(j) => int_end(v@, i as int) == Some(j as int) && i < j <= v@.len(),
            None => int_end(v@, i as int) is None,
        },
{
    if i >= v.len() || v[i] != LC_I {
        return None;
    }
    let d0 = if i + 1 < v.len() && v[i + 1] == MINUS {
        i + 2
    } else {
        i + 1
    };
    if d0 > v.len() {
        return None;
    }
    let j = scan_digits(v, d0);
    if j == d0 || j >= v.len() || v[j] != LC_E {
        return None;
    }
    Some(j + 1)
}

/// Reads the nonnegative integer starting at `i`, as `uint_value` describes
/// it.
pub fn read_uint(v: &Vec<u8>, i: usize) -> (r: Option<(u64, usize)>)
    requires
        i <= v@.len(),
    ensures
        match r {
            Some((n, j)) => uint_value(v@, i as int) == Some((n as int, j as int)) && i < j
                <= v@.len() && n <= i64::MAX,
            None => uint_value(v@, i as int) is None,
        },
{
    if i >= v.len() || v[i] != LC_I {
        return None;
    }
    let j = scan_digits(v, i + 1);
    if j == i + 1 || j >= v.len() || v[j] != LC_E {
        return None;
    }
    match digits_value_capped(v, i + 1, j, i64::MAX as u64) {
        None => None,
        Some(n) => Some((n, j + 1)),
    }
}

/// Skips the whole bencode value starting at `i`, as `value_end` describes
/// it.
pub fn skip_value(v: &Vec<u8>, i: usize, fuel: usize) -> (r: Option<usize>)
    requires
        i <= v@.len(),
    ensures
        match r {
            Some(j) => value_end(v@, i as int, fuel as nat) == Some(j as int) && i < j <= v@.len(),
            None => value_end(v@, i as int, fuel as nat) is None,
        },
    decreases fuel,
{
    if fuel == 0 || i >= v.len() {
        return None;
    }
    let b = v[i];
    if b >= ZERO && b <= NINE {
        match read_bstr_bounds(v, i) {
            Some((_cs, ce)) => Some(ce),
            None => None,
        }
    } else if b == LC_I {
        read_int_end(v, i)
    } else if b == LC_L || b == LC_D {
        skip_items(v, i + 1, fuel - 1)
    } else {
        None
    }
}

/// Skips values up to and over the closing `e`, as `items_end` describes it.
pub fn skip_items(v: &Vec<u8>, i: usize, fuel: usize) -> (r: Option<usize>)
    requires
        i <= v@.len() + 1,
    ensures
        match r {
            Some(j) => items_end(v@, i as int, fuel as nat) == Some(j as int) && i < j <= v@.len(),
            None => items_end(v@, i as int, fuel as nat) is None,
        },
    decreases fuel,
{
    if fuel == 0 || i >= v.len() {
        return None;
    }
    if v[i] == LC_E {
        return Some(i + 1);
    }
    match skip_value(v, i, fuel - 1) {
        Some(j) => skip_items(v, j, fuel - 1),
        None => None,
    }
}

} // verus!
