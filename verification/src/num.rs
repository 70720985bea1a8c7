//! Decimal number tokens read as seconds and brought to whole
//! milliseconds.
//!
//! Payload numbers mean seconds, while the library counts time in
//! integer milliseconds. A token here is an optional minus sign, one or
//! more digits, and an optional fraction of one or more digits: the form
//! the JSON layer prints for every number of ordinary magnitude. The
//! value is truncated to whole milliseconds; a negative value other than
//! zero has no place on a clock and is rejected, as is a value that does
//! not fit in `u64` milliseconds, and a token in any other shape.

use crate::ascii::{
    all_digits, digits_value, is_digit, lemma_digits_value_zero, parse_digits_u64,
};
use vstd::prelude::*;

verus! {

/// Index of the first `.` in `s`, or `s.len()` if there is none.
pub open spec fn first_dot(s: Seq<u8>) -> nat
    decreases s.len(),
{
    if s.len() == 0 {
        0
    } else if s[0] == 46 {
        0
    } else {
        1 + first_dot(s.drop_first())
    }
}

proof fn lemma_first_dot_scan(s: Seq<u8>, k: nat)
    requires
        k <= s.len(),
        forall|j: int| 0 <= j < k ==> s[j] != 46,
        k < s.len() ==> s[k as int] == 46,
    ensures
        first_dot(s) == k,
    decreases s.len(),
{
    if s.len() == 0 {
    } else if s[0] == 46 {
    } else {
        assert(forall|j: int| 0 <= j < k - 1 ==> s.drop_first()[j] == s[j + 1]);
        if k < s.len() {
            assert(s.drop_first()[k - 1] == s[k as int]);
        }
        lemma_first_dot_scan(s.drop_first(), (k - 1) as nat);
    }
}

pub open spec fn zeros(k: nat) -> Seq<u8> {
    Seq::new(k, |i: int| 48u8)
}

/// The digit string after shifting the value by three decimal places: a
/// fraction of up to three digits is padded with zeros, a longer one is
/// cut after its third digit.
pub open spec fn shifted_digits(int_part: Seq<u8>, frac: Seq<u8>) -> Seq<u8> {
    if frac.len() <= 3 {
        int_part + frac + zeros((3 - frac.len()) as nat)
    } else {
        (int_part + frac).take(int_part.len() as int + 3)
    }
}

/// What a number token is worth in whole milliseconds, or nothing where
/// the token is ill-shaped, negative and non-zero, or too large.
pub open spec fn spec_millis_of_token(t: Seq<u8>) -> Option<u64> {
    let neg = t.len() > 0 && t[0] == 45;
    let m = if neg {
        t.drop_first()
    } else {
        t
    };
    let dot = first_dot(m);
    let int_part = m.take(dot as int);
    let frac = if dot < m.len() {
        m.skip(dot as int + 1)
    } else {
        Seq::empty()
    };
    if int_part.len() == 0 || !all_digits(int_part) || (dot < m.len() && (frac.len() == 0
        || !all_digits(frac))) {
        None
    } else if neg {
        if digits_value(int_part + frac) == 0 {
            Some(0u64)
        } else {
            None
        }
    } else {
        let v = digits_value(shifted_digits(int_part, frac));
        if v > u64::MAX {
            None
        } else {
            Some(v as u64)
        }
    }
}

/// Whether every byte is the digit `0`.
fn all_zeros(v: &[u8]) -> (r: bool)
    ensures
        r == (forall|k: int| 0 <= k < v@.len() ==> v@[k] == 48),
{
    let mut i: usize = 0;
    while i < v.len()
        invariant
            i <= v@.len(),
            forall|k: int| 0 <= k < i ==> v@[k] == 48,
        decreases v@.len() - i,
    {
        if v[i] != 48 {
            return false;
        }
        i = i + 1;
    }
    true
}

/// Read a number token as seconds, truncated to whole milliseconds.
#[verifier::loop_isolation(false)]
#[verifier::rlimit(30)]
pub fn millis_from_number_token(t: &[u8]) -> (r: Option<u64>)
    ensures
        r == spec_millis_of_token(t@),
{
    let neg = t.len() > 0 && t[0] == 45;
    let start: usize = if neg {
        1
    } else {
        0
    };
    let ghost m = if neg {
        t@.drop_first()
    } else {
        t@
    };
    proof {
        assert(m.len() == t@.len() - start);
        assert(forall|j: int| 0 <= j < m.len() ==> m[j] == t@[j + start]);
    }
    let mut dot: usize = start;
    while dot < t.len() && t[dot] != 46
        invariant
            start <= dot <= t@.len(),
            forall|j: int| start <= j < dot ==> t@[j] != 46,
        decreases t@.len() - dot,
    {
        dot = dot + 1;
    }
    proof {
        lemma_first_dot_scan(m, (dot - start) as nat);
    }
    let ghost int_part = m.take(dot - start);
    let ghost frac = if dot < t.len() {
        m.skip(dot - start + 1)
    } else {
        Seq::<u8>::empty()
    };
    if dot == start {
        proof {
            assert(int_part.len() == 0);
        }
        return None;
    }
    // Collect every digit of the token: the integer part, then the
    // whole fraction.
    let mut digits: Vec<u8> = Vec::new();
    let mut i: usize = start;
    proof {
        assert(digits@ =~= int_part.take(0));
    }
    while i < dot
        invariant
            start <= i <= dot,
            digits@ =~= int_part.take(i - start),
            all_digits(int_part.take(i - start)),
        decreases dot - i,
    {
        let b = t[i];
        proof {
            assert(int_part[i - start] == b);
        }
        if b < 48 || b > 57 {
            return None;
        }
        digits.push(b);
        proof {
            assert(int_part.take(i + 1 - start) =~= int_part.take(i - start).push(b));
        }
        i = i + 1;
    }
    proof {
        assert(int_part.take(dot - start) =~= int_part);
        assert(all_digits(int_part));
    }
    let int_len = digits.len();
    let mut frac_len: usize = 0;
    if dot < t.len() {
        if dot + 1 == t.len() {
            proof {
                assert(frac.len() == 0);
            }
            return None;
        }
        let mut j = dot + 1;
        proof {
            assert(frac.take(0) =~= Seq::<u8>::empty());
        }
        while j < t.len()
            invariant
                dot + 1 <= j <= t@.len(),
                frac_len == j - dot - 1,
                digits@ =~= int_part + frac.take(frac_len as int),
                all_digits(frac.take(frac_len as int)),
            decreases t@.len() - j,
        {
            let b = t[j];
            proof {
                assert(frac[j - dot - 1] == b);
            }
            if b < 48 || b > 57 {
                return None;
            }
            digits.push(b);
            proof {
                assert(frac.take(frac_len + 1) =~= frac.take(frac_len as int).push(b));
            }
            frac_len = frac_len + 1;
            j = j + 1;
        }
        proof {
            assert(frac.take(frac_len as int) =~= frac);
        }
    }
    proof {
        assert(all_digits(frac));
        assert(digits@ =~= int_part + frac);
    }
    if neg {
        proof {
            assert(all_digits(int_part + frac));
            lemma_digits_value_zero(int_part + frac);
        }
        if all_zeros(digits.as_slice()) {
            return Some(0);
        } else {
            return None;
        }
    }
    // Shift by three decimal places: cut the fraction after its third
    // digit, or pad it with zeros up to three.
    if frac_len > 3 {
        digits.truncate(int_len + 3);
        proof {
            assert(digits@ =~= (int_part + frac).take(int_part.len() as int + 3));
            assert(digits@ =~= shifted_digits(int_part, frac));
        }
    } else {
        let mut pad: usize = frac_len;
        proof {
            assert(zeros(0) =~= Seq::<u8>::empty());
            assert(digits@ =~= int_part + frac + zeros((pad - frac_len) as nat));
        }
        while pad < 3
            invariant
                frac_len <= pad <= 3,
                digits@ =~= int_part + frac + zeros((pad - frac_len) as nat),
            decreases 3 - pad,
        {
            digits.push(48);
            proof {
                assert(zeros((pad + 1 - frac_len) as nat) =~= zeros((pad - frac_len) as nat).push(
                    48u8,
                ));
                assert((int_part + frac + zeros((pad - frac_len) as nat)).push(48u8) =~= int_part
                    + frac + zeros((pad + 1 - frac_len) as nat));
            }
            pad = pad + 1;
        }
        proof {
            assert(digits@ =~= shifted_digits(int_part, frac));
        }
    }
    proof {
        assert(all_digits(digits@)) by {
            assert(forall|k: int|
                0 <= k < digits@.len() ==> is_digit(#[trigger] shifted_digits(int_part, frac)[k]));
        }
        assert(digits@.len() > 0);
    }
    parse_digits_u64(digits.as_slice())
}

} // verus!
