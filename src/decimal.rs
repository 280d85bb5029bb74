//! Unsigned decimal numbers written in ASCII.

use vstd::prelude::*;
use vstd::slice::slice_subrange;

verus! {

/// An ASCII digit `0`..`9`.
pub open spec fn is_digit(b: u8) -> bool {
    48 <= b <= 57
}

pub open spec fn all_digits(d: Seq<u8>) -> bool {
    forall|i: int| 0 <= i < d.len() ==> is_digit(#[trigger] d[i])
}

/// The number that a string of digits denotes, most significant digit first.
pub open spec fn digits_value(d: Seq<u8>) -> nat
    decreases d.len(),
{
    if d.len() == 0 {
        0
    } else {
        digits_value(d.drop_last()) * 10 + (d.last() - 48) as nat
    }
}

/// The digits of a numeral, without the `+` sign it may start with.
pub open spec fn unsigned_part(d: Seq<u8>) -> Seq<u8> {
    if d.len() > 0 && d[0] == 43 {
        d.drop_first()
    } else {
        d
    }
}

/// A numeral is an optional `+` followed by one or more digits.
pub open spec fn decimal_value(d: Seq<u8>) -> Option<nat> {
    let e = unsigned_part(d);
    if e.len() > 0 && all_digits(e) {
        Some(digits_value(e))
    } else {
        None
    }
}

/// The `u64` a numeral denotes, when it denotes one that fits.
pub open spec fn u64_of(d: Seq<u8>) -> Option<u64> {
    match decimal_value(d) {
        Some(v) => if v <= u64::MAX {
            Some(v as u64)
        } else {
            None
        },
        None => None,
    }
}

/// Adding digits never makes a numeral smaller.
proof fn lemma_prefix_value_le(d: Seq<u8>, j: int)
    requires
        all_digits(d),
        0 <= j <= d.len(),
    ensures
        digits_value(d.take(j)) <= digits_value(d),
    decreases d.len(),
{
    if j < d.len() {
        let p = d.drop_last();
        assert(all_digits(p)) by {
            assert forall|i: int| 0 <= i < p.len() implies is_digit(#[trigger] p[i]) by {
                assert(p[i] == d[i]);
            }
        }
        lemma_prefix_value_le(p, j);
        assert(p.take(j) =~= d.take(j));
    } else {
        assert(d.take(j) =~= d);
    }
}

/// Reads a numeral: an optional `+` and then digits only, as `str::parse::<u64>` accepts.
pub fn parse_decimal(d: &[u8]) -> (r: Option<u64>)
    ensures
        r == u64_of(d@),
{
    let e = if d.len() > 0 && d[0] == 43 {
        slice_subrange(d, 1, d.len())
    } else {
        d
    };
    assert(e@ =~= unsigned_part(d@));
    if e.len() == 0 {
        return None;
    }
    let mut v: u64 = 0;
    let mut i: usize = 0;
    while i < e.len()
        invariant
            e@ == unsigned_part(d@),
            e@.len() > 0,
            i <= e@.len(),
            all_digits(e@.take(i as int)),
            v as nat == digits_value(e@.take(i as int)),
        decreases e@.len() - i,
    {
        let c = e[i];
        if !(48 <= c && c <= 57) {
            assert(!all_digits(e@)) by {
                assert(!is_digit(e@[i as int]));
            }
            return None;
        }
        proof {
            let t = e@.take(i + 1);
            assert(t.drop_last() =~= e@.take(i as int));
            assert(all_digits(t)) by {
                assert forall|k: int| 0 <= k < t.len() implies is_digit(#[trigger] t[k]) by {
                    if k < i {
                        assert(t[k] == e@.take(i as int)[k]);
                    }
                }
            }
        }
        let next = match v.checked_mul(10) {
            Some(m) => m.checked_add((c - 48) as u64),
            None => None,
        };
        match next {
            Some(n) => {
                v = n;
            },
            None => {
                proof {
                    if all_digits(e@) {
                        lemma_prefix_value_le(e@, i + 1);
                    }
                }
                return None;
            },
        }
        i = i + 1;
    }
    assert(e@.take(i as int) =~= e@);
    Some(v)
}

} // verus!
