//! Reading decimal numbers such as `1000.25` from their text.

use vstd::prelude::*;
use vstd::utf8::encode_utf8;

use crate::txs::{pow10, scale_up, Dec, DenominatedAmount};

verus! {

broadcast use vstd::seq_lib::group_seq_properties;

/// An ASCII decimal digit.
pub open spec fn is_digit(c: u8) -> bool {
    48 <= c && c <= 57
}

/// The ASCII decimal point.
pub open spec fn is_point(c: u8) -> bool {
    c == 46
}

/// Whether a character is a digit.
pub open spec fn digit_pred() -> spec_fn(u8) -> bool {
    |c: u8| is_digit(c)
}

/// Whether a character is a decimal point.
pub open spec fn point_pred() -> spec_fn(u8) -> bool {
    |c: u8| is_point(c)
}

/// The number that a string of digits spells, most significant first.
pub open spec fn digits_value(b: Seq<u8>) -> nat
    decreases b.len(),
{
    if b.len() == 0 {
        0
    } else {
        digits_value(b.drop_last()) * 10 + (b.last() - 48) as nat
    }
}

/// The number of characters after the last decimal point.
pub open spec fn tail_len(b: Seq<u8>) -> nat
    decreases b.len(),
{
    if b.len() == 0 || is_point(b.last()) {
        0
    } else {
        1 + tail_len(b.drop_last())
    }
}

/// Digits with at most one decimal point, which has digits on both sides.
pub open spec fn decimal_text(b: Seq<u8>) -> bool {
    &&& b.len() > 0
    &&& forall|i: int| 0 <= i < b.len() ==> is_digit(#[trigger] b[i]) || is_point(b[i])
    &&& b.filter(point_pred()).len() <= 1
    &&& !is_point(b[0])
    &&& !is_point(b.last())
}

/// The decimal that `b` spells, as its digits read as one integer and the
/// number of digits after the point; none where `b` is not a decimal.
pub open spec fn decimal_of(b: Seq<u8>) -> Option<(nat, nat)> {
    if decimal_text(b) {
        Some(
            (
                digits_value(b.filter(digit_pred())),
                if b.filter(point_pred()).len() == 0 {
                    0
                } else {
                    tail_len(b)
                },
            ),
        )
    } else {
        None
    }
}

proof fn lemma_digits_value_grows(b: Seq<u8>, c: u8)
    requires
        is_digit(c),
    ensures
        digits_value(b.push(c)) >= digits_value(b),
        digits_value(b.push(c)) == digits_value(b) * 10 + (c - 48) as nat,
{
    assert(b.push(c).drop_last() =~= b);
}

/// Read a decimal: its digits as one integer and the number of digits after
/// the point. None where `s` is not digits with at most one point between
/// digits, or where the integer or the number of places does not fit.
pub fn parse_decimal(s: &str) -> (r: Option<(u128, u8)>)
    ensures
        r matches Some(v) ==> decimal_of(encode_utf8(s@)) == Some((v.0 as nat, v.1 as nat)),
        r is None ==> match decimal_of(encode_utf8(s@)) {
            Some(d) => d.0 > u128::MAX || d.1 > u8::MAX,
            None => true,
        },
{
    let b = s.as_bytes();
    let ghost bs = b@;
    assert(bs == encode_utf8(s@));
    let ghost dp = digit_pred();
    let ghost pp = point_pred();
    if b.len() == 0 {
        return None;
    }
    let mut value: u128 = 0;
    let mut overflow = false;
    let mut points: usize = 0;
    let mut tail: usize = 0;
    let mut i: usize = 0;
    assert(bs.take(0) =~= Seq::<u8>::empty());
    assert(bs.take(0).filter(dp) =~= Seq::<u8>::empty());
    assert(bs.take(0).filter(pp) =~= Seq::<u8>::empty());
    while i < b.len()
        invariant
            bs == b@,
            bs == encode_utf8(s@),
            dp == digit_pred(),
            pp == point_pred(),
            i <= bs.len(),
            forall|j: int| 0 <= j < i ==> is_digit(#[trigger] bs[j]) || is_point(bs[j]),
            points as nat == bs.take(i as int).filter(pp).len(),
            points <= 1,
            tail as nat == tail_len(bs.take(i as int)),
            tail <= i,
            !overflow ==> value as nat == digits_value(bs.take(i as int).filter(dp)),
            overflow ==> digits_value(bs.take(i as int).filter(dp)) > u128::MAX,
        decreases bs.len() - i,
    {
        let c = b[i];
        let ghost pre = bs.take(i as int);
        proof {
            assert(bs.take(i + 1) =~= pre.push(c));
            pre.lemma_filter_push(c, dp);
            pre.lemma_filter_push(c, pp);
            assert(pre.push(c).drop_last() =~= pre);
        }
        if c == 46 {
            if points == 1 {
                assert(bs.filter(pp).len() >= 2) by {
                    assert(bs =~= bs.take(i + 1) + bs.skip(i + 1));
                    Seq::filter_distributes_over_add(bs.take(i + 1), bs.skip(i + 1), pp);
                }
                return None;
            }
            points = 1;
            tail = 0;
        } else if 48 <= c && c <= 57 {
            proof {
                lemma_digits_value_grows(pre.filter(dp), c);
            }
            if !overflow {
                match value.checked_mul(10) {
                    Some(t) => match t.checked_add((c - 48) as u128) {
                        Some(v) => {
                            value = v;
                        },
                        None => {
                            overflow = true;
                        },
                    },
                    None => {
                        overflow = true;
                        assert(digits_value(pre.filter(dp).push(c)) > u128::MAX) by (nonlinear_arith)
                            requires
                                value * 10 > u128::MAX,
                                digits_value(pre.filter(dp).push(c)) == value * 10 + (c - 48) as nat,
                        ;
                    },
                }
            }
            tail = tail + 1;
        } else {
            assert(!decimal_text(bs)) by {
                assert(!is_digit(bs[i as int]) && !is_point(bs[i as int]));
            }
            return None;
        }
        i = i + 1;
    }
    assert(bs.take(i as int) =~= bs);
    if b[0] == 46 || b[b.len() - 1] == 46 {
        return None;
    }
    assert(decimal_text(bs));
    if overflow {
        return None;
    }
    let places: usize = if points == 0 {
        0
    } else {
        tail
    };
    if places > 255 {
        return None;
    }
    Some((value, places as u8))
}

impl DenominatedAmount {
    /// Read an amount written as a decimal number of tokens, such as
    /// `1000.25`.
    pub fn from_decimal(s: &str) -> (r: Option<DenominatedAmount>)
        ensures
            r matches Some(a) ==> decimal_of(encode_utf8(s@)) == Some(
                (a.amount as nat, a.denom as nat),
            ),
            r is None ==> match decimal_of(encode_utf8(s@)) {
                Some(d) => d.0 > u128::MAX || d.1 > u8::MAX,
                None => true,
            },
    {
        match parse_decimal(s) {
            Some((amount, denom)) => Some(DenominatedAmount { amount, denom }),
            None => None,
        }
    }
}

/// The places of a [`Dec`].
pub const DEC_PLACES: u8 = 12;

impl Dec {
    /// Read a decimal such as `0.05` with at most twelve places.
    pub fn from_decimal(s: &str) -> (r: Option<Dec>)
        ensures
            r matches Some(d) ==> decimal_of(encode_utf8(s@)) matches Some(v) && v.1 <= DEC_PLACES
                && d.raw as nat == v.0 * pow10((DEC_PLACES - v.1) as nat),
            r is None ==> match decimal_of(encode_utf8(s@)) {
                Some(v) => v.0 > u128::MAX || v.1 > DEC_PLACES || v.0 * pow10(
                    (DEC_PLACES - v.1) as nat,
                ) > u128::MAX,
                None => true,
            },
    {
        match parse_decimal(s) {
            None => None,
            Some((digits, places)) => {
                if places > DEC_PLACES {
                    return None;
                }
                match scale_up(digits, DEC_PLACES - places) {
                    Some(raw) => Some(Dec { raw }),
                    None => None,
                }
            },
        }
    }
}

} // verus!
