//! Conversion of captured field text into typed values.
use vstd::prelude::*;

verus! {

/// Whether a byte is an ASCII decimal digit.
pub open spec fn is_digit(b: u8) -> bool {
    48 <= b <= 57
}

/// Whether every byte of `s` is an ASCII decimal digit.
pub open spec fn all_digits(s: Seq<u8>) -> bool {
    forall|i: int| 0 <= i < s.len() ==> is_digit(#[trigger] s[i])
}

/// The number written in decimal by the digits of `s` (most significant first).
pub open spec fn decimal_value(s: Seq<u8>) -> nat
    decreases s.len(),
{
    if s.len() == 0 {
        0
    } else {
        decimal_value(s.drop_last()) * 10 + (s.last() - 48) as nat
    }
}

/// Whether `s` is the text of an unsigned integer that fits in a `u64`.
pub open spec fn parses_as_u64(s: Seq<u8>) -> bool {
    s.len() > 0 && all_digits(s) && decimal_value(s) <= u64::MAX
}

/// A longer prefix of a digit string never denotes a smaller number.
proof fn lemma_decimal_prefix_monotone(s: Seq<u8>, i: int, j: int)
    requires
        0 <= i <= j <= s.len(),
        all_digits(s),
    ensures
        decimal_value(s.take(i)) <= decimal_value(s.take(j)),
    decreases j - i,
{
    if i < j {
        lemma_decimal_prefix_monotone(s, i, j - 1);
        assert(s.take(j).drop_last() =~= s.take(j - 1));
    }
}

/// Reads an unsigned decimal integer: one or more ASCII digits, nothing else,
/// with a value that fits in a `u64`. Unlike `str::parse`, a leading `+` is
/// rejected; the default patterns only capture digits.
pub fn parse_u64(s: &[u8]) -> (r: Option<u64>)
    ensures
        r.is_some() <==> parses_as_u64(s@),
        r.is_some() ==> r.unwrap() as nat == decimal_value(s@),
{
    if s.len() == 0 {
        return None;
    }
    let mut acc: u64 = 0;
    let mut i: usize = 0;
    while i < s.len()
        invariant
            0 <= i <= s@.len(),
            all_digits(s@.take(i as int)),
            acc as nat == decimal_value(s@.take(i as int)),
        decreases s@.len() - i,
    {
        let b = s[i];
        assert(s@.take(i as int + 1).drop_last() =~= s@.take(i as int));
        if b < 48 || b > 57 {
            assert(!all_digits(s@));
            return None;
        }
        let d = (b - 48) as u64;
        let next = match acc.checked_mul(10) {
            Some(m) => m.checked_add(d),
            None => None,
        };
        match next {
            Some(n) => {
                acc = n;
            },
            None => {
                proof {
                    if all_digits(s@) {
                        lemma_decimal_prefix_monotone(s@, i as int + 1, s@.len() as int);
                        assert(s@.take(s@.len() as int) =~= s@);
                    }
                }
                return None;
            },
        }
        i += 1;
        assert(all_digits(s@.take(i as int))) by {
            assert forall|k: int| 0 <= k < i implies is_digit(#[trigger] s@.take(i as int)[k]) by {
                if k < i - 1 {
                    assert(s@.take(i as int)[k] == s@.take(i as int - 1)[k]);
                }
            }
        }
    }
    assert(s@.take(s@.len() as int) =~= s@);
    Some(acc)
}

} // verus!
