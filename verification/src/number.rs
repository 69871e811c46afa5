//! Decimal `u64` parsing with the grammar that `str::parse::<u64>` accepts:
//! an optional `+`, then one or more ASCII digits, with a value that fits;
//! and the grammar of 256-bit unsigned integers that `U256::from_str` reads.
use vstd::prelude::*;

use crate::text::chars_of;

verus! {

pub open spec fn is_ascii_digit(c: char) -> bool {
    '0' <= c && c <= '9'
}

pub open spec fn all_ascii_digits(d: Seq<char>) -> bool {
    forall|i: int| 0 <= i < d.len() ==> #[trigger] is_ascii_digit(d[i])
}

pub open spec fn digit_value(c: char) -> nat {
    ((c as int) - ('0' as int)) as nat
}

/// The number that a string of decimal digits denotes.
pub open spec fn digits_value(d: Seq<char>) -> nat
    decreases d.len(),
{
    if d.len() == 0 {
        0
    } else {
        digits_value(d.drop_last()) * 10 + digit_value(d.last())
    }
}

/// The digits after an optional leading `+`.
pub open spec fn unsigned_digits(s: Seq<char>) -> Seq<char> {
    if s.len() > 0 && s[0] == '+' {
        s.drop_first()
    } else {
        s
    }
}

/// What `str::parse::<u64>` gives for `s`: `None` where it reports an error.
pub open spec fn u64_from_decimal(s: Seq<char>) -> Option<u64> {
    let d = unsigned_digits(s);
    if d.len() > 0 && all_ascii_digits(d) && digits_value(d) <= u64::MAX {
        Some(digits_value(d) as u64)
    } else {
        None
    }
}

/// Appending digits never makes the value smaller.
pub proof fn lemma_digits_value_prefix(d: Seq<char>, k: int)
    requires
        0 <= k <= d.len(),
        all_ascii_digits(d),
    ensures
        digits_value(d.take(k)) <= digits_value(d),
    decreases d.len(),
{
    if k < d.len() {
        let p = d.drop_last();
        assert(all_ascii_digits(p)) by {
            assert forall|i: int| 0 <= i < p.len() implies #[trigger] is_ascii_digit(p[i]) by {
                assert(p[i] == d[i]);
            }
        }
        lemma_digits_value_prefix(p, k);
        assert(p.take(k) =~= d.take(k));
    } else {
        assert(d.take(k) =~= d);
    }
}

/// Parses a decimal `u64` the way `str::parse::<u64>` does; `None` on error.
pub fn parse_u64(s: &str) -> (r: Option<u64>)
    ensures
        r == u64_from_decimal(s@),
{
    let v = chars_of(s);
    let n = v.len();
    let mut start: usize = 0;
    if n > 0 && v[0] == '+' {
        start = 1;
    }
    let ghost d = unsigned_digits(s@);
    assert(d =~= v@.skip(start as int));
    if start == n {
        return None;
    }
    let mut k: usize = start;
    while k < n
        invariant
            start <= k <= n,
            n == v@.len(),
            d == v@.skip(start as int),
            d == unsigned_digits(s@),
            forall|i: int| 0 <= i < k - start ==> #[trigger] is_ascii_digit(d[i]),
        decreases n - k,
    {
        let c = v[k];
        assert(c == d[k - start]);
        if !('0' <= c && c <= '9') {
            assert(!is_ascii_digit(d[k - start]));
            assert(!all_ascii_digits(d));
            return None;
        }
        k = k + 1;
    }
    assert(all_ascii_digits(d));
    let mut acc: u64 = 0;
    let mut k: usize = start;
    assert(d.take(0) =~= Seq::<char>::empty());
    while k < n
        invariant
            start <= k <= n,
            n == v@.len(),
            d == v@.skip(start as int),
            d == unsigned_digits(s@),
            all_ascii_digits(d),
            acc as nat == digits_value(d.take(k - start)),
        decreases n - k,
    {
        let c = v[k];
        assert(c == d[k - start]);
        assert(is_ascii_digit(d[k - start]));
        let digit: u64 = ((c as u32) - ('0' as u32)) as u64;
        let ghost next = d.take(k + 1 - start);
        assert(next.drop_last() =~= d.take(k - start));
        assert(next.last() == c);
        assert(digit as nat == digit_value(c));
        assert(digits_value(next) == acc * 10 + digit);
        match acc.checked_mul(10) {
            Some(t) => match t.checked_add(digit) {
                Some(u) => {
                    acc = u;
                },
                None => {
                    proof {
                        lemma_digits_value_prefix(d, k + 1 - start);
                    }
                    assert(digits_value(d) > u64::MAX);
                    return None;
                },
            },
            None => {
                proof {
                    lemma_digits_value_prefix(d, k + 1 - start);
                }
                assert(acc * 10 > u64::MAX);
                assert(digits_value(d) > u64::MAX);
                return None;
            },
        }
        k = k + 1;
    }
    assert(d.take(n - start) =~= d);
    Some(acc)
}

/// The value of a digit `0`–`9`, `a`–`z` or `A`–`Z` (36 for anything else).
pub open spec fn alnum_digit_value(c: char) -> int {
    if '0' <= c && c <= '9' {
        (c as int) - ('0' as int)
    } else if 'a' <= c && c <= 'z' {
        (c as int) - ('a' as int) + 10
    } else if 'A' <= c && c <= 'Z' {
        (c as int) - ('A' as int) + 10
    } else {
        36
    }
}

/// The number that `d` denotes in `radix`, `_` being skipped; `None` when a
/// character is neither `_` nor a digit below `radix`.
pub open spec fn radix_digits_value(d: Seq<char>, radix: int) -> Option<nat>
    decreases d.len(),
{
    if d.len() == 0 {
        Some(0)
    } else {
        match radix_digits_value(d.drop_last(), radix) {
            None => None,
            Some(v) => if d.last() == '_' {
                Some(v)
            } else if alnum_digit_value(d.last()) < radix {
                Some((v * radix + alnum_digit_value(d.last())) as nat)
            } else {
                None
            },
        }
    }
}

/// The radix a prefix selects (`0x`/`0X` 16, `0o`/`0O` 8, `0b`/`0B` 2,
/// else 10) and the digits that follow it.
pub open spec fn u256_radix_and_digits(s: Seq<char>) -> (int, Seq<char>) {
    if s.len() >= 2 && s[0] == '0' && (s[1] == 'x' || s[1] == 'X') {
        (16, s.skip(2))
    } else if s.len() >= 2 && s[0] == '0' && (s[1] == 'o' || s[1] == 'O') {
        (8, s.skip(2))
    } else if s.len() >= 2 && s[0] == '0' && (s[1] == 'b' || s[1] == 'B') {
        (2, s.skip(2))
    } else {
        (10, s)
    }
}

/// 2^256.
pub open spec fn u256_bound() -> nat {
    0x1_0000_0000_0000_0000_0000_0000_0000_0000_0000_0000_0000_0000_0000_0000_0000_0000nat
}

/// The 256-bit unsigned integer a text denotes, `None` when it has a
/// character that is not a digit of its radix or `_`, or when the value does
/// not fit. Empty digits denote 0.
pub open spec fn u256_value_from_str(s: Seq<char>) -> Option<nat> {
    let (radix, d) = u256_radix_and_digits(s);
    match radix_digits_value(d, radix) {
        Some(v) => if v < u256_bound() {
            Some(v)
        } else {
            None
        },
        None => None,
    }
}

/// The number four little-endian 64-bit limbs denote.
pub open spec fn limbs_value(l: Seq<u64>) -> nat {
    (l[0] + l[1] * 0x1_0000_0000_0000_0000nat + l[2] * 0x1_0000_0000_0000_0000_0000_0000_0000_0000nat
        + l[3] * 0x1_0000_0000_0000_0000_0000_0000_0000_0000_0000_0000_0000_0000nat) as nat
}

} // verus!
