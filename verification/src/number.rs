//! Unsigned integers written in a radix of up to 36.

use vstd::prelude::*;

verus! {

/// The value of `c` as a digit, whatever the radix: `0` to `9`, then the
/// letters of either case from 10 on.
pub open spec fn digit_of(c: char) -> Option<nat> {
    let n = c as u32;
    if 48 <= n <= 57 {
        Some((n - 48) as nat)
    } else if 97 <= n <= 122 {
        Some((n - 97 + 10) as nat)
    } else if 65 <= n <= 90 {
        Some((n - 65 + 10) as nat)
    } else {
        None
    }
}

/// Whether `c` is a digit of `radix`.
pub open spec fn is_digit(c: char, radix: nat) -> bool {
    digit_of(c) is Some && digit_of(c)->0 < radix
}

/// Whether `d` holds digits of `radix` only.
pub open spec fn all_digits(d: Seq<char>, radix: nat) -> bool {
    forall|i: int| 0 <= i < d.len() ==> is_digit(#[trigger] d[i], radix)
}

/// The number that the digits `d` write in `radix`, most significant first.
pub open spec fn digits_value(d: Seq<char>, radix: nat) -> nat
    decreases d.len(),
{
    if d.len() == 0 {
        0
    } else {
        digits_value(d.drop_last(), radix) * radix + match digit_of(d.last()) {
            Some(v) => v,
            None => 0,
        }
    }
}

/// The digits of `s`: what follows one optional leading plus sign.
pub open spec fn unsigned_digits(s: Seq<char>) -> Seq<char> {
    if s.len() > 0 && s[0] == '+' {
        s.skip(1)
    } else {
        s
    }
}

/// The number that `s` writes in `radix`. `s` is an optional plus sign and
/// then one digit or more; a number above `max` has no value.
pub open spec fn parse_unsigned(s: Seq<char>, radix: nat, max: nat) -> Option<nat> {
    let d = unsigned_digits(s);
    if d.len() > 0 && all_digits(d, radix) && digits_value(d, radix) <= max {
        Some(digits_value(d, radix))
    } else {
        None
    }
}

/// A longer numeral is worth at least as much as any of its prefixes.
pub proof fn lemma_prefix_value(d: Seq<char>, radix: nat, j: int)
    requires
        0 <= j <= d.len(),
        radix >= 1,
    ensures
        digits_value(d.take(j), radix) <= digits_value(d, radix),
    decreases d.len() - j,
{
    if j == d.len() {
        assert(d.take(j) =~= d);
    } else {
        lemma_prefix_value(d, radix, j + 1);
        let longer = d.take(j + 1);
        assert(longer.drop_last() =~= d.take(j));
        let v = digits_value(d.take(j), radix);
        assert(v <= v * radix) by (nonlinear_arith)
            requires
                radix >= 1,
                v >= 0,
        ;
    }
}

/// The value of one digit of `radix`, if `c` is one.
pub fn digit_value(c: char, radix: u32) -> (v: Option<u32>)
    ensures
        v is Some <==> is_digit(c, radix as nat),
        v is Some ==> v->0 == digit_of(c)->0 && v->0 < radix,
{
    let n: u32 = c as u32;
    let v: u32 = if 48 <= n && n <= 57 {
        n - 48
    } else if 97 <= n && n <= 122 {
        n - 97 + 10
    } else if 65 <= n && n <= 90 {
        n - 65 + 10
    } else {
        return None;
    };
    if v < radix {
        Some(v)
    } else {
        None
    }
}

/// Reads an unsigned 64-bit number in `radix` from the whole of `s`.
pub fn parse_u64(s: &[char], radix: u32) -> (r: Option<u64>)
    requires
        2 <= radix <= 36,
    ensures
        r is Some <==> parse_unsigned(s@, radix as nat, u64::MAX as nat) is Some,
        r is Some ==> r->0 == parse_unsigned(s@, radix as nat, u64::MAX as nat)->0,
{
    let n = s.len();
    let first: usize = if n > 0 && s[0] == '+' {
        1
    } else {
        0
    };
    if first == n {
        return None;
    }
    let ghost d = unsigned_digits(s@);
    assert(d =~= s@.skip(first as int));
    let mut acc: u64 = 0;
    let mut i: usize = first;
    while i < n
        invariant
            n == s@.len(),
            first <= i <= n,
            2 <= radix <= 36,
            d == s@.skip(first as int),
            d == unsigned_digits(s@),
            all_digits(d.take(i - first), radix as nat),
            acc == digits_value(d.take(i - first), radix as nat),
        decreases n - i,
    {
        let ghost k = i - first;
        assert(d[k] == s@[i as int]);
        assert(d.take(k + 1).drop_last() =~= d.take(k));
        match digit_value(s[i], radix) {
            None => {
                assert(!all_digits(d, radix as nat));
                return None;
            },
            Some(v) => {
                let wide: u64 = radix as u64;
                let digit: u64 = v as u64;
                if acc > (u64::MAX - digit) / wide {
                    proof {
                        lemma_prefix_value(d, radix as nat, k + 1);
                        assert(acc * wide + digit > u64::MAX) by (nonlinear_arith)
                            requires
                                acc > (u64::MAX - digit) / (wide as int),
                                wide >= 2,
                                digit <= u64::MAX,
                        ;
                    }
                    return None;
                }
                assert(acc * wide + digit <= u64::MAX) by (nonlinear_arith)
                    requires
                        acc <= (u64::MAX - digit) / (wide as int),
                        wide >= 2,
                        digit <= u64::MAX,
                ;
                acc = acc * wide + digit;
                proof {
                    assert forall|j: int| 0 <= j < d.take(k + 1).len() implies is_digit(
                        #[trigger] d.take(k + 1)[j],
                        radix as nat,
                    ) by {
                        if j < k {
                            assert(d.take(k + 1)[j] == d.take(k)[j]);
                        }
                    }
                }
                i = i + 1;
            },
        }
    }
    assert(d.take(n - first) =~= d);
    Some(acc)
}

/// Reads an unsigned 32-bit decimal number from the whole of `s`.
pub fn parse_u32(s: &[char]) -> (r: Option<u32>)
    ensures
        r is Some <==> parse_unsigned(s@, 10, u32::MAX as nat) is Some,
        r is Some ==> r->0 == parse_unsigned(s@, 10, u32::MAX as nat)->0,
{
    match parse_u64(s, 10) {
        Some(v) => {
            if v <= 0xFFFF_FFFF {
                Some(v as u32)
            } else {
                None
            }
        },
        None => None,
    }
}

} // verus!
