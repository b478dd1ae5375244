//! Fixed-point decimal quantities.
//!
//! Prices and sizes arrive as decimal text (`"65432.10"`). They are held as a
//! whole number of units, one unit being `10^-18`, so that comparing and
//! subtracting them is exact.
use vstd::prelude::*;

verus! {

/// How many fractional digits one unit stands for.
pub const FRACTION_DIGITS: usize = 18;

/// Units in one whole (`10^18`).
pub const UNITS_PER_WHOLE: u128 = 1_000_000_000_000_000_000;

/// The largest quantity accepted, in units: the largest `i128`, so that the
/// difference of two quantities always fits an `i128`.
pub const MAX_UNITS: u128 = 170141183460469231731687303715884105727;

pub open spec fn is_digit(b: u8) -> bool {
    48 <= b && b <= 57
}

pub open spec fn all_digits(s: Seq<u8>) -> bool {
    forall|i: int| 0 <= i < s.len() ==> is_digit(#[trigger] s[i])
}

/// The number that a string of decimal digits denotes.
pub open spec fn digits_value(s: Seq<u8>) -> nat
    decreases s.len(),
{
    if s.len() == 0 {
        0
    } else {
        digits_value(s.drop_last()) * 10 + (s.last() as int - 48) as nat
    }
}

pub open spec fn pow10(n: nat) -> nat
    decreases n,
{
    if n == 0 {
        1
    } else {
        10 * pow10((n - 1) as nat)
    }
}

/// Index of the first `.` in `s`, or `s.len()` where there is none.
pub open spec fn dot_index(s: Seq<u8>) -> int
    decreases s.len(),
{
    if s.len() == 0 {
        0
    } else if s[0] == 46u8 {
        0
    } else {
        1 + dot_index(s.drop_first())
    }
}

pub open spec fn integer_part(s: Seq<u8>) -> Seq<u8> {
    s.subrange(0, dot_index(s))
}

pub open spec fn fraction_part(s: Seq<u8>) -> Seq<u8> {
    if dot_index(s) < s.len() {
        s.subrange(dot_index(s) + 1, s.len() as int)
    } else {
        Seq::empty()
    }
}

/// `s` is a plain unsigned decimal: digits, at most one `.`, at least one
/// digit, and no more fractional digits than a unit resolves.
pub open spec fn is_decimal(s: Seq<u8>) -> bool {
    &&& all_digits(integer_part(s))
    &&& all_digits(fraction_part(s))
    &&& integer_part(s).len() + fraction_part(s).len() > 0
    &&& fraction_part(s).len() <= FRACTION_DIGITS
}

/// The value of a decimal text in units.
pub open spec fn decimal_units(s: Seq<u8>) -> nat {
    digits_value(integer_part(s) + fraction_part(s)) * pow10(
        (FRACTION_DIGITS - fraction_part(s).len()) as nat,
    )
}

/// What a decimal text reads as: its value in units, or `None` where it is not
/// a decimal or its value exceeds `MAX_UNITS`.
pub open spec fn parse_units(s: Seq<u8>) -> Option<u128> {
    if is_decimal(s) && decimal_units(s) <= MAX_UNITS {
        Some(decimal_units(s) as u128)
    } else {
        None
    }
}

/// What a text field reads as, through its UTF-8 bytes.
pub open spec fn text_units(t: Seq<char>) -> Option<u128> {
    parse_units(vstd::utf8::encode_utf8(t))
}

pub proof fn lemma_pow10_positive(n: nat)
    ensures
        pow10(n) >= 1,
    decreases n,
{
    if n > 0 {
        lemma_pow10_positive((n - 1) as nat);
    }
}

pub proof fn lemma_pow10_monotone(a: nat, b: nat)
    requires
        a <= b,
    ensures
        pow10(a) <= pow10(b),
    decreases b,
{
    if a < b {
        lemma_pow10_monotone(a, (b - 1) as nat);
        lemma_pow10_positive((b - 1) as nat);
    }
}

proof fn lemma_digits_append(a: Seq<u8>, b: Seq<u8>)
    ensures
        digits_value(a + b) == digits_value(a) * pow10(b.len()) + digits_value(b),
    decreases b.len(),
{
    if b.len() == 0 {
        assert(a + b =~= a);
        assert(pow10(0) == 1);
        assert(digits_value(a) * 1 == digits_value(a));
    } else {
        let b0 = b.drop_last();
        lemma_digits_append(a, b0);
        assert((a + b).drop_last() =~= a + b0);
        assert((a + b).last() == b.last());
        assert(b.drop_last() == b0);
        let x = digits_value(a);
        let p = pow10(b0.len());
        let v0 = digits_value(b0);
        let d = (b.last() as int - 48) as nat;
        assert(pow10(b.len()) == 10 * p);
        assert(digits_value(a + b) == digits_value(a + b0) * 10 + d);
        assert(digits_value(b) == v0 * 10 + d);
        assert(digits_value(a + b0) == x * p + v0);
        assert((x * p + v0) * 10 + d == x * (10 * p) + (v0 * 10 + d)) by (nonlinear_arith);
        assert(digits_value(a + b) == x * pow10(b.len()) + digits_value(b));
    }
}

proof fn lemma_digits_prefix(a: Seq<u8>, b: Seq<u8>)
    ensures
        digits_value(a) <= digits_value(a + b),
{
    lemma_digits_append(a, b);
    lemma_pow10_positive(b.len());
    let x = digits_value(a);
    let p = pow10(b.len());
    assert(x <= x * p) by (nonlinear_arith)
        requires
            p >= 1,
    ;
}

proof fn lemma_dot_index_at(s: Seq<u8>, i: int)
    requires
        0 <= i <= s.len(),
        forall|j: int| 0 <= j < i ==> s[j] != 46u8,
    ensures
        i <= dot_index(s) <= s.len(),
        i < s.len() && s[i] == 46u8 ==> dot_index(s) == i,
    decreases i,
{
    if s.len() > 0 {
        if i > 0 {
            let t = s.drop_first();
            assert forall|j: int| 0 <= j < i - 1 implies t[j] != 46u8 by {
                assert(t[j] == s[j + 1]);
            }
            lemma_dot_index_at(t, i - 1);
        } else {
            lemma_dot_index_bound(s);
        }
    }
}

proof fn lemma_dot_index_bound(s: Seq<u8>)
    ensures
        0 <= dot_index(s) <= s.len(),
        dot_index(s) < s.len() ==> s[dot_index(s)] == 46u8,
    decreases s.len(),
{
    if s.len() > 0 && s[0] != 46u8 {
        lemma_dot_index_bound(s.drop_first());
    }
}

fn pow10_u128(n: usize) -> (r: u128)
    requires
        n <= FRACTION_DIGITS,
    ensures
        r == pow10(n as nat),
        1 <= r <= UNITS_PER_WHOLE,
{
    let mut r: u128 = 1;
    let mut k: usize = 0;
    proof {
        reveal_with_fuel(pow10, 19);
        assert(pow10(18) == 1000000000000000000);
    }
    while k < n
        invariant
            k <= n <= FRACTION_DIGITS,
            r == pow10(k as nat),
            pow10(18) == 1000000000000000000,
        decreases n - k,
    {
        proof {
            lemma_pow10_monotone((k + 1) as nat, 18);
        }
        r = r * 10;
        k = k + 1;
    }
    proof {
        lemma_pow10_monotone(n as nat, 18);
        lemma_pow10_positive(n as nat);
    }
    r
}

/// Reads a decimal text, given as its bytes, into units.
pub fn parse_units_bytes(s: &[u8]) -> (r: Option<u128>)
    ensures
        r == parse_units(s@),
{
    let n = s.len();
    let mut value: u128 = 0;
    let mut i: usize = 0;
    let mut dot: usize = 0;
    let mut seen_dot = false;
    while i < n
        invariant
            n == s@.len(),
            0 <= i <= n,
            value <= MAX_UNITS,
            !seen_dot ==> all_digits(s@.subrange(0, i as int)),
            !seen_dot ==> value == digits_value(s@.subrange(0, i as int)),
            seen_dot ==> dot < i && dot == dot_index(s@),
            seen_dot ==> all_digits(s@.subrange(0, dot as int)),
            seen_dot ==> all_digits(s@.subrange(dot + 1, i as int)),
            seen_dot ==> i - dot - 1 <= FRACTION_DIGITS,
            seen_dot ==> value == digits_value(
                s@.subrange(0, dot as int) + s@.subrange(dot + 1, i as int),
            ),
        decreases n - i,
    {
        let b = s[i];
        proof {
            if !seen_dot {
                assert forall|j: int| 0 <= j < i implies s@[j] != 46u8 by {
                    assert(is_digit(s@.subrange(0, i as int)[j]));
                }
                lemma_dot_index_at(s@, i as int);
            }
            lemma_dot_index_bound(s@);
        }
        if b == 46u8 {
            if seen_dot {
                proof {
                    assert(fraction_part(s@)[i - dot - 1] == 46u8);
                }
                return None;
            }
            seen_dot = true;
            dot = i;
            proof {
                assert(s@.subrange(0, dot as int) =~= s@.subrange(0, i as int));
                assert(s@.subrange(dot + 1, i + 1) =~= Seq::<u8>::empty());
                assert(s@.subrange(0, dot as int) + s@.subrange(dot + 1, i + 1) =~= s@.subrange(
                    0,
                    i as int,
                ));
            }
        } else if 48u8 <= b && b <= 57u8 {
            if seen_dot && i - dot - 1 >= FRACTION_DIGITS {
                return None;
            }
            let d = (b - 48u8) as u128;
            let ghost cur = if seen_dot {
                s@.subrange(0, dot as int) + s@.subrange(dot + 1, i + 1)
            } else {
                s@.subrange(0, i + 1)
            };
            proof {
                if seen_dot {
                    assert(cur.drop_last() =~= s@.subrange(0, dot as int) + s@.subrange(
                        dot + 1,
                        i as int,
                    ));
                } else {
                    assert(cur.drop_last() =~= s@.subrange(0, i as int));
                }
            }
            if value > (MAX_UNITS - d) / 10 {
                proof {
                    assert(digits_value(cur) > MAX_UNITS);
                    if is_decimal(s@) {
                        let whole = integer_part(s@) + fraction_part(s@);
                        let rest = if seen_dot {
                            s@.subrange(i + 1, n as int)
                        } else if dot_index(s@) < n {
                            s@.subrange(i + 1, dot_index(s@)) + s@.subrange(
                                dot_index(s@) + 1,
                                n as int,
                            )
                        } else {
                            s@.subrange(i + 1, n as int)
                        };
                        assert(whole =~= cur + rest);
                        lemma_digits_prefix(cur, rest);
                        lemma_pow10_positive((FRACTION_DIGITS - fraction_part(s@).len()) as nat);
                        let v = digits_value(whole);
                        let p = pow10((FRACTION_DIGITS - fraction_part(s@).len()) as nat);
                        assert(v <= v * p) by (nonlinear_arith)
                            requires
                                p >= 1,
                        ;
                    }
                }
                return None;
            }
            value = value * 10 + d;
            proof {
                if seen_dot {
                    assert(s@.subrange(dot + 1, i + 1) =~= s@.subrange(dot + 1, i as int).push(
                        b,
                    ));
                    assert(all_digits(s@.subrange(dot + 1, i + 1)));
                } else {
                    assert(all_digits(s@.subrange(0, i + 1)));
                }
            }
        } else {
            proof {
                if seen_dot {
                    assert(fraction_part(s@)[i - dot - 1] == b);
                } else {
                    assert(integer_part(s@)[i as int] == b);
                }
            }
            return None;
        }
        i = i + 1;
    }
    proof {
        if !seen_dot {
            assert forall|j: int| 0 <= j < n implies s@[j] != 46u8 by {
                assert(is_digit(s@.subrange(0, n as int)[j]));
            }
            lemma_dot_index_at(s@, n as int);
            assert(integer_part(s@) =~= s@.subrange(0, n as int));
            assert(integer_part(s@) + fraction_part(s@) =~= s@.subrange(0, n as int));
        } else {
            assert(integer_part(s@) + fraction_part(s@) =~= s@.subrange(0, dot as int)
                + s@.subrange(dot + 1, n as int));
        }
    }
    if n == 0 || (seen_dot && n == 1) {
        return None;
    }
    let frac_len: usize = if seen_dot {
        n - dot - 1
    } else {
        0
    };
    let p = pow10_u128(FRACTION_DIGITS - frac_len);
    if value > MAX_UNITS / p {
        proof {
            let m = MAX_UNITS as int;
            assert(value * p > m) by (nonlinear_arith)
                requires
                    value > m / (p as int),
                    p >= 1,
            ;
        }
        None
    } else {
        proof {
            let m = MAX_UNITS as int;
            assert(value * p <= m) by (nonlinear_arith)
                requires
                    value <= m / (p as int),
                    p >= 1,
            ;
        }
        Some(value * p)
    }
}

/// Reads a decimal text field into units.
pub fn parse_units_text(t: &String) -> (r: Option<u128>)
    ensures
        r == text_units(t@),
{
    let bytes = t.as_str().as_bytes();
    parse_units_bytes(bytes)
}

} // verus!
