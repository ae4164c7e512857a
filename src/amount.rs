use vstd::prelude::*;
use vstd::string::StringSliceAdditionalSpecFns;

verus! {

/// Fixed-point units in one whole currency unit.
pub const UNITS_PER_WHOLE: i64 = 10_000;

/// Most digits after the decimal point that an amount may carry.
pub const FRACTION_DIGITS: usize = 4;

pub open spec fn is_digit(c: u8) -> bool {
    48 <= c <= 57
}

pub open spec fn all_digits(s: Seq<u8>) -> bool {
    forall|i: int| 0 <= i < s.len() ==> is_digit(#[trigger] s[i])
}

/// The number that a string of decimal digits spells.
pub open spec fn digits_value(s: Seq<u8>) -> nat
    decreases s.len(),
{
    if s.len() == 0 {
        0
    } else {
        digits_value(s.drop_last()) * 10 + (s.last() - 48) as nat
    }
}

pub open spec fn pow10(n: nat) -> nat
    decreases n,
{
    if n == 0 {
        1
    } else {
        10 * pow10((n - 1) as nat)
    }
}

/// `p` is the position of the first decimal point in `s`.
pub open spec fn first_point_at(s: Seq<u8>, p: int) -> bool {
    0 <= p < s.len() && s[p] == 46 && forall|j: int| 0 <= j < p ==> s[j] != 46
}

/// Units of an unsigned decimal: digits, optionally followed by a point and
/// at most four more digits, with at least one digit in all.
pub open spec fn unsigned_units(s: Seq<u8>) -> Option<int> {
    if exists|p: int| first_point_at(s, p) {
        let p = choose|p: int| first_point_at(s, p);
        let whole = s.take(p);
        let frac = s.skip(p + 1);
        if all_digits(whole) && all_digits(frac) && frac.len() <= 4 && whole.len() + frac.len()
            > 0 {
            Some(
                (digits_value(whole) * 10_000 + digits_value(frac) * pow10(
                    (4 - frac.len()) as nat,
                )) as int,
            )
        } else {
            None
        }
    } else if all_digits(s) && s.len() > 0 {
        Some((digits_value(s) * 10_000) as int)
    } else {
        None
    }
}

/// Units of a decimal with an optional leading `-` or `+`.
pub open spec fn decimal_units(s: Seq<u8>) -> Option<int> {
    if s.len() > 0 && s[0] == 45 {
        match unsigned_units(s.drop_first()) {
            Some(v) => Some(-v),
            None => None,
        }
    } else if s.len() > 0 && s[0] == 43 {
        unsigned_units(s.drop_first())
    } else {
        unsigned_units(s)
    }
}

proof fn lemma_digits_step(s: Seq<u8>, i: int)
    requires
        0 <= i < s.len(),
    ensures
        digits_value(s.take(i + 1)) == digits_value(s.take(i)) * 10 + (s[i] - 48) as nat,
{
    assert(s.take(i + 1).drop_last() =~= s.take(i));
}

proof fn lemma_digits_grow(s: Seq<u8>, i: int, j: int)
    requires
        0 <= i <= j <= s.len(),
        all_digits(s),
    ensures
        digits_value(s.take(i)) <= digits_value(s.take(j)),
    decreases j - i,
{
    if i < j {
        lemma_digits_grow(s, i, j - 1);
        lemma_digits_step(s, j - 1);
    }
}

/// Reads the digits `text[start..end]`, or `None` where one is not a digit
/// or the number exceeds `limit`.
fn read_digits(text: &[u8], start: usize, end: usize, limit: u64) -> (r: Option<u64>)
    requires
        start <= end <= text@.len(),
        limit < 1_000_000_000_000_000_000,
    ensures
        match r {
            Some(v) => all_digits(text@.subrange(start as int, end as int)) && v == digits_value(
                text@.subrange(start as int, end as int),
            ) && v <= limit,
            None => !all_digits(text@.subrange(start as int, end as int)) || digits_value(
                text@.subrange(start as int, end as int),
            ) > limit,
        },
{
    let ghost s = text@.subrange(start as int, end as int);
    let mut value: u64 = 0;
    let mut i: usize = start;
    while i < end
        invariant
            start <= i <= end <= text@.len(),
            s == text@.subrange(start as int, end as int),
            limit < 1_000_000_000_000_000_000,
            all_digits(s.take(i - start)),
            value == digits_value(s.take(i - start)),
            value <= limit,
        decreases end - i,
    {
        let c = text[i];
        if c < 48 || c > 57 {
            assert(!is_digit(s[i - start]));
            return None;
        }
        proof {
            lemma_digits_step(s, i - start);
            assert(s.take(i - start + 1) =~= s.take(i - start).push(c));
        }
        let next = value * 10 + (c - 48) as u64;
        if next > limit {
            proof {
                assert(all_digits(s.take(i - start + 1)));
                if all_digits(s) {
                    lemma_digits_grow(s, i - start + 1, s.len() as int);
                    assert(s.take(s.len() as int) =~= s);
                }
            }
            return None;
        }
        value = next;
        i = i + 1;
    }
    proof {
        assert(s.take(i - start) =~= s);
    }
    Some(value)
}

/// The fixed-point amount that a decimal text spells, where it fits in an
/// `i64`.
pub open spec fn amount_of(s: Seq<u8>) -> Option<i64> {
    match decimal_units(s) {
        Some(v) => if i64::MIN <= v <= i64::MAX {
            Some(v as i64)
        } else {
            None
        },
        None => None,
    }
}

/// Largest whole part whose units can fit in an `i64`.
const WHOLE_LIMIT: u64 = 922_337_203_685_477;

/// Reads a decimal amount such as `-12.5` into fixed-point units. The text
/// may start with `-` or `+`, must hold at least one digit, and may carry at
/// most four digits after the point. `None` where it is malformed or out of
/// range.
pub fn parse_amount(text: &str) -> (r: Option<i64>)
    ensures
        r == amount_of(text.spec_bytes()),
{
    let b = text.as_bytes();
    let ghost all = b@;
    let n = b.len();
    let negative = n > 0 && b[0] == 45;
    let start: usize = if n > 0 && (b[0] == 45 || b[0] == 43) {
        1
    } else {
        0
    };
    let ghost s = all.skip(start as int);
    proof {
        if start == 1 {
            assert(s =~= all.drop_first());
        } else {
            assert(s =~= all);
        }
        assert(decimal_units(all) == if negative {
            match unsigned_units(s) {
                Some(v) => Some(-v),
                None => None,
            }
        } else {
            unsigned_units(s)
        });
    }
    let mut p: usize = start;
    while p < n && b[p] != 46
        invariant
            start <= p <= n,
            n == all.len(),
            b@ == all,
            forall|j: int| start <= j < p ==> all[j] != 46,
        decreases n - p,
    {
        p = p + 1;
    }
    let units: u64;
    if p == n {
        proof {
            assert forall|q: int| !first_point_at(s, q) by {
                if 0 <= q < s.len() {
                    assert(s[q] == all[q + start]);
                }
            }
            assert(all.subrange(start as int, n as int) =~= s);
        }
        if n == start {
            return None;
        }
        let whole = match read_digits(b, start, n, WHOLE_LIMIT) {
            Some(v) => v,
            None => return None,
        };
        assert(whole * 10_000 <= WHOLE_LIMIT * 10_000) by (nonlinear_arith)
            requires
                whole <= WHOLE_LIMIT,
        ;
        units = whole * 10_000;
    } else {
        let ghost q = (p - start) as int;
        proof {
            assert(s[q] == 46);
            assert forall|j: int| 0 <= j < q implies s[j] != 46 by {
                assert(s[j] == all[j + start]);
            }
            assert(first_point_at(s, q));
            let c = choose|c: int| first_point_at(s, c);
            if c < q {
                assert(s[c] == 46);
            }
            if c > q {
                assert(s[q] != 46);
            }
            assert(c == q);
            assert(s.take(q) =~= all.subrange(start as int, p as int));
            assert(s.skip(q + 1) =~= all.subrange(p + 1, n as int));
        }
        let frac_len = n - p - 1;
        if frac_len > FRACTION_DIGITS || (p == start && frac_len == 0) {
            return None;
        }
        let whole = match read_digits(b, start, p, WHOLE_LIMIT) {
            Some(v) => v,
            None => return None,
        };
        let frac = match read_digits(b, p + 1, n, 9_999) {
            Some(v) => v,
            None => {
                proof {
                    let f = all.subrange(p + 1, n as int);
                    if all_digits(f) {
                        assert(f.len() <= 4);
                        lemma_digits_below_pow10(f);
                        assert(pow10(f.len()) <= 10_000) by {
                            lemma_pow10_le_4(f.len());
                        }
                    }
                }
                return None;
            },
        };
        let scale: u64 = if frac_len == 0 {
            10_000
        } else if frac_len == 1 {
            1_000
        } else if frac_len == 2 {
            100
        } else if frac_len == 3 {
            10
        } else {
            1
        };
        proof {
            assert(pow10(0) == 1);
            assert(pow10(1) == 10);
            assert(pow10(2) == 100);
            assert(pow10(3) == 1_000);
            assert(pow10(4) == 10_000);
            assert(scale == pow10((4 - frac_len) as nat));
        }
        assert(whole * 10_000 <= WHOLE_LIMIT * 10_000) by (nonlinear_arith)
            requires
                whole <= WHOLE_LIMIT,
        ;
        assert(frac * scale <= 9_999 * 10_000) by (nonlinear_arith)
            requires
                frac <= 9_999,
                scale <= 10_000,
        ;
        units = whole * 10_000 + frac * scale;
    }
    let value: i128 = if negative {
        -(units as i128)
    } else {
        units as i128
    };
    if value < i64::MIN as i128 || value > i64::MAX as i128 {
        return None;
    }
    Some(value as i64)
}

proof fn lemma_digits_below_pow10(s: Seq<u8>)
    requires
        all_digits(s),
    ensures
        digits_value(s) < pow10(s.len()),
    decreases s.len(),
{
    if s.len() > 0 {
        let t = s.drop_last();
        assert(all_digits(t)) by {
            assert forall|i: int| 0 <= i < t.len() implies is_digit(t[i]) by {
                assert(t[i] == s[i]);
            }
        }
        lemma_digits_below_pow10(t);
        assert(is_digit(s[s.len() - 1]));
    }
}

proof fn lemma_pow10_le_4(n: nat)
    requires
        n <= 4,
    ensures
        pow10(n) <= 10_000,
{
    assert(pow10(0) == 1);
    assert(pow10(1) == 10);
    assert(pow10(2) == 100);
    assert(pow10(3) == 1_000);
    assert(pow10(4) == 10_000);
}

} // verus!
