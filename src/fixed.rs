//! Fixed-point decimal numbers with eight fractional digits.
//!
//! The provider sends every price as a decimal string. A `Fixed` holds such a
//! value as a whole number of hundred-millionths, so that all arithmetic on
//! prices is exact integer arithmetic. Eight fractional digits and an `i64`
//! bound the precision and range (see `parse_decimal`).
use vstd::prelude::*;
use crate::text::chars_of;

verus! {

/// Number of fractional digits a `Fixed` keeps.
pub const FRACTION_DIGITS: usize = 8;

/// Units in one whole: `10^FRACTION_DIGITS`.
pub const SCALE: i64 = 100_000_000;

/// A decimal number `units / SCALE`.
#[derive(Clone, Copy, Debug, PartialEq, Eq, Structural)]
pub struct Fixed {
    pub units: i64,
}

impl Fixed {
    /// The fixed-point number with the given number of units.
    pub fn from_units(units: i64) -> (r: Fixed)
        ensures
            r.units == units,
    {
        Fixed { units }
    }

    /// The whole number `n`.
    pub fn from_whole(n: i32) -> (r: Fixed)
        ensures
            r.units == n * SCALE,
    {
        Fixed { units: n as i64 * SCALE }
    }
}

/// The exact number `num / den`. Every `Ratio` the indicators return has a
/// positive `den`.
#[derive(Clone, Copy, Debug, PartialEq, Eq, Structural)]
pub struct Ratio {
    pub num: i128,
    pub den: i128,
}

pub open spec fn is_digit(c: char) -> bool {
    '0' <= c <= '9'
}

pub open spec fn digit_value(c: char) -> int {
    (c as int) - ('0' as int)
}

pub open spec fn all_digits(s: Seq<char>) -> bool {
    forall|i: int| 0 <= i < s.len() ==> is_digit(#[trigger] s[i])
}

/// The number that the decimal digits `s` spell, most significant first.
pub open spec fn digits_value(s: Seq<char>) -> int
    decreases s.len(),
{
    if s.len() == 0 {
        0
    } else {
        10 * digits_value(s.drop_last()) + digit_value(s.last())
    }
}

pub open spec fn has_sign(s: Seq<char>) -> bool {
    s.len() > 0 && (s[0] == '-' || s[0] == '+')
}

pub open spec fn is_negative(s: Seq<char>) -> bool {
    s.len() > 0 && s[0] == '-'
}

/// `s` without its leading sign, if it has one.
pub open spec fn unsigned_part(s: Seq<char>) -> Seq<char> {
    if has_sign(s) {
        s.drop_first()
    } else {
        s
    }
}

/// Index of the first decimal point in `u`, or `u.len()` if it has none.
pub open spec fn point_index(u: Seq<char>) -> int
    decreases u.len(),
{
    if u.len() == 0 {
        0
    } else if u[0] == '.' {
        0
    } else {
        1 + point_index(u.drop_first())
    }
}

/// The digits before the decimal point.
pub open spec fn whole_digits(u: Seq<char>) -> Seq<char> {
    u.take(point_index(u))
}

/// The characters after the decimal point (empty without a point).
pub open spec fn fraction_digits(u: Seq<char>) -> Seq<char> {
    if point_index(u) < u.len() {
        u.skip(point_index(u) + 1)
    } else {
        Seq::empty()
    }
}

/// A decimal literal: an optional `+` or `-`, then digits with at most one
/// decimal point among them, and at least one digit.
pub open spec fn is_decimal(s: Seq<char>) -> bool {
    let u = unsigned_part(s);
    &&& all_digits(whole_digits(u))
    &&& all_digits(fraction_digits(u))
    &&& whole_digits(u).len() + fraction_digits(u).len() > 0
}

/// The first `FRACTION_DIGITS` fraction digits, padded with `'0'`.
pub open spec fn kept_fraction(f: Seq<char>) -> Seq<char> {
    if f.len() >= FRACTION_DIGITS {
        f.take(FRACTION_DIGITS as int)
    } else {
        f + Seq::new((FRACTION_DIGITS - f.len()) as nat, |_i: int| '0')
    }
}

/// Size of the decimal literal `s` in units, fraction digits past the
/// eighth dropped.
pub open spec fn magnitude_units(s: Seq<char>) -> int {
    let u = unsigned_part(s);
    digits_value(whole_digits(u)) * SCALE + digits_value(kept_fraction(fraction_digits(u)))
}

/// Value of the decimal literal `s` in units, truncated toward zero.
pub open spec fn decimal_units(s: Seq<char>) -> int {
    if is_negative(s) {
        -magnitude_units(s)
    } else {
        magnitude_units(s)
    }
}

/// `10^n`.
pub open spec fn ten_pow(n: nat) -> int
    decreases n,
{
    if n == 0 {
        1
    } else {
        10 * ten_pow((n - 1) as nat)
    }
}

pub open spec fn fits_i64(x: int) -> bool {
    i64::MIN <= x <= i64::MAX
}

proof fn lemma_point_index(u: Seq<char>, j: int)
    requires
        0 <= j <= u.len(),
        forall|i: int| 0 <= i < j ==> u[i] != '.',
        j == u.len() || u[j] == '.',
    ensures
        point_index(u) == j,
    decreases j,
{
    if j > 0 {
        lemma_point_index(u.drop_first(), j - 1);
    }
}

proof fn lemma_digits_value_nonneg(s: Seq<char>)
    requires
        all_digits(s),
    ensures
        digits_value(s) >= 0,
    decreases s.len(),
{
    if s.len() > 0 {
        lemma_digits_value_nonneg(s.drop_last());
    }
}

/// A longer run of digits is worth at least as much as its prefix.
proof fn lemma_digits_value_prefix(s: Seq<char>, k: int)
    requires
        all_digits(s),
        0 <= k <= s.len(),
    ensures
        digits_value(s.take(k)) <= digits_value(s),
    decreases s.len(),
{
    if k < s.len() {
        let t = s.drop_last();
        assert(t.take(k) =~= s.take(k));
        lemma_digits_value_prefix(t, k);
        lemma_digits_value_nonneg(t);
    } else {
        assert(s.take(k) =~= s);
    }
}

/// Largest whole part a `Fixed` can hold, rounded up: `(2^63) / SCALE < WHOLE_CAP`.
const WHOLE_CAP: i128 = 100_000_000_000;

/// Parses a decimal literal into a `Fixed`, dropping fraction digits past the
/// eighth. Returns `None` for text that is no decimal literal and for values
/// that a `Fixed` cannot hold.
///
/// This accepts less than a floating-point parse: exponent notation
/// (`1e-7`), `inf` and `NaN` are refused, as are magnitudes of `2^63` units
/// (about `9.2e10`) or more. Values below `10^-8` in magnitude become 0.
pub fn parse_decimal(s: &str) -> (r: Option<Fixed>)
    ensures
        r is Some <==> is_decimal(s@) && fits_i64(decimal_units(s@)),
        r matches Some(f) ==> f.units == decimal_units(s@),
{
    let v = chars_of(s);
    let ghost u = unsigned_part(s@);
    let n = v.len();
    let start: usize = if n > 0 && (v[0] == '-' || v[0] == '+') { 1 } else { 0 };
    let negative = n > 0 && v[0] == '-';
    assert(u =~= v@.skip(start as int));
    // Locate the decimal point.
    let mut p: usize = start;
    while p < n && v[p] != '.'
        invariant
            v@ == s@,
            n == v.len(),
            start <= p <= n,
            forall|i: int| start <= i < p ==> v@[i] != '.',
        decreases n - p,
    {
        p = p + 1;
    }
    proof {
        lemma_point_index(u, p - start);
    }
    let frac_start: usize = if p < n { p + 1 } else { n };
    assert(whole_digits(u) =~= v@.subrange(start as int, p as int));
    assert(fraction_digits(u) =~= v@.subrange(frac_start as int, n as int));
    // Every character but the point must be a digit.
    let mut i: usize = start;
    while i < n
        invariant
            v@ == s@,
            n == v.len(),
            start <= p <= n,
            frac_start == (if p < n { p + 1 } else { n as int }),
            u == unsigned_part(s@),
            whole_digits(u) == v@.subrange(start as int, p as int),
            fraction_digits(u) == v@.subrange(frac_start as int, n as int),
            start <= i <= n,
            forall|k: int| start <= k < i && k != p ==> is_digit(#[trigger] v@[k]),
        decreases n - i,
    {
        if i != p && !('0' <= v[i] && v[i] <= '9') {
            assert(!is_decimal(s@)) by {
                assert(!is_digit(v@[i as int]));
                if i < p {
                    assert(whole_digits(u)[i - start] == v@[i as int]);
                    assert(!all_digits(whole_digits(u)));
                } else {
                    assert(fraction_digits(u)[i - frac_start] == v@[i as int]);
                    assert(!all_digits(fraction_digits(u)));
                }
            }
            return None;
        }
        i = i + 1;
    }
    if p - start + (n - frac_start) == 0 {
        return None;
    }
    assert(is_decimal(s@));
    let ghost w = whole_digits(u);
    let ghost kf = kept_fraction(fraction_digits(u));
    proof {
        assert forall|t: int| 0 <= t < kf.len() implies is_digit(#[trigger] kf[t]) by {
            if t < fraction_digits(u).len() {
                assert(is_digit(fraction_digits(u)[t]));
            }
        }
        lemma_digits_value_nonneg(kf);
    }
    // The whole part.
    let mut whole: i128 = 0;
    let mut k: usize = start;
    while k < p
        invariant
            v@ == s@,
            n == v.len(),
            start <= k <= p <= n,
            w == v@.subrange(start as int, p as int),
            all_digits(w),
            whole == digits_value(w.take(k - start)),
            0 <= whole <= WHOLE_CAP,
            digits_value(kf) >= 0,
            magnitude_units(s@) == digits_value(w) * SCALE + digits_value(kf),
        decreases p - k,
    {
        assert(w.take(k + 1 - start).drop_last() =~= w.take(k - start));
        assert(w[k - start] == v@[k as int]);
        let d = (v[k] as u32 - '0' as u32) as i128;
        whole = 10 * whole + d;
        k = k + 1;
        if whole > WHOLE_CAP {
            proof {
                lemma_digits_value_prefix(w, k - start);
            }
            return None;
        }
    }
    assert(w.take(p - start) =~= w);
    // The first eight fraction digits.
    let mut frac: i128 = 0;
    let mut j: usize = 0;
    while j < FRACTION_DIGITS
        invariant
            v@ == s@,
            n == v.len(),
            frac_start <= n,
            kf == kept_fraction(v@.subrange(frac_start as int, n as int)),
            all_digits(kf),
            j <= FRACTION_DIGITS,
            frac == digits_value(kf.take(j as int)),
            0 <= frac < ten_pow(j as nat),
        decreases FRACTION_DIGITS - j,
    {
        let c = if j < n - frac_start { v[frac_start + j] } else { '0' };
        assert(kf[j as int] == c);
        assert(kf.take(j + 1).drop_last() =~= kf.take(j as int));
        proof {
            lemma_ten_pow_small(j as nat);
        }
        frac = 10 * frac + (c as u32 - '0' as u32) as i128;
        j = j + 1;
    }
    assert(kf.take(8) =~= kf);
    proof {
        lemma_ten_pow_small(8);
    }
    let magnitude: i128 = whole * SCALE as i128 + frac;
    assert(magnitude == magnitude_units(s@));
    let units: i128 = if negative { -magnitude } else { magnitude };
    if units < i64::MIN as i128 || units > i64::MAX as i128 {
        return None;
    }
    Some(Fixed { units: units as i64 })
}

proof fn lemma_ten_pow_small(j: nat)
    requires
        j <= 8,
    ensures
        0 < ten_pow(j) <= 100_000_000,
        j == 8 ==> ten_pow(j) == 100_000_000,
{
    reveal_with_fuel(ten_pow, 9);
}

} // verus!
