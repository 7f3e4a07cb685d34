//! Views of a candle series as sequences of integers, and the extremes over
//! a window of it, shared by the indicators.
use vstd::prelude::*;
use crate::crypto_client::ParsedOhlc;

verus! {

/// Why an indicator could not be computed.
#[derive(Clone, Copy, Debug, PartialEq, Eq, Structural)]
pub enum IndicatorError {
    /// The series is shorter than the indicator's window.
    InsufficientData,
    /// The formula's denominator is zero.
    DivisionUndefined,
    /// A caller-supplied parameter is not one the indicator knows.
    InvalidParameter,
}

/// The highs of `c`, in units.
pub open spec fn highs(c: Seq<ParsedOhlc>) -> Seq<int> {
    c.map_values(|o: ParsedOhlc| o.high.units as int)
}

/// The lows of `c`, in units.
pub open spec fn lows(c: Seq<ParsedOhlc>) -> Seq<int> {
    c.map_values(|o: ParsedOhlc| o.low.units as int)
}

/// The closes of `c`, in units.
pub open spec fn closes(c: Seq<ParsedOhlc>) -> Seq<int> {
    c.map_values(|o: ParsedOhlc| o.close.units as int)
}

/// Index of the first largest value among `s[0..n)` (0 when `n` is 0).
pub open spec fn first_max_index(s: Seq<int>, n: int) -> int
    decreases n,
{
    if n <= 1 {
        0
    } else {
        let k = first_max_index(s, n - 1);
        if s[n - 1] > s[k] {
            n - 1
        } else {
            k
        }
    }
}

/// Index of the first smallest value among `s[0..n)` (0 when `n` is 0).
pub open spec fn first_min_index(s: Seq<int>, n: int) -> int
    decreases n,
{
    if n <= 1 {
        0
    } else {
        let k = first_min_index(s, n - 1);
        if s[n - 1] < s[k] {
            n - 1
        } else {
            k
        }
    }
}

/// `first_max_index` is what its name says: no value in the window exceeds
/// the one at that index, and every value before it is smaller.
pub proof fn lemma_first_max_index(s: Seq<int>, n: int)
    requires
        0 < n <= s.len(),
    ensures
        0 <= first_max_index(s, n) < n,
        forall|j: int| 0 <= j < n ==> #[trigger] s[j] <= s[first_max_index(s, n)],
        forall|j: int| 0 <= j < first_max_index(s, n) ==> #[trigger] s[j] < s[first_max_index(s, n)],
    decreases n,
{
    if n > 1 {
        lemma_first_max_index(s, n - 1);
    }
}

/// `first_min_index` is what its name says: no value in the window is below
/// the one at that index, and every value before it is larger.
pub proof fn lemma_first_min_index(s: Seq<int>, n: int)
    requires
        0 < n <= s.len(),
    ensures
        0 <= first_min_index(s, n) < n,
        forall|j: int| 0 <= j < n ==> s[first_min_index(s, n)] <= #[trigger] s[j],
        forall|j: int| 0 <= j < first_min_index(s, n) ==> s[first_min_index(s, n)] < #[trigger] s[j],
    decreases n,
{
    if n > 1 {
        lemma_first_min_index(s, n - 1);
    }
}

/// Index of the first highest high among the first `n` candles.
pub fn highest_high_index(c: &Vec<ParsedOhlc>, n: usize) -> (k: usize)
    requires
        0 < n <= c.len(),
    ensures
        k == first_max_index(highs(c@), n as int),
        k < n,
{
    let mut k: usize = 0;
    let mut i: usize = 1;
    while i < n
        invariant
            0 < i <= n <= c.len(),
            k == first_max_index(highs(c@), i as int),
            k < i,
        decreases n - i,
    {
        if c[i].high.units > c[k].high.units {
            k = i;
        }
        i = i + 1;
    }
    k
}

/// Index of the first lowest low among the first `n` candles.
pub fn lowest_low_index(c: &Vec<ParsedOhlc>, n: usize) -> (k: usize)
    requires
        0 < n <= c.len(),
    ensures
        k == first_min_index(lows(c@), n as int),
        k < n,
{
    let mut k: usize = 0;
    let mut i: usize = 1;
    while i < n
        invariant
            0 < i <= n <= c.len(),
            k == first_min_index(lows(c@), i as int),
            k < i,
        decreases n - i,
    {
        if c[i].low.units < c[k].low.units {
            k = i;
        }
        i = i + 1;
    }
    k
}

} // verus!
