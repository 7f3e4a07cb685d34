//! The exponential moving average of closes.
use vstd::prelude::*;
use crate::crypto_client::{ParsedOhlc, ParsedOhlcData};
use crate::fixed::{Ratio, SCALE};
use crate::series::{IndicatorError, closes};

verus! {

/// Candles the EMA folds over.
pub const EMA_WINDOW: usize = 20;

/// The accumulator keeps this many parts of a unit: with `SCALE` it counts
/// in `10^-25` of a whole.
pub const EMA_PRECISION: i128 = 100_000_000_000_000_000;

/// `b^e`.
pub open spec fn power(b: int, e: nat) -> int
    decreases e,
{
    if e == 0 {
        1
    } else {
        b * power(b, (e - 1) as nat)
    }
}

/// One smoothing step with `k = 2 / (1 + EMA_WINDOW)`: `close * k + acc *
/// (1 - k) = (2 * close + 19 * acc) / 21`, the close taken to the
/// accumulator's precision and the result rounded down.
pub open spec fn ema_step(acc: int, close: int) -> int {
    (2 * close * EMA_PRECISION + 19 * acc) / 21
}

/// The accumulator after folding `ema_step` over `s[0..n)`, seeded with 0.
pub open spec fn ema_fold(s: Seq<int>, n: int) -> int
    decreases n,
{
    if n <= 0 {
        0
    } else {
        ema_step(ema_fold(s, n - 1), s[n - 1])
    }
}

/// The same fold without rounding is `ema_exact_num(s, n) / 21^n` units:
/// `s[i]` weighs `k * (1 - k)^(n - 1 - i)`, that is `2 * 19^(n-1-i) / 21^(n-i)`.
pub open spec fn ema_exact_num(s: Seq<int>, n: int) -> int
    decreases n,
{
    if n <= 0 {
        0
    } else {
        19 * ema_exact_num(s, n - 1) + 2 * s[n - 1] * power(21, (n - 1) as nat)
    }
}

/// How far the rounded fold of `n` steps lies below the exact one, in
/// `1 / (SCALE * EMA_PRECISION)` of a whole, times `21^n`.
pub open spec fn ema_shortfall(s: Seq<int>, n: int) -> int {
    ema_exact_num(s, n) * EMA_PRECISION - ema_fold(s, n) * power(21, n as nat)
}

/// What `exponential_moving_average` returns for the series `c`.
pub open spec fn ema_outcome(c: Seq<ParsedOhlc>) -> Result<Ratio, IndicatorError> {
    if c.len() < EMA_WINDOW {
        Err(IndicatorError::InsufficientData)
    } else {
        Ok(
            Ratio {
                num: ema_fold(closes(c), EMA_WINDOW as int) as i128,
                den: (SCALE * EMA_PRECISION) as i128,
            },
        )
    }
}

/// The EMA of the `EMA_WINDOW` most recent closes, folded in storage order
/// (most recent candle first) from an accumulator of 0. Each step rounds
/// down to `10^-25`; the result lies less than `EMA_WINDOW` such steps
/// below the exact fold.
pub fn exponential_moving_average(data: &ParsedOhlcData) -> (r: Result<Ratio, IndicatorError>)
    ensures
        r == ema_outcome(data.ohlc@),
        r is Ok ==> 0 <= ema_shortfall(closes(data.ohlc@), EMA_WINDOW as int) < EMA_WINDOW
            * power(21, EMA_WINDOW as nat),
{
    let c = &data.ohlc;
    if c.len() < EMA_WINDOW {
        return Err(IndicatorError::InsufficientData);
    }
    let ghost s = closes(c@);
    let mut acc: i128 = 0;
    let mut i: usize = 0;
    while i < EMA_WINDOW
        invariant
            s == closes(c@),
            EMA_WINDOW <= c.len(),
            i <= EMA_WINDOW,
            acc == ema_fold(s, i as int),
            i64::MIN * EMA_PRECISION <= acc <= i64::MAX * EMA_PRECISION,
        decreases EMA_WINDOW - i,
    {
        let close = c[i].close.units as i128;
        let step: i128 = 2 * close * EMA_PRECISION + 19 * acc;
        acc = step.checked_div_euclid(21).unwrap();
        i = i + 1;
    }
    proof {
        lemma_ema_shortfall(s, EMA_WINDOW as int);
    }
    Ok(Ratio { num: acc, den: SCALE as i128 * EMA_PRECISION })
}

/// Rounding only ever lowers the fold, by less than one step's rounding
/// (`10^-25`) per step: `0 <= exact - rounded < n` in those units.
pub proof fn lemma_ema_shortfall(s: Seq<int>, n: int)
    requires
        0 < n <= s.len(),
    ensures
        0 <= ema_shortfall(s, n) < n * power(21, n as nat),
    decreases n,
{
    if n > 1 {
        lemma_ema_shortfall(s, n - 1);
    }
    {
        let p = power(21, (n - 1) as nat);
        let a = ema_fold(s, n - 1);
        let x = ema_exact_num(s, n - 1);
        let d = ema_shortfall(s, n - 1);
        let c = s[n - 1];
        let an = ema_fold(s, n);
        let q = 2 * c * EMA_PRECISION + 19 * a;
        assert(an == q / 21);
        let rem = q - 21 * an;
        assert(0 <= rem < 21);
        assert(p > 0) by {
            lemma_power_positive(21, (n - 1) as nat);
        }
        assert(power(21, n as nat) == 21 * p);
        assert(ema_exact_num(s, n) == 19 * x + 2 * c * p);
        assert(d == x * EMA_PRECISION - a * p);
        assert(0 <= d <= (n - 1) * p);
        assert(ema_shortfall(s, n) == 19 * d + p * rem) by (nonlinear_arith)
            requires
                ema_shortfall(s, n) == ema_exact_num(s, n) * EMA_PRECISION - an * power(21, n as nat),
                ema_exact_num(s, n) == 19 * x + 2 * c * p,
                power(21, n as nat) == 21 * p,
                d == x * EMA_PRECISION - a * p,
                rem == q - 21 * an,
                q == 2 * c * EMA_PRECISION + 19 * a,
        ;
        assert(0 <= p * rem < 21 * p) by (nonlinear_arith)
            requires
                p > 0,
                0 <= rem < 21,
        ;
        assert(19 * d + p * rem < n * (21 * p)) by (nonlinear_arith)
            requires
                0 <= d <= (n - 1) * p,
                p * rem < 21 * p,
                p > 0,
                n >= 1,
        ;
        assert(n * power(21, n as nat) == n * (21 * p));
    }
}

proof fn lemma_power_positive(b: int, e: nat)
    requires
        b > 0,
    ensures
        power(b, e) > 0,
    decreases e,
{
    if e > 0 {
        lemma_power_positive(b, (e - 1) as nat);
        assert(b * power(b, (e - 1) as nat) > 0) by (nonlinear_arith)
            requires
                b > 0,
                power(b, (e - 1) as nat) > 0,
        ;
    }
}

/// The exact fold reads only the first `n` values.
proof fn lemma_ema_exact_prefix(s: Seq<int>, t: Seq<int>, n: int)
    requires
        0 <= n <= s.len(),
        n <= t.len(),
        forall|i: int| 0 <= i < n ==> s[i] == t[i],
    ensures
        ema_exact_num(s, n) == ema_exact_num(t, n),
    decreases n,
{
    if n > 0 {
        lemma_ema_exact_prefix(s, t, n - 1);
    }
}

/// The order of the fold: in the exact fold of `n` closes, changing the
/// close at `j` by `d` moves the average by `k * (1 - k)^(n - 1 - j) * d`,
/// so index 0 weighs least and index `n - 1` most (`k`). In the units of
/// `ema_exact_num`, which counts `21^n` per unit, that is
/// `2 * 19^(n-1-j) * 21^j * d`.
pub proof fn lemma_ema_exact_weight(s: Seq<int>, t: Seq<int>, j: int, n: int)
    requires
        0 <= j < n <= s.len(),
        n <= t.len(),
        forall|i: int| 0 <= i < n && i != j ==> s[i] == t[i],
    ensures
        ema_exact_num(t, n) - ema_exact_num(s, n) == 2 * power(19, (n - 1 - j) as nat) * power(
            21,
            j as nat,
        ) * (t[j] - s[j]),
    decreases n,
{
    let y = power(21, j as nat);
    let dd = t[j] - s[j];
    if n == j + 1 {
        lemma_ema_exact_prefix(s, t, j);
        assert(power(19, 0) == 1);
        assert(2 * t[j] * y - 2 * s[j] * y == 2 * 1 * y * dd) by (nonlinear_arith)
            requires
                dd == t[j] - s[j],
        ;
    } else {
        lemma_ema_exact_weight(s, t, j, n - 1);
        let w = power(19, (n - 2 - j) as nat);
        let p = power(21, (n - 1) as nat);
        assert(s[n - 1] == t[n - 1]);
        assert(ema_exact_num(t, n) - ema_exact_num(s, n) == 19 * (ema_exact_num(t, n - 1)
            - ema_exact_num(s, n - 1)));
        assert(power(19, (n - 1 - j) as nat) == 19 * w);
        assert(19 * (2 * w * y * dd) == 2 * (19 * w) * y * dd) by (nonlinear_arith);
    }
}

/// The smoothing step has every close as its fixed point: from an
/// accumulator equal to `c`, a close of `c` leaves it at `c`.
pub proof fn lemma_ema_step_fixed_point(c: int)
    ensures
        ema_step(c * EMA_PRECISION, c) == c * EMA_PRECISION,
{
}

/// Twenty identical closes of 0 give an EMA of 0. The fold is seeded with 0
/// rather than with the first close, so for any other constant close the
/// result falls short of it.
pub proof fn lemma_ema_constant_zero(c: Seq<ParsedOhlc>)
    requires
        c.len() >= EMA_WINDOW,
        forall|i: int| 0 <= i < EMA_WINDOW ==> (#[trigger] c[i]).close.units == 0,
    ensures
        ema_outcome(c) == Ok::<Ratio, IndicatorError>(
            Ratio { num: 0, den: (SCALE * EMA_PRECISION) as i128 },
        ),
{
    lemma_ema_fold_zero(closes(c), EMA_WINDOW as int);
}

proof fn lemma_ema_fold_zero(s: Seq<int>, n: int)
    requires
        n <= s.len(),
        forall|i: int| 0 <= i < n ==> #[trigger] s[i] == 0,
    ensures
        ema_fold(s, n) == 0,
    decreases n,
{
    if n > 0 {
        lemma_ema_fold_zero(s, n - 1);
    }
}

} // verus!
