//! The relative strength index.
use vstd::prelude::*;
use crate::crypto_client::{ParsedOhlc, ParsedOhlcData};
use crate::fixed::Ratio;
use crate::series::{IndicatorError, closes};

verus! {

/// Candles the RSI looks at.
pub const RSI_WINDOW: usize = 14;

/// `prev - cur` where it is positive, else 0.
pub open spec fn gain(prev: int, cur: int) -> int {
    if prev - cur > 0 {
        prev - cur
    } else {
        0
    }
}

/// `cur - prev` where it is positive, else 0.
pub open spec fn loss(prev: int, cur: int) -> int {
    if prev - cur < 0 {
        cur - prev
    } else {
        0
    }
}

/// Sum of the gains from each close to the next among `s[0..n)`.
pub open spec fn sum_of_gains(s: Seq<int>, n: int) -> int
    decreases n,
{
    if n <= 1 {
        0
    } else {
        sum_of_gains(s, n - 1) + gain(s[n - 2], s[n - 1])
    }
}

/// Sum of the losses from each close to the next among `s[0..n)`.
pub open spec fn sum_of_losses(s: Seq<int>, n: int) -> int
    decreases n,
{
    if n <= 1 {
        0
    } else {
        sum_of_losses(s, n - 1) + loss(s[n - 2], s[n - 1])
    }
}

/// The RSI of the window, `100 - 100 / (1 + avg_gain / avg_loss)` with both
/// averages taken over `RSI_WINDOW`. The two divisions by `RSI_WINDOW` cancel,
/// and the whole is `100 * gains / (gains + losses)`.
pub open spec fn rsi_value(c: Seq<ParsedOhlc>) -> Ratio {
    let g = sum_of_gains(closes(c), RSI_WINDOW as int);
    let l = sum_of_losses(closes(c), RSI_WINDOW as int);
    Ratio { num: (100 * g) as i128, den: (g + l) as i128 }
}

/// What `rsi` returns for the series `c`.
pub open spec fn rsi_outcome(c: Seq<ParsedOhlc>) -> Result<Ratio, IndicatorError> {
    if c.len() < RSI_WINDOW {
        Err(IndicatorError::InsufficientData)
    } else if sum_of_losses(closes(c), RSI_WINDOW as int) == 0 {
        Err(IndicatorError::DivisionUndefined)
    } else {
        Ok(rsi_value(c))
    }
}

proof fn lemma_sums_bounded(s: Seq<int>, n: int)
    requires
        1 <= n <= s.len(),
        forall|i: int| 0 <= i < n ==> i64::MIN <= #[trigger] s[i] <= i64::MAX,
    ensures
        0 <= sum_of_gains(s, n) <= (n - 1) * 0x1_0000_0000_0000_0000,
        0 <= sum_of_losses(s, n) <= (n - 1) * 0x1_0000_0000_0000_0000,
    decreases n,
{
    if n > 1 {
        lemma_sums_bounded(s, n - 1);
    }
}

/// The RSI over the `RSI_WINDOW` most recent candles. For each candle after
/// the first, `previous close - close` counts as a gain when positive and as
/// a loss when negative. Fails with `DivisionUndefined` when there are no
/// losses, since the average loss is then zero.
pub fn rsi(data: &ParsedOhlcData) -> (r: Result<Ratio, IndicatorError>)
    ensures
        r == rsi_outcome(data.ohlc@),
{
    let c = &data.ohlc;
    if c.len() < RSI_WINDOW {
        return Err(IndicatorError::InsufficientData);
    }
    let ghost s = closes(c@);
    let mut gains: i128 = 0;
    let mut losses: i128 = 0;
    let mut prev_close: i64 = c[0].close.units;
    let mut i: usize = 1;
    while i < RSI_WINDOW
        invariant
            s == closes(c@),
            RSI_WINDOW <= c.len(),
            1 <= i <= RSI_WINDOW,
            prev_close == s[i - 1],
            gains == sum_of_gains(s, i as int),
            losses == sum_of_losses(s, i as int),
        decreases RSI_WINDOW - i,
    {
        proof {
            assert forall|j: int| 0 <= j < i + 1 implies i64::MIN <= #[trigger] s[j] <= i64::MAX by {}
            lemma_sums_bounded(s, i + 1);
        }
        let close = c[i].close.units;
        let x: i128 = prev_close as i128 - close as i128;
        if x > 0 {
            gains = gains + x;
        } else if x < 0 {
            losses = losses - x;
        }
        prev_close = close;
        i = i + 1;
    }
    if losses == 0 {
        return Err(IndicatorError::DivisionUndefined);
    }
    proof {
        assert forall|j: int| 0 <= j < RSI_WINDOW implies i64::MIN <= #[trigger] s[j] <= i64::MAX by {}
        lemma_sums_bounded(s, RSI_WINDOW as int);
    }
    Ok(Ratio { num: 100 * gains, den: gains + losses })
}

/// Closes that rise over time (each candle closing above the one stored
/// after it, the series being most recent first) leave no losses, so the RSI
/// fails with `DivisionUndefined` instead of producing a non-finite value.
pub proof fn lemma_rsi_rising_is_undefined(c: Seq<ParsedOhlc>)
    requires
        c.len() >= RSI_WINDOW,
        forall|i: int| 0 <= i < RSI_WINDOW - 1 ==> (#[trigger] c[i]).close.units > c[i + 1].close.units,
    ensures
        rsi_outcome(c) == Err::<Ratio, IndicatorError>(IndicatorError::DivisionUndefined),
{
    lemma_no_losses(closes(c), RSI_WINDOW as int);
}

proof fn lemma_no_losses(s: Seq<int>, n: int)
    requires
        n <= s.len(),
        forall|i: int| 0 <= i < n - 1 ==> s[i] > #[trigger] s[i + 1],
    ensures
        sum_of_losses(s, n) == 0,
    decreases n,
{
    if n > 1 {
        assert(s[n - 2] > s[n - 2 + 1]);
        lemma_no_losses(s, n - 1);
    }
}

} // verus!
