//! The stochastic oscillator %K.
use vstd::prelude::*;
use crate::crypto_client::{ParsedOhlc, ParsedOhlcData};
use crate::fixed::Ratio;
use crate::series::{
    IndicatorError, highs, lows, first_max_index, first_min_index, highest_high_index,
    lowest_low_index, lemma_first_max_index, lemma_first_min_index,
};

verus! {

/// Candles the stochastic oscillator looks at.
pub const STOCHASTIC_WINDOW: usize = 14;

/// Highest high of the window.
pub open spec fn highest_high(c: Seq<ParsedOhlc>) -> int {
    highs(c)[first_max_index(highs(c), STOCHASTIC_WINDOW as int)]
}

/// Lowest low of the window.
pub open spec fn lowest_low(c: Seq<ParsedOhlc>) -> int {
    lows(c)[first_min_index(lows(c), STOCHASTIC_WINDOW as int)]
}

/// `100 * (close - lowest_low) / (highest_high - lowest_low)`, written with
/// a positive denominator.
pub open spec fn percent_k(c: Seq<ParsedOhlc>) -> Ratio {
    let num = 100 * (c[0].close.units - lowest_low(c));
    let den = highest_high(c) - lowest_low(c);
    if den > 0 {
        Ratio { num: num as i128, den: den as i128 }
    } else {
        Ratio { num: -num as i128, den: -den as i128 }
    }
}

/// What `stochastic_oscillator` returns for the series `c`.
pub open spec fn stochastic_outcome(c: Seq<ParsedOhlc>) -> Result<Ratio, IndicatorError> {
    if c.len() < STOCHASTIC_WINDOW {
        Err(IndicatorError::InsufficientData)
    } else if highest_high(c) == lowest_low(c) {
        Err(IndicatorError::DivisionUndefined)
    } else {
        Ok(percent_k(c))
    }
}

/// %K over the `STOCHASTIC_WINDOW` most recent candles: where the most recent
/// close lies between the lowest low and the highest high of the window, in
/// percent. Fails with `DivisionUndefined` when the window is flat.
pub fn stochastic_oscillator(data: &ParsedOhlcData) -> (r: Result<Ratio, IndicatorError>)
    ensures
        r == stochastic_outcome(data.ohlc@),
{
    let c = &data.ohlc;
    if c.len() < STOCHASTIC_WINDOW {
        return Err(IndicatorError::InsufficientData);
    }
    let highest_high = c[highest_high_index(c, STOCHASTIC_WINDOW)].high.units as i128;
    let lowest_low = c[lowest_low_index(c, STOCHASTIC_WINDOW)].low.units as i128;
    let numerator: i128 = 100 * (c[0].close.units as i128 - lowest_low);
    let denominator: i128 = highest_high - lowest_low;
    if denominator == 0 {
        Err(IndicatorError::DivisionUndefined)
    } else if denominator > 0 {
        Ok(Ratio { num: numerator, den: denominator })
    } else {
        Ok(Ratio { num: -numerator, den: -denominator })
    }
}

/// A flat window, every high and every low at one price, leaves %K without a
/// denominator: the oscillator fails with `DivisionUndefined`.
pub proof fn lemma_stochastic_flat_is_undefined(c: Seq<ParsedOhlc>, price: i64)
    requires
        c.len() >= STOCHASTIC_WINDOW,
        forall|i: int|
            0 <= i < STOCHASTIC_WINDOW ==> (#[trigger] c[i]).high.units == price && c[i].low.units
                == price,
    ensures
        stochastic_outcome(c) == Err::<Ratio, IndicatorError>(IndicatorError::DivisionUndefined),
{
    lemma_first_max_index(highs(c), STOCHASTIC_WINDOW as int);
    lemma_first_min_index(lows(c), STOCHASTIC_WINDOW as int);
    let hk = first_max_index(highs(c), STOCHASTIC_WINDOW as int);
    let lk = first_min_index(lows(c), STOCHASTIC_WINDOW as int);
    assert(c[hk].high.units == price);
    assert(c[lk].low.units == price);
}

} // verus!
