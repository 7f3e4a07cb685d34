//! The Aroon oscillator.
use vstd::prelude::*;
use crate::crypto_client::{ParsedOhlc, ParsedOhlcData};
use crate::fixed::Ratio;
use crate::series::{
    IndicatorError, highs, lows, first_max_index, first_min_index, highest_high_index,
    lowest_low_index,
};

verus! {

/// Candles the Aroon oscillator looks at.
pub const AROON_WINDOW: usize = 25;

/// Aroon up, Aroon down and their difference, in percent.
#[derive(Clone, Copy, Debug, PartialEq, Eq, Structural)]
pub struct AroonReading {
    pub up: Ratio,
    pub down: Ratio,
    pub oscillator: Ratio,
}

/// `100 * (AROON_WINDOW - k) / AROON_WINDOW`: how recent index `k` is, in percent.
pub open spec fn aroon_line(k: int) -> Ratio {
    Ratio { num: (100 * (AROON_WINDOW - k)) as i128, den: AROON_WINDOW as i128 }
}

/// Index of the first highest high in the window.
pub open spec fn aroon_high_index(c: Seq<ParsedOhlc>) -> int {
    first_max_index(highs(c), AROON_WINDOW as int)
}

/// Index of the first lowest low in the window.
pub open spec fn aroon_low_index(c: Seq<ParsedOhlc>) -> int {
    first_min_index(lows(c), AROON_WINDOW as int)
}

/// The reading over the first `AROON_WINDOW` candles of `c`.
pub open spec fn aroon_reading(c: Seq<ParsedOhlc>) -> AroonReading {
    let up = aroon_line(aroon_high_index(c));
    let down = aroon_line(aroon_low_index(c));
    AroonReading {
        up,
        down,
        oscillator: Ratio { num: (up.num - down.num) as i128, den: AROON_WINDOW as i128 },
    }
}

/// What `aroon_oscillator` returns for the series `c`.
pub open spec fn aroon_outcome(c: Seq<ParsedOhlc>) -> Result<AroonReading, IndicatorError> {
    if c.len() < AROON_WINDOW {
        Err(IndicatorError::InsufficientData)
    } else {
        Ok(aroon_reading(c))
    }
}

/// The Aroon oscillator over the `AROON_WINDOW` most recent candles: with `hh`
/// the index of the first highest high and `ll` that of the first lowest low,
/// up is `100 * (25 - hh) / 25`, down is `100 * (25 - ll) / 25`, and the
/// oscillator is up minus down.
pub fn aroon_oscillator(data: &ParsedOhlcData) -> (r: Result<AroonReading, IndicatorError>)
    ensures
        r == aroon_outcome(data.ohlc@),
{
    let c = &data.ohlc;
    if c.len() < AROON_WINDOW {
        return Err(IndicatorError::InsufficientData);
    }
    let hh = highest_high_index(c, AROON_WINDOW);
    let ll = lowest_low_index(c, AROON_WINDOW);
    let up: i128 = 100 * (AROON_WINDOW as i128 - hh as i128);
    let down: i128 = 100 * (AROON_WINDOW as i128 - ll as i128);
    let den = AROON_WINDOW as i128;
    Ok(AroonReading {
        up: Ratio { num: up, den },
        down: Ratio { num: down, den },
        oscillator: Ratio { num: up - down, den },
    })
}

} // verus!
