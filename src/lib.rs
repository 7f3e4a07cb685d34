//! Market-data normalisation and technical indicators over fixed-point prices.
//!
//! `crypto_client` turns the provider's string-encoded responses into series
//! of `fixed::Fixed` values and resolves ticker symbols to provider ids; the
//! indicator modules compute exact results (`fixed::Ratio`) over those series.
use vstd::prelude::*;
use crate::aroon_oscillator::{AROON_WINDOW, aroon_outcome};
use crate::crypto_client::{ParsedHistory, ParsedOhlc};
use crate::ema::{EMA_WINDOW, ema_outcome};
use crate::fibonacci_retracement::{FibonacciLevel, fibonacci_outcome_holds};
use crate::fixed::Ratio;
use crate::rsi::{RSI_WINDOW, rsi_outcome};
use crate::series::IndicatorError;
use crate::simple_moving_average::sma_outcome;
use crate::stochastic_oscillator::{STOCHASTIC_WINDOW, stochastic_outcome};

pub mod aroon_oscillator;
pub mod crypto_client;
pub mod ema;
pub mod fibonacci_retracement;
pub mod fixed;
pub mod rsi;
pub mod series;
pub mod simple_moving_average;
pub mod stochastic_oscillator;
pub mod text;

verus! {

/// No indicator computes over a series shorter than its window: each one
/// fails with `InsufficientData` instead, whatever else it is given. (The
/// Fibonacci levels need one candle.)
pub proof fn lemma_short_series_is_insufficient(
    c: Seq<ParsedOhlc>,
    h: Seq<ParsedHistory>,
    market: Seq<char>,
    extension: bool,
    levels: Result<Vec<FibonacciLevel>, IndicatorError>,
)
    ensures
        c.len() == 0 && fibonacci_outcome_holds(
            levels,
            c,
            market,
            extension,
        ) ==> levels == Err::<Vec<FibonacciLevel>, IndicatorError>(
            IndicatorError::InsufficientData,
        ),
        h.len() == 0 ==> sma_outcome(h) == Err::<Ratio, IndicatorError>(
            IndicatorError::InsufficientData,
        ),
        c.len() < EMA_WINDOW ==> ema_outcome(c) == Err::<Ratio, IndicatorError>(
            IndicatorError::InsufficientData,
        ),
        c.len() < RSI_WINDOW ==> rsi_outcome(c) == Err::<Ratio, IndicatorError>(
            IndicatorError::InsufficientData,
        ),
        c.len() < STOCHASTIC_WINDOW ==> stochastic_outcome(c) == Err::<Ratio, IndicatorError>(
            IndicatorError::InsufficientData,
        ),
        c.len() < AROON_WINDOW ==> aroon_outcome(c) is Err && aroon_outcome(c)->Err_0
            == IndicatorError::InsufficientData,
{
}

} // verus!
