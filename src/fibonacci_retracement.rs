//! Fibonacci retracement and extension levels of the most recent candle.
use vstd::prelude::*;
use crate::crypto_client::{ParsedOhlc, ParsedOhlcData};
use crate::fixed::{Ratio, SCALE};
use crate::series::IndicatorError;
use crate::text::{ascii_upper_seq, eq_ignore_ascii_case};

verus! {

/// Number of Fibonacci ratios.
pub const FIBONACCI_LEVELS: usize = 8;

/// Direction of the market trend.
#[derive(Clone, Copy, Debug, PartialEq, Eq, Structural)]
pub enum Trend {
    Up,
    Down,
}

/// One level: the ratio it stands for, in thousandths, and the price.
#[derive(Clone, Copy, Debug, PartialEq, Eq, Structural)]
pub struct FibonacciLevel {
    pub ratio_permille: u32,
    pub level: Ratio,
}

/// The trend that the token `s` names: `U` or `UPTREND`, `D` or `DOWNTREND`,
/// in any ASCII case.
pub open spec fn trend_of(s: Seq<char>) -> Option<Trend> {
    let u = ascii_upper_seq(s);
    if u == seq!['U'] || u == seq!['U', 'P', 'T', 'R', 'E', 'N', 'D'] {
        Some(Trend::Up)
    } else if u == seq!['D'] || u == seq!['D', 'O', 'W', 'N', 'T', 'R', 'E', 'N', 'D'] {
        Some(Trend::Down)
    } else {
        None
    }
}

/// The Fibonacci ratios, in thousandths:
/// 0, 0.236, 0.382, 0.5, 0.618, 0.764, 1 and 1.382.
pub open spec fn fibonacci_ratios() -> Seq<int> {
    seq![0, 236, 382, 500, 618, 764, 1000, 1382]
}

/// `(high - low) * ratio`, scaled by 1000 along with the ratio.
pub open spec fn delta(high: int, low: int, ratio_permille: int) -> int {
    (high - low) * ratio_permille
}

/// The retracement level for one ratio: `(high - delta) - delta` in an
/// uptrend, `(low + delta) - delta` in a downtrend.
pub open spec fn retracement_level(trend: Trend, c: ParsedOhlc, ratio_permille: int) -> Ratio {
    let high = c.high.units as int;
    let low = c.low.units as int;
    let d = delta(high, low, ratio_permille);
    let num = match trend {
        Trend::Up => (1000 * high - d) - d,
        Trend::Down => (1000 * low + d) - d,
    };
    Ratio { num: num as i128, den: (1000 * SCALE) as i128 }
}

/// The extension level for one ratio: `(high + delta) - delta` in an
/// uptrend, `(low - delta) - delta` in a downtrend.
pub open spec fn extension_level(trend: Trend, c: ParsedOhlc, ratio_permille: int) -> Ratio {
    let high = c.high.units as int;
    let low = c.low.units as int;
    let d = delta(high, low, ratio_permille);
    let num = match trend {
        Trend::Up => (1000 * high + d) - d,
        Trend::Down => (1000 * low - d) - d,
    };
    Ratio { num: num as i128, den: (1000 * SCALE) as i128 }
}

/// Whether `v` holds one level per Fibonacci ratio, in order, each the
/// retracement (`extension == false`) or extension level of `c`.
pub open spec fn fibonacci_levels(
    v: Seq<FibonacciLevel>,
    trend: Trend,
    c: ParsedOhlc,
    extension: bool,
) -> bool {
    &&& v.len() == FIBONACCI_LEVELS
    &&& forall|i: int|
        0 <= i < FIBONACCI_LEVELS ==> {
            &&& (#[trigger] v[i]).ratio_permille == fibonacci_ratios()[i]
            &&& v[i].level == if extension {
                extension_level(trend, c, fibonacci_ratios()[i])
            } else {
                retracement_level(trend, c, fibonacci_ratios()[i])
            }
        }
}

/// Reads a trend token: `U` or `UPTREND`, `D` or `DOWNTREND`, in any ASCII
/// case. Any other token is an `InvalidParameter`.
pub fn parse_trend(market: &str) -> (r: Result<Trend, IndicatorError>)
    ensures
        r is Ok <==> trend_of(market@) is Some,
        r matches Ok(t) ==> trend_of(market@) == Some(t),
        r matches Err(e) ==> e == IndicatorError::InvalidParameter,
{
    proof {
        reveal_strlit("U");
        reveal_strlit("UPTREND");
        reveal_strlit("D");
        reveal_strlit("DOWNTREND");
        assert(ascii_upper_seq("U"@) =~= seq!['U']);
        assert(ascii_upper_seq("UPTREND"@) =~= seq!['U', 'P', 'T', 'R', 'E', 'N', 'D']);
        assert(ascii_upper_seq("D"@) =~= seq!['D']);
        assert(ascii_upper_seq("DOWNTREND"@) =~= seq!['D', 'O', 'W', 'N', 'T', 'R', 'E', 'N', 'D']);
    }
    if eq_ignore_ascii_case(market, "U") || eq_ignore_ascii_case(market, "UPTREND") {
        Ok(Trend::Up)
    } else if eq_ignore_ascii_case(market, "D") || eq_ignore_ascii_case(market, "DOWNTREND") {
        Ok(Trend::Down)
    } else {
        Err(IndicatorError::InvalidParameter)
    }
}

/// The Fibonacci ratio at position `i`, in thousandths.
fn fibonacci_ratio(i: usize) -> (r: u32)
    requires
        i < FIBONACCI_LEVELS,
    ensures
        r == fibonacci_ratios()[i as int],
        r <= 1382,
{
    match i {
        0 => 0,
        1 => 236,
        2 => 382,
        3 => 500,
        4 => 618,
        5 => 764,
        6 => 1000,
        _ => 1382,
    }
}

/// The levels of candle `c` for every Fibonacci ratio.
fn levels(c: &ParsedOhlc, trend: Trend, extension: bool) -> (v: Vec<FibonacciLevel>)
    ensures
        fibonacci_levels(v@, trend, *c, extension),
{
    let high = c.high.units as i128;
    let low = c.low.units as i128;
    let mut v: Vec<FibonacciLevel> = Vec::new();
    let mut i: usize = 0;
    while i < FIBONACCI_LEVELS
        invariant
            high == c.high.units,
            low == c.low.units,
            i <= FIBONACCI_LEVELS,
            v.len() == i,
            forall|j: int|
                0 <= j < i ==> {
                    &&& (#[trigger] v@[j]).ratio_permille == fibonacci_ratios()[j]
                    &&& v@[j].level == if extension {
                        extension_level(trend, *c, fibonacci_ratios()[j])
                    } else {
                        retracement_level(trend, *c, fibonacci_ratios()[j])
                    }
                },
        decreases FIBONACCI_LEVELS - i,
    {
        let ratio = fibonacci_ratio(i);
        assert(-0x1_0000_0000_0000_0000 <= high - low <= 0x1_0000_0000_0000_0000);
        assert((high - low) * ratio <= 0x1_0000_0000_0000_0000 * 1382) by (nonlinear_arith)
            requires
                high - low <= 0x1_0000_0000_0000_0000,
                0 <= ratio <= 1382,
        ;
        assert((high - low) * ratio >= -0x1_0000_0000_0000_0000 * 1382) by (nonlinear_arith)
            requires
                high - low >= -0x1_0000_0000_0000_0000,
                0 <= ratio <= 1382,
        ;
        let d: i128 = (high - low) * ratio as i128;
        let num: i128 = if extension {
            match trend {
                Trend::Up => (1000 * high + d) - d,
                Trend::Down => (1000 * low - d) - d,
            }
        } else {
            match trend {
                Trend::Up => (1000 * high - d) - d,
                Trend::Down => (1000 * low + d) - d,
            }
        };
        v.push(FibonacciLevel { ratio_permille: ratio, level: Ratio { num, den: 1000 * SCALE as i128 } });
        i = i + 1;
    }
    v
}

/// What `fibonacci_retracement` (`extension == false`) or
/// `fibonacci_extension` returns: `InsufficientData` for an empty series,
/// then `InvalidParameter` for an unknown trend token, else the levels of the
/// most recent candle.
pub open spec fn fibonacci_outcome_holds(
    r: Result<Vec<FibonacciLevel>, IndicatorError>,
    c: Seq<ParsedOhlc>,
    market: Seq<char>,
    extension: bool,
) -> bool {
    if c.len() == 0 {
        r == Err::<Vec<FibonacciLevel>, IndicatorError>(IndicatorError::InsufficientData)
    } else {
        match trend_of(market) {
            None => r == Err::<Vec<FibonacciLevel>, IndicatorError>(
                IndicatorError::InvalidParameter,
            ),
            Some(t) => r matches Ok(v) && fibonacci_levels(v@, t, c[0], extension),
        }
    }
}

/// Fibonacci retracement levels of the most recent candle, for the trend
/// that `market` names.
pub fn fibonacci_retracement(data: &ParsedOhlcData, market: &str) -> (r: Result<
    Vec<FibonacciLevel>,
    IndicatorError,
>)
    ensures
        fibonacci_outcome_holds(r, data.ohlc@, market@, false),
{
    if data.ohlc.len() == 0 {
        return Err(IndicatorError::InsufficientData);
    }
    let trend = parse_trend(market)?;
    Ok(levels(&data.ohlc[0], trend, false))
}

/// Fibonacci extension levels of the most recent candle, for the trend that
/// `market` names.
pub fn fibonacci_extension(data: &ParsedOhlcData, market: &str) -> (r: Result<
    Vec<FibonacciLevel>,
    IndicatorError,
>)
    ensures
        fibonacci_outcome_holds(r, data.ohlc@, market@, true),
{
    if data.ohlc.len() == 0 {
        return Err(IndicatorError::InsufficientData);
    }
    let trend = parse_trend(market)?;
    Ok(levels(&data.ohlc[0], trend, true))
}

} // verus!
