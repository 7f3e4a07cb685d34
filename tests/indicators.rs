use taindicators::aroon_oscillator::aroon_oscillator;
use taindicators::crypto_client::{ParsedDataHistory, ParsedHistory, ParsedOhlc, ParsedOhlcData};
use taindicators::ema::{exponential_moving_average, EMA_PRECISION};
use taindicators::fibonacci_retracement::{
    fibonacci_extension, fibonacci_retracement, parse_trend, Trend,
};
use taindicators::fixed::{Fixed, Ratio, SCALE};
use taindicators::rsi::rsi;
use taindicators::series::IndicatorError;
use taindicators::simple_moving_average::simple_moving_average;
use taindicators::stochastic_oscillator::stochastic_oscillator;

const S: i128 = SCALE as i128;
/// Denominator of every EMA: the accumulator counts in 10^-25.
const EMA_DEN: i128 = S * EMA_PRECISION;

fn whole(n: i64) -> Fixed {
    Fixed::from_units(n * SCALE)
}

fn candle(high: i64, low: i64, close: i64) -> ParsedOhlc {
    ParsedOhlc {
        starting_at: 0,
        ending_at: 0,
        open: whole(close),
        high: whole(high),
        low: whole(low),
        close: whole(close),
        avg: whole(close),
    }
}

fn series(candles: Vec<ParsedOhlc>) -> ParsedOhlcData {
    ParsedOhlcData { ohlc: candles }
}

fn closes(values: &[i64]) -> ParsedOhlcData {
    series(values.iter().map(|&c| candle(c, c, c)).collect())
}

fn prices(values: &[i64]) -> ParsedDataHistory {
    ParsedDataHistory {
        history: values
            .iter()
            .enumerate()
            .map(|(i, &p)| ParsedHistory { price: whole(p), timestamp: i as i64 })
            .collect(),
    }
}

/// Whether the ratio `r` equals `num / den`.
fn ratio_is(r: Ratio, num: i128, den: i128) -> bool {
    r.den > 0 && r.num * den == num * r.den
}

#[test]
fn sma_of_ten_twenty_thirty_is_twenty() {
    let r = simple_moving_average(&prices(&[10, 20, 30])).unwrap();
    assert_eq!(r, Ratio { num: 60 * S, den: 3 * S });
    assert!(ratio_is(r, 20, 1));
    assert_eq!(r.num as f64 / r.den as f64, 20.0);
}

#[test]
fn sma_ignores_order() {
    let a = simple_moving_average(&prices(&[10, 20, 30, 7])).unwrap();
    let b = simple_moving_average(&prices(&[7, 30, 10, 20])).unwrap();
    assert_eq!(a, b);
    assert!(ratio_is(a, 67, 4));
}

#[test]
fn sma_of_fractional_prices() {
    let h = ParsedDataHistory {
        history: vec![
            ParsedHistory { price: Fixed::from_units(1), timestamp: 1 },
            ParsedHistory { price: Fixed::from_units(2), timestamp: 2 },
        ],
    };
    let r = simple_moving_average(&h).unwrap();
    assert_eq!(r, Ratio { num: 3, den: 2 * S });
}

#[test]
fn sma_of_empty_series_is_insufficient() {
    let r = simple_moving_average(&prices(&[]));
    assert_eq!(r, Err(IndicatorError::InsufficientData));
}

#[test]
fn ema_of_twenty_zero_closes_is_zero() {
    let r = exponential_moving_average(&closes(&[0; 20])).unwrap();
    assert_eq!(r, Ratio { num: 0, den: EMA_DEN });
}

#[test]
fn ema_of_constant_closes_falls_short_of_them() {
    // The fold starts from 0, so twenty closes of 10 do not reach 10.
    let r = exponential_moving_average(&closes(&[10; 20])).unwrap();
    assert_eq!(r, Ratio { num: 86489042608619386281967609, den: EMA_DEN });
}

#[test]
fn ema_folds_from_most_recent_candle() {
    let values: Vec<i64> = (1..=20).collect();
    let r = exponential_moving_average(&closes(&values)).unwrap();
    assert_eq!(r, Ratio { num: 117835409521811583032130762, den: EMA_DEN });
}

#[test]
fn ema_weighs_one_close_by_its_place_in_the_fold() {
    // Raising the close at index 3 by 2 moves the EMA by k * (1 - k)^16 * 2.
    let base = exponential_moving_average(&closes(&[5; 20])).unwrap();
    let mut values = vec![5; 20];
    values[3] = 7;
    let moved = exponential_moving_average(&closes(&values)).unwrap();
    assert_eq!(base.num, 43244521304309693140983802);
    assert_eq!(moved.num, 43628572919633626700863479);
    let k = 2.0 / 21.0;
    let expected = k * (1.0f64 - k).powi(16) * 2.0;
    let change = (moved.num - base.num) as f64 / EMA_DEN as f64;
    assert!((change - expected).abs() < 1e-12);
}

#[test]
fn ema_uses_only_twenty_candles() {
    let mut values = vec![10; 20];
    values.push(1000);
    let a = exponential_moving_average(&closes(&values)).unwrap();
    let b = exponential_moving_average(&closes(&[10; 20])).unwrap();
    assert_eq!(a, b);
}

#[test]
fn ema_of_short_series_is_insufficient() {
    let r = exponential_moving_average(&closes(&[10; 19]));
    assert_eq!(r, Err(IndicatorError::InsufficientData));
}

#[test]
fn rsi_of_alternating_closes() {
    let r = rsi(&closes(&[10, 12, 11, 13, 12, 14, 13, 15, 14, 16, 15, 17, 16, 18])).unwrap();
    assert_eq!(r, Ratio { num: 100 * 6 * S, den: 20 * S });
    assert!(ratio_is(r, 30, 1));
}

#[test]
fn rsi_of_rising_closes_is_undefined() {
    // Most recent first: closes that rise over time fall along the series.
    let values: Vec<i64> = (0..15).map(|i| 100 - i).collect();
    assert_eq!(rsi(&closes(&values)), Err(IndicatorError::DivisionUndefined));
}

#[test]
fn rsi_of_falling_closes_is_zero() {
    let values: Vec<i64> = (0..15).map(|i| 100 + i).collect();
    let r = rsi(&closes(&values)).unwrap();
    assert_eq!(r, Ratio { num: 0, den: 13 * S });
}

#[test]
fn rsi_of_short_series_is_insufficient() {
    assert_eq!(rsi(&closes(&[1; 13])), Err(IndicatorError::InsufficientData));
}

#[test]
fn aroon_with_recent_high_and_old_low() {
    let mut candles: Vec<ParsedOhlc> = (0..25).map(|i| candle(100 - i, 50 - i, 60)).collect();
    candles.push(candle(10, 0, 5));
    let a = aroon_oscillator(&series(candles)).unwrap();
    assert!(ratio_is(a.up, 100, 1));
    assert!(ratio_is(a.down, 4, 1));
    assert!(ratio_is(a.oscillator, 96, 1));
    assert_eq!(a.up, Ratio { num: 2500, den: 25 });
    assert_eq!(a.down, Ratio { num: 100, den: 25 });
}

#[test]
fn aroon_takes_first_of_equal_extremes() {
    let candles: Vec<ParsedOhlc> = (0..25)
        .map(|i| if i == 3 || i == 7 { candle(200, 1, 50) } else { candle(100, 10, 50) })
        .collect();
    let a = aroon_oscillator(&series(candles)).unwrap();
    assert!(ratio_is(a.up, 88, 1));
    assert!(ratio_is(a.down, 88, 1));
    assert!(ratio_is(a.oscillator, 0, 1));
}

#[test]
fn aroon_of_ten_candles_is_insufficient() {
    let candles: Vec<ParsedOhlc> = (0..10).map(|_| candle(2, 1, 1)).collect();
    assert_eq!(aroon_oscillator(&series(candles)), Err(IndicatorError::InsufficientData));
}

#[test]
fn stochastic_of_mid_range_close() {
    let mut candles: Vec<ParsedOhlc> = (0..14).map(|_| candle(18, 12, 15)).collect();
    candles[3] = candle(20, 15, 16);
    candles[9] = candle(16, 10, 11);
    let r = stochastic_oscillator(&series(candles)).unwrap();
    assert_eq!(r, Ratio { num: 100 * 5 * S, den: 10 * S });
    assert!(ratio_is(r, 50, 1));
}

#[test]
fn stochastic_of_flat_window_is_undefined() {
    let candles: Vec<ParsedOhlc> = (0..14).map(|_| candle(7, 7, 7)).collect();
    assert_eq!(stochastic_oscillator(&series(candles)), Err(IndicatorError::DivisionUndefined));
}

#[test]
fn stochastic_of_short_series_is_insufficient() {
    let candles: Vec<ParsedOhlc> = (0..13).map(|_| candle(9, 7, 8)).collect();
    assert_eq!(stochastic_oscillator(&series(candles)), Err(IndicatorError::InsufficientData));
}

#[test]
fn retracement_in_uptrend() {
    let data = series(vec![candle(100, 50, 70)]);
    let v = fibonacci_retracement(&data, "UPTREND").unwrap();
    let ratios: Vec<u32> = v.iter().map(|l| l.ratio_permille).collect();
    assert_eq!(ratios, vec![0, 236, 382, 500, 618, 764, 1000, 1382]);
    assert!(ratio_is(v[0].level, 100, 1));
    assert!(ratio_is(v[1].level, 764, 10));
    assert!(ratio_is(v[3].level, 50, 1));
    assert!(ratio_is(v[6].level, 0, 1));
    assert!(ratio_is(v[7].level, -382, 10));
    assert_eq!(v[3].level, Ratio { num: 50 * 1000 * S, den: 1000 * S });
}

#[test]
fn retracement_in_downtrend_stays_at_low() {
    let data = series(vec![candle(100, 50, 70)]);
    let v = fibonacci_retracement(&data, "d").unwrap();
    assert_eq!(v.len(), 8);
    for level in &v {
        assert!(ratio_is(level.level, 50, 1));
    }
}

#[test]
fn extension_levels() {
    let data = series(vec![candle(100, 50, 70)]);
    let up = fibonacci_extension(&data, "u").unwrap();
    for level in &up {
        assert!(ratio_is(level.level, 100, 1));
    }
    let down = fibonacci_extension(&data, "DownTrend").unwrap();
    assert!(ratio_is(down[0].level, 50, 1));
    assert!(ratio_is(down[3].level, 0, 1));
    assert!(ratio_is(down[6].level, -50, 1));
}

#[test]
fn fibonacci_rejects_unknown_trend() {
    let data = series(vec![candle(100, 50, 70)]);
    assert_eq!(fibonacci_retracement(&data, "SIDEWAYS"), Err(IndicatorError::InvalidParameter));
    assert_eq!(fibonacci_extension(&data, "UP"), Err(IndicatorError::InvalidParameter));
}

#[test]
fn fibonacci_checks_series_before_trend() {
    assert_eq!(fibonacci_retracement(&series(vec![]), "sideways"), Err(IndicatorError::InsufficientData));
    assert_eq!(fibonacci_extension(&series(vec![]), "SIDEWAYS"), Err(IndicatorError::InsufficientData));
}

#[test]
fn fibonacci_of_empty_series_is_insufficient() {
    assert_eq!(fibonacci_retracement(&series(vec![]), "U"), Err(IndicatorError::InsufficientData));
    assert_eq!(fibonacci_extension(&series(vec![]), "D"), Err(IndicatorError::InsufficientData));
}

#[test]
fn trend_tokens_ignore_case() {
    assert_eq!(parse_trend("uptrend"), Ok(Trend::Up));
    assert_eq!(parse_trend("U"), Ok(Trend::Up));
    assert_eq!(parse_trend("downTREND"), Ok(Trend::Down));
    assert_eq!(parse_trend("d"), Ok(Trend::Down));
    assert_eq!(parse_trend(""), Err(IndicatorError::InvalidParameter));
    assert_eq!(parse_trend("UPTRENDS"), Err(IndicatorError::InvalidParameter));
}
