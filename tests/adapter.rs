use taindicators::crypto_client::{
    find_coin_uuid, history_url, is_most_recent_first, ohlc_url, parse_history_data, parse_ohlc, parse_ohlc_data,
    search_url, Body, Coin, CoinUuidErr, Data, DataHistory, DataUuid, History,
    HistoryResponseData, Ohlc, OhlcResponseData, ParsedHistory, MAX_CANDLES,
};
use taindicators::fixed::{parse_decimal, Fixed};

fn coin(symbol: &str, uuid: &str) -> Coin {
    Coin {
        uuid: uuid.to_string(),
        icon_url: String::new(),
        name: symbol.to_string(),
        symbol: symbol.to_string(),
        price: "1.0".to_string(),
    }
}

fn body(coins: Vec<Coin>) -> Body {
    Body { status: "success".to_string(), data: DataUuid { coins } }
}

fn raw_candle(i: i64, close: &str) -> Ohlc {
    Ohlc {
        starting_at: 1000 - i,
        ending_at: 1001 - i,
        open: "1.5".to_string(),
        high: "2".to_string(),
        low: "0.25".to_string(),
        close: close.to_string(),
        avg: "1.125".to_string(),
    }
}

fn ohlc_response(candles: Vec<Ohlc>) -> OhlcResponseData {
    OhlcResponseData { status: "success".to_string(), data: Data { ohlc: candles } }
}

#[test]
fn symbol_resolution_ignores_case() {
    let b = body(vec![coin("ETH", "E"), coin("BTC", "X")]);
    assert_eq!(find_coin_uuid(&b, "btc"), Ok("X".to_string()));
    assert_eq!(find_coin_uuid(&b, "BTC"), Ok("X".to_string()));
    assert_eq!(find_coin_uuid(&b, "bTc"), Ok("X".to_string()));
}

#[test]
fn symbol_resolution_of_unknown_symbol_fails() {
    let b = body(vec![coin("BTC", "X")]);
    assert_eq!(find_coin_uuid(&b, "ZZZ"), Err(CoinUuidErr::CoinNotFound));
    assert_eq!(find_coin_uuid(&b, "BT"), Err(CoinUuidErr::CoinNotFound));
    assert_eq!(find_coin_uuid(&body(vec![]), "BTC"), Err(CoinUuidErr::CoinNotFound));
}

#[test]
fn symbol_resolution_takes_first_match() {
    let b = body(vec![coin("WBTC", "W"), coin("btc", "first"), coin("BTC", "second")]);
    assert_eq!(find_coin_uuid(&b, "BTC"), Ok("first".to_string()));
}

#[test]
fn decimal_parsing() {
    assert_eq!(parse_decimal("10"), Some(Fixed::from_units(1_000_000_000)));
    assert_eq!(parse_decimal("43123.12345678"), Some(Fixed::from_units(4_312_312_345_678)));
    assert_eq!(parse_decimal("0.5"), Some(Fixed::from_units(50_000_000)));
    assert_eq!(parse_decimal(".5"), Some(Fixed::from_units(50_000_000)));
    assert_eq!(parse_decimal("5."), Some(Fixed::from_units(500_000_000)));
    assert_eq!(parse_decimal("+2"), Some(Fixed::from_units(200_000_000)));
    assert_eq!(parse_decimal("-1.25"), Some(Fixed::from_units(-125_000_000)));
    assert_eq!(parse_decimal("007"), Some(Fixed::from_whole(7)));
}

#[test]
fn decimal_parsing_truncates_past_eight_digits() {
    assert_eq!(parse_decimal("0.123456789"), Some(Fixed::from_units(12_345_678)));
    assert_eq!(parse_decimal("-0.000000019"), Some(Fixed::from_units(-1)));
}

#[test]
fn decimal_parsing_rejects_malformed_text() {
    for s in ["", ".", "-", "+.", "abc", "1e5", "1.2.3", "1,5", " 1", "--1", "NaN", "inf", "1\u{663}"] {
        assert_eq!(parse_decimal(s), None, "{:?}", s);
    }
}

#[test]
fn decimal_parsing_rejects_out_of_range_values() {
    assert_eq!(parse_decimal("92233720368.54775807"), Some(Fixed::from_units(i64::MAX)));
    assert_eq!(parse_decimal("-92233720368.54775808"), Some(Fixed::from_units(i64::MIN)));
    assert_eq!(parse_decimal("92233720368.54775808"), None);
    assert_eq!(parse_decimal("100000000000"), None);
    assert_eq!(parse_decimal("999999999999999999999999999"), None);
}

#[test]
fn candle_parsing() {
    let p = parse_ohlc(&raw_candle(0, "1.75")).unwrap();
    assert_eq!(p.starting_at, 1000);
    assert_eq!(p.ending_at, 1001);
    assert_eq!(p.open, Fixed::from_units(150_000_000));
    assert_eq!(p.high, Fixed::from_units(200_000_000));
    assert_eq!(p.low, Fixed::from_units(25_000_000));
    assert_eq!(p.close, Fixed::from_units(175_000_000));
    assert_eq!(p.avg, Fixed::from_units(112_500_000));
}

#[test]
fn candle_with_bad_field_is_malformed() {
    let mut c = raw_candle(0, "1.75");
    c.avg = "n/a".to_string();
    assert_eq!(parse_ohlc(&c), Err(CoinUuidErr::MalformedUpstreamData));
}

#[test]
fn ohlc_response_keeps_thirty_candles_in_order() {
    let candles: Vec<Ohlc> = (0..35).map(|i| raw_candle(i, &format!("{}.5", i))).collect();
    let d = parse_ohlc_data(&ohlc_response(candles)).unwrap();
    assert_eq!(d.ohlc.len(), MAX_CANDLES);
    for (i, c) in d.ohlc.iter().enumerate() {
        assert_eq!(c.starting_at, 1000 - i as i64);
        assert_eq!(c.close, Fixed::from_units(i as i64 * 100_000_000 + 50_000_000));
    }
}

#[test]
fn ohlc_response_shorter_than_thirty_is_kept_whole() {
    let candles: Vec<Ohlc> = (0..3).map(|i| raw_candle(i, "1")).collect();
    let d = parse_ohlc_data(&ohlc_response(candles)).unwrap();
    assert_eq!(d.ohlc.len(), 3);
}

#[test]
fn ohlc_response_with_one_bad_candle_fails() {
    let mut candles: Vec<Ohlc> = (0..10).map(|i| raw_candle(i, "1")).collect();
    candles[6].high = "".to_string();
    assert_eq!(
        parse_ohlc_data(&ohlc_response(candles)),
        Err(CoinUuidErr::MalformedUpstreamData)
    );
}

#[test]
fn ohlc_response_ignores_bad_candles_past_thirty() {
    let mut candles: Vec<Ohlc> = (0..31).map(|i| raw_candle(i, "1")).collect();
    candles[30].close = "bad".to_string();
    assert_eq!(parse_ohlc_data(&ohlc_response(candles)).unwrap().ohlc.len(), 30);
}

#[test]
fn history_response_parsing() {
    let response = HistoryResponseData {
        status: "success".to_string(),
        data: DataHistory {
            change: "1.2".to_string(),
            history: vec![
                History { price: "10.5".to_string(), timestamp: 3 },
                History { price: "20".to_string(), timestamp: 2 },
            ],
        },
    };
    let d = parse_history_data(&response).unwrap();
    assert_eq!(
        d.history,
        vec![
            ParsedHistory { price: Fixed::from_units(1_050_000_000), timestamp: 3 },
            ParsedHistory { price: Fixed::from_whole(20), timestamp: 2 },
        ]
    );
}

#[test]
fn history_response_with_bad_price_fails() {
    let response = HistoryResponseData {
        status: "success".to_string(),
        data: DataHistory {
            change: "0".to_string(),
            history: vec![History { price: "ten".to_string(), timestamp: 1 }],
        },
    };
    assert_eq!(parse_history_data(&response), Err(CoinUuidErr::MalformedUpstreamData));
}

#[test]
fn endpoint_addresses() {
    assert_eq!(
        search_url("https://api.example", "btc"),
        "https://api.example/search-suggestions?query=btc"
    );
    assert_eq!(ohlc_url("https://api.example", "Qwsogvtv82FCd"), "https://api.example/coin/Qwsogvtv82FCd/ohlc");
    assert_eq!(
        history_url("https://api.example", "Qwsogvtv82FCd", "7d"),
        "https://api.example/coin/Qwsogvtv82FCd/history?timePeriod=7d"
    );
}

#[test]
fn candle_order_check() {
    let newest_first: Vec<Ohlc> = (0..5).map(|i| raw_candle(i, "1")).collect();
    let d = parse_ohlc_data(&ohlc_response(newest_first)).unwrap();
    assert!(is_most_recent_first(&d));
    let oldest_first: Vec<Ohlc> = (0..5).rev().map(|i| raw_candle(i, "1")).collect();
    let d = parse_ohlc_data(&ohlc_response(oldest_first)).unwrap();
    assert!(!is_most_recent_first(&d));
    let repeated: Vec<Ohlc> = vec![raw_candle(1, "1"), raw_candle(1, "1")];
    let d = parse_ohlc_data(&ohlc_response(repeated)).unwrap();
    assert!(!is_most_recent_first(&d));
    let d = parse_ohlc_data(&ohlc_response(vec![])).unwrap();
    assert!(is_most_recent_first(&d));
}
