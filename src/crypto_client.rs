//! The provider's response shapes, and their normalisation into series of
//! fixed-point candles and price points.
//!
//! The provider encodes every price as a decimal string. Normalising a
//! response parses each such field with `parse_decimal`; one field that does
//! not parse fails the whole response.
use vstd::prelude::*;
use crate::fixed::{Fixed, parse_decimal, is_decimal, decimal_units, fits_i64};
use crate::text::{ascii_upper_seq, eq_ignore_ascii_case};

verus! {

/// Most candles kept from one OHLC response.
pub const MAX_CANDLES: usize = 30;

/// Failures of symbol resolution and of fetching a series.
#[derive(Clone, Copy, Debug, PartialEq, Eq, Structural)]
pub enum CoinUuidErr {
    /// No candidate's ticker matches the symbol.
    CoinNotFound,
    /// The provider could not be reached.
    RequestError,
    /// The provider answered with this non-success HTTP status.
    StatusError(u16),
    /// A numeric field of the response is no decimal number.
    MalformedUpstreamData,
}

/// Answer to a search query.
#[derive(Clone, Debug, Default, PartialEq, Eq)]
pub struct Body {
    pub status: String,
    pub data: DataUuid,
}

#[derive(Clone, Debug, Default, PartialEq, Eq)]
pub struct DataUuid {
    pub coins: Vec<Coin>,
}

/// One search candidate.
#[derive(Clone, Debug, Default, PartialEq, Eq)]
pub struct Coin {
    pub uuid: String,
    pub icon_url: String,
    pub name: String,
    pub symbol: String,
    pub price: String,
}

/// Answer to a price-history query.
#[derive(Clone, Debug, Default, PartialEq, Eq)]
pub struct HistoryResponseData {
    pub status: String,
    pub data: DataHistory,
}

#[derive(Clone, Debug, Default, PartialEq, Eq)]
pub struct DataHistory {
    pub change: String,
    pub history: Vec<History>,
}

/// One raw price point.
#[derive(Clone, Debug, Default, PartialEq, Eq)]
pub struct History {
    pub price: String,
    pub timestamp: i64,
}

/// A normalised price series.
#[derive(Clone, Debug, PartialEq, Eq)]
pub struct ParsedDataHistory {
    pub history: Vec<ParsedHistory>,
}

/// A normalised price point.
#[derive(Clone, Copy, Debug, PartialEq, Eq, Structural)]
pub struct ParsedHistory {
    pub price: Fixed,
    pub timestamp: i64,
}

/// Answer to an OHLC query.
#[derive(Clone, Debug, Default, PartialEq, Eq)]
pub struct OhlcResponseData {
    pub status: String,
    pub data: Data,
}

#[derive(Clone, Debug, Default, PartialEq, Eq)]
pub struct Data {
    pub ohlc: Vec<Ohlc>,
}

/// One raw candle.
#[derive(Clone, Debug, Default, PartialEq, Eq)]
pub struct Ohlc {
    pub starting_at: i64,
    pub ending_at: i64,
    pub open: String,
    pub high: String,
    pub low: String,
    pub close: String,
    pub avg: String,
}

/// A normalised candle series, most recent candle first.
#[derive(Clone, Debug, PartialEq, Eq)]
pub struct ParsedOhlcData {
    pub ohlc: Vec<ParsedOhlc>,
}

/// A normalised candle.
#[derive(Clone, Copy, Debug, PartialEq, Eq, Structural)]
pub struct ParsedOhlc {
    pub starting_at: i64,
    pub ending_at: i64,
    pub open: Fixed,
    pub high: Fixed,
    pub low: Fixed,
    pub close: Fixed,
    pub avg: Fixed,
}

/// Whether the text `s` parses to a `Fixed`.
pub open spec fn parses(s: Seq<char>) -> bool {
    is_decimal(s) && fits_i64(decimal_units(s))
}

/// The `Fixed` that the text `s` parses to.
pub open spec fn parsed(s: Seq<char>) -> Fixed {
    Fixed { units: decimal_units(s) as i64 }
}

/// Whether every numeric field of `o` parses.
pub open spec fn ohlc_parses(o: Ohlc) -> bool {
    &&& parses(o.open@)
    &&& parses(o.high@)
    &&& parses(o.low@)
    &&& parses(o.close@)
    &&& parses(o.avg@)
}

/// The normalised form of `o`.
pub open spec fn parsed_ohlc(o: Ohlc) -> ParsedOhlc {
    ParsedOhlc {
        starting_at: o.starting_at,
        ending_at: o.ending_at,
        open: parsed(o.open@),
        high: parsed(o.high@),
        low: parsed(o.low@),
        close: parsed(o.close@),
        avg: parsed(o.avg@),
    }
}

/// The normalised form of `h`.
pub open spec fn parsed_history(h: History) -> ParsedHistory {
    ParsedHistory { price: parsed(h.price@), timestamp: h.timestamp }
}

/// How many candles of `n` received are kept.
pub open spec fn kept_candles(n: int) -> int {
    if n < MAX_CANDLES {
        n
    } else {
        MAX_CANDLES as int
    }
}

/// Whether the ticker `candidate` names the symbol `query`, ignoring ASCII case.
pub open spec fn symbol_matches(candidate: Seq<char>, query: Seq<char>) -> bool {
    ascii_upper_seq(candidate) == ascii_upper_seq(query)
}

/// Whether the candles are most recent first: each one starts strictly
/// after the candle stored after it.
pub open spec fn most_recent_first(c: Seq<ParsedOhlc>) -> bool {
    forall|i: int| 0 <= i < c.len() - 1 ==> (#[trigger] c[i]).starting_at > c[i + 1].starting_at
}

/// Checks the order every indicator relies on: most recent candle first.
pub fn is_most_recent_first(data: &ParsedOhlcData) -> (r: bool)
    ensures
        r == most_recent_first(data.ohlc@),
{
    let c = &data.ohlc;
    if c.len() == 0 {
        return true;
    }
    let mut i: usize = 1;
    while i < c.len()
        invariant
            c@ == data.ohlc@,
            1 <= i <= c.len(),
            forall|j: int|
                0 <= j < i - 1 ==> (#[trigger] c@[j]).starting_at > c@[j + 1].starting_at,
        decreases c.len() - i,
    {
        if c[i - 1].starting_at <= c[i].starting_at {
            assert(!most_recent_first(c@)) by {
                assert(c@[i - 1].starting_at <= c@[(i - 1) + 1].starting_at);
            }
            return false;
        }
        i = i + 1;
    }
    true
}

/// Address of the search query for `symbol`, sent verbatim.
pub fn search_url(base_url: &str, symbol: &str) -> (r: String)
    ensures
        r@ == base_url@ + "/search-suggestions?query="@ + symbol@,
{
    let mut url = String::from_str(base_url);
    url.append("/search-suggestions?query=");
    url.append(symbol);
    url
}

/// Address of the candle series of the coin `coin_uuid`.
pub fn ohlc_url(base_url: &str, coin_uuid: &str) -> (r: String)
    ensures
        r@ == base_url@ + "/coin/"@ + coin_uuid@ + "/ohlc"@,
{
    let mut url = String::from_str(base_url);
    url.append("/coin/");
    url.append(coin_uuid);
    url.append("/ohlc");
    url
}

/// Address of the price history of the coin `coin_uuid` over the window
/// `time` (such as `24h` or `7d`), which is forwarded as given.
pub fn history_url(base_url: &str, coin_uuid: &str, time: &str) -> (r: String)
    ensures
        r@ == base_url@ + "/coin/"@ + coin_uuid@ + "/history?timePeriod="@ + time@,
{
    let mut url = String::from_str(base_url);
    url.append("/coin/");
    url.append(coin_uuid);
    url.append("/history?timePeriod=");
    url.append(time);
    url
}

/// Parses one numeric field.
fn parse_field(s: &String) -> (r: Result<Fixed, CoinUuidErr>)
    ensures
        r is Ok <==> parses(s@),
        r matches Ok(f) ==> f == parsed(s@),
        r matches Err(e) ==> e == CoinUuidErr::MalformedUpstreamData,
{
    match parse_decimal(s.as_str()) {
        Some(f) => Ok(f),
        None => Err(CoinUuidErr::MalformedUpstreamData),
    }
}

/// Normalises one candle: every numeric field is parsed; timestamps are kept.
pub fn parse_ohlc(ohlc: &Ohlc) -> (r: Result<ParsedOhlc, CoinUuidErr>)
    ensures
        r is Ok <==> ohlc_parses(*ohlc),
        r matches Ok(p) ==> p == parsed_ohlc(*ohlc),
        r matches Err(e) ==> e == CoinUuidErr::MalformedUpstreamData,
{
    let open = parse_field(&ohlc.open)?;
    let high = parse_field(&ohlc.high)?;
    let low = parse_field(&ohlc.low)?;
    let close = parse_field(&ohlc.close)?;
    let avg = parse_field(&ohlc.avg)?;
    Ok(ParsedOhlc {
        starting_at: ohlc.starting_at,
        ending_at: ohlc.ending_at,
        open,
        high,
        low,
        close,
        avg,
    })
}

/// Normalises an OHLC response: the first `MAX_CANDLES` candles, in the order
/// received. Fails when any numeric field of a kept candle does not parse.
/// A field parses when `parse_decimal` accepts it: a plain decimal without
/// exponent, finite, and within the range of a `Fixed`.
pub fn parse_ohlc_data(response: &OhlcResponseData) -> (r: Result<ParsedOhlcData, CoinUuidErr>)
    ensures
        r is Ok <==> forall|i: int|
            0 <= i < kept_candles(response.data.ohlc@.len() as int)
                ==> ohlc_parses(#[trigger] response.data.ohlc@[i]),
        r matches Ok(d) ==> d.ohlc@ == response.data.ohlc@.take(
            kept_candles(response.data.ohlc@.len() as int),
        ).map_values(|o: Ohlc| parsed_ohlc(o)),
        r matches Err(e) ==> e == CoinUuidErr::MalformedUpstreamData,
{
    let raw = &response.data.ohlc;
    let n: usize = if raw.len() < MAX_CANDLES { raw.len() } else { MAX_CANDLES };
    let mut out: Vec<ParsedOhlc> = Vec::new();
    let mut i: usize = 0;
    while i < n
        invariant
            raw@ == response.data.ohlc@,
            n == kept_candles(raw@.len() as int),
            i <= n,
            out@ == raw@.take(i as int).map_values(|o: Ohlc| parsed_ohlc(o)),
            forall|j: int| 0 <= j < i ==> ohlc_parses(#[trigger] raw@[j]),
        decreases n - i,
    {
        let p = match parse_ohlc(&raw[i]) {
            Ok(p) => p,
            Err(e) => {
                assert(!ohlc_parses(raw@[i as int]));
                return Err(e);
            },
        };
        out.push(p);
        i = i + 1;
        assert(out@ =~= raw@.take(i as int).map_values(|o: Ohlc| parsed_ohlc(o)));
    }
    Ok(ParsedOhlcData { ohlc: out })
}

/// Normalises a price-history response, every point in the order received.
/// Fails when any price does not parse.
/// A price parses when `parse_decimal` accepts it: a plain decimal without
/// exponent, finite, and within the range of a `Fixed`.
pub fn parse_history_data(response: &HistoryResponseData) -> (r: Result<
    ParsedDataHistory,
    CoinUuidErr,
>)
    ensures
        r is Ok <==> forall|i: int|
            0 <= i < response.data.history@.len() ==> parses(
                (#[trigger] response.data.history@[i]).price@,
            ),
        r matches Ok(d) ==> d.history@ == response.data.history@.map_values(
            |h: History| parsed_history(h),
        ),
        r matches Err(e) ==> e == CoinUuidErr::MalformedUpstreamData,
{
    let raw = &response.data.history;
    let mut out: Vec<ParsedHistory> = Vec::new();
    let mut i: usize = 0;
    while i < raw.len()
        invariant
            raw@ == response.data.history@,
            i <= raw.len(),
            out@ == raw@.take(i as int).map_values(|h: History| parsed_history(h)),
            forall|j: int| 0 <= j < i ==> parses((#[trigger] raw@[j]).price@),
        decreases raw.len() - i,
    {
        let price = match parse_field(&raw[i].price) {
            Ok(f) => f,
            Err(e) => {
                assert(!parses(raw@[i as int].price@));
                return Err(e);
            },
        };
        out.push(ParsedHistory { price, timestamp: raw[i].timestamp });
        i = i + 1;
        assert(out@ =~= raw@.take(i as int).map_values(|h: History| parsed_history(h)));
    }
    assert(raw@.take(raw@.len() as int) =~= raw@);
    Ok(ParsedDataHistory { history: out })
}

/// The provider id of the first candidate in `coins` whose ticker matches
/// `query`; `None` when no ticker does.
pub open spec fn resolve_symbol(coins: Seq<Coin>, query: Seq<char>) -> Option<Seq<char>>
    decreases coins.len(),
{
    if coins.len() == 0 {
        None
    } else if symbol_matches(coins[0].symbol@, query) {
        Some(coins[0].uuid@)
    } else {
        resolve_symbol(coins.drop_first(), query)
    }
}

/// Resolves `symbol` against the candidates of a search answer: the provider
/// id of the first candidate whose ticker equals `symbol` once both are
/// upper-cased; `CoinNotFound` when none does.
pub fn find_coin_uuid(body: &Body, symbol: &str) -> (r: Result<String, CoinUuidErr>)
    ensures
        r is Ok <==> resolve_symbol(body.data.coins@, symbol@) is Some,
        r matches Ok(id) ==> resolve_symbol(body.data.coins@, symbol@) == Some(id@),
        r matches Err(e) ==> e == CoinUuidErr::CoinNotFound,
{
    let coins = &body.data.coins;
    let mut i: usize = 0;
    assert(coins@.skip(0) =~= coins@);
    while i < coins.len()
        invariant
            coins@ == body.data.coins@,
            i <= coins.len(),
            resolve_symbol(coins@, symbol@) == resolve_symbol(coins@.skip(i as int), symbol@),
        decreases coins.len() - i,
    {
        assert(coins@.skip(i as int)[0] == coins@[i as int]);
        assert(coins@.skip(i as int).drop_first() =~= coins@.skip(i + 1));
        if eq_ignore_ascii_case(coins[i].symbol.as_str(), symbol) {
            return Ok(coins[i].uuid.clone());
        }
        i = i + 1;
    }
    Err(CoinUuidErr::CoinNotFound)
}

/// Resolution sees the symbol only through its upper-cased form: two symbols
/// that differ only in ASCII case resolve alike.
pub proof fn lemma_resolution_ignores_case(coins: Seq<Coin>, a: Seq<char>, b: Seq<char>)
    requires
        ascii_upper_seq(a) == ascii_upper_seq(b),
    ensures
        resolve_symbol(coins, a) == resolve_symbol(coins, b),
    decreases coins.len(),
{
    if coins.len() > 0 {
        lemma_resolution_ignores_case(coins.drop_first(), a, b);
    }
}

/// Resolution is exact: it yields the id of a candidate whose ticker matches,
/// ahead of which no candidate matches, and fails only when no ticker matches.
pub proof fn lemma_resolution_exact(coins: Seq<Coin>, query: Seq<char>)
    ensures
        resolve_symbol(coins, query) is None <==> forall|i: int|
            0 <= i < coins.len() ==> !symbol_matches((#[trigger] coins[i]).symbol@, query),
        resolve_symbol(coins, query) matches Some(id) ==> exists|i: int|
            0 <= i < coins.len() && symbol_matches((#[trigger] coins[i]).symbol@, query)
                && coins[i].uuid@ == id && forall|j: int|
                0 <= j < i ==> !symbol_matches((#[trigger] coins[j]).symbol@, query),
    decreases coins.len(),
{
    if coins.len() > 0 {
        let rest = coins.drop_first();
        lemma_resolution_exact(rest, query);
        if !symbol_matches(coins[0].symbol@, query) {
            assert forall|i: int| 0 <= i < rest.len() implies rest[i] == coins[i + 1] by {}
            if resolve_symbol(rest, query) is None {
                assert forall|i: int| 0 <= i < coins.len() implies !symbol_matches(
                    (#[trigger] coins[i]).symbol@,
                    query,
                ) by {
                    if i > 0 {
                        assert(coins[i] == rest[i - 1]);
                    }
                }
            } else {
                let k = choose|k: int|
                    0 <= k < rest.len() && symbol_matches((#[trigger] rest[k]).symbol@, query)
                        && rest[k].uuid@ == resolve_symbol(rest, query)->Some_0 && forall|j: int|
                        0 <= j < k ==> !symbol_matches((#[trigger] rest[j]).symbol@, query);
                assert(coins[k + 1] == rest[k]);
                assert forall|j: int| 0 <= j < k + 1 implies !symbol_matches(
                    (#[trigger] coins[j]).symbol@,
                    query,
                ) by {
                    if j > 0 {
                        assert(coins[j] == rest[j - 1]);
                    }
                }
                assert(!(forall|i: int|
                    0 <= i < coins.len() ==> !symbol_matches((#[trigger] coins[i]).symbol@, query)));
            }
        }
    }
}

} // verus!
