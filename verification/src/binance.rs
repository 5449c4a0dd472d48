//! What the Binance futures client computes: request signatures, query
//! strings and URLs, and the market data and account figures it reads from
//! the exchange's replies.
use vstd::prelude::*;
use vstd::string::StringExecFns;
use vstd::string::StringExecFnsIsAscii;
use vstd::utf8::encode_utf8;
use hmac::{Hmac, Mac};
use sha2::Sha256;
use crate::decimal::{Dec, dec_parse, dec_to_string, decimal_parse, decimal_text};
use crate::text::{i64_to_string, int_text};
use crate::types::{Exchange, InstrumentType, OrderBookSnapshot, Position, PriceLevel, Side, Symbol};

verus! {

/// The futures market data stream endpoint.
pub open spec fn ws_base() -> Seq<char> {
    "wss://fstream.binance.com/ws"@
}

/// The futures REST endpoint.
pub open spec fn api_base() -> Seq<char> {
    "https://fapi.binance.com"@
}

/// The HMAC-SHA256 tag of `message` under `key` (bytes to bytes).
pub uninterp spec fn hmac_sha256_of(key: Seq<u8>, message: Seq<u8>) -> Seq<u8>;

/// HMAC-SHA256 (`Hmac::<Sha256>::new_from_slice`, `update`, `finalize`): the
/// 32-byte tag of `message` under `key`. Any key length is accepted.
#[verifier::external_body]
fn hmac_sha256(key: &[u8], message: &[u8]) -> (r: Vec<u8>)
    ensures
        r@ == hmac_sha256_of(key@, message@),
        r@.len() == 32,
{
    let mut mac = Hmac::<Sha256>::new_from_slice(key).expect("HMAC takes a key of any size");
    mac.update(message);
    mac.finalize().into_bytes().to_vec()
}

/// The lowercase hexadecimal digit for `d` in `0..16`.
pub open spec fn hex_digit(d: int) -> char {
    if d < 10 {
        ('0' as int + d) as char
    } else {
        ('a' as int + (d - 10)) as char
    }
}

/// Each byte as two lowercase hexadecimal digits, high nibble first.
pub open spec fn hex_text(bytes: Seq<u8>) -> Seq<char>
    decreases bytes.len(),
{
    if bytes.len() == 0 {
        Seq::empty()
    } else {
        hex_text(bytes.drop_last()) + seq![
            hex_digit(bytes.last() as int / 16),
            hex_digit(bytes.last() as int % 16),
        ]
    }
}

/// `hex::encode`: the bytes in lowercase hexadecimal.
#[verifier::external_body]
fn hex_encode(bytes: &[u8]) -> (r: String)
    ensures
        r@ == hex_text(bytes@),
{
    hex::encode(bytes)
}

/// The lowercase form of a text (`str::to_lowercase`, Unicode rules).
pub uninterp spec fn lowercase_of(s: Seq<char>) -> Seq<char>;

/// `str::to_lowercase`.
#[verifier::external_body]
fn to_lowercase(s: &str) -> (r: String)
    ensures
        r@ == lowercase_of(s@),
{
    s.to_lowercase()
}

/// The signature of a query string: HMAC-SHA256 of its UTF-8 bytes under the
/// secret's, in lowercase hexadecimal.
pub fn sign(api_secret: &str, params: &str) -> (r: String)
    ensures
        r@ == hex_text(hmac_sha256_of(encode_utf8(api_secret@), encode_utf8(params@))),
{
    let tag = hmac_sha256(api_secret.as_bytes(), params.as_bytes());
    hex_encode(tag.as_slice())
}

/// Binance's name of a symbol: base then quote ("BTC/USDT-PERP" -> "BTCUSDT").
pub fn format_symbol(symbol: &Symbol) -> (r: String)
    ensures
        r@ == symbol.base@ + symbol.quote@,
{
    let mut s = symbol.base.clone();
    s.append(symbol.quote.as_str());
    s
}

/// "BUY" or "SELL".
pub open spec fn side_text(side: Side) -> Seq<char> {
    match side {
        Side::Buy => "BUY"@,
        Side::Sell => "SELL"@,
    }
}

/// The query of a limit order, good till cancelled.
pub open spec fn limit_order_query(symbol: Symbol, side: Side, quantity: Dec, price: Dec, timestamp_ms: i64) -> Seq<char> {
    "symbol="@ + symbol.base@ + symbol.quote@ + "&side="@ + side_text(side)
        + "&type=LIMIT&timeInForce=GTC&quantity="@ + decimal_text(quantity) + "&price="@
        + decimal_text(price) + "&timestamp="@ + int_text(timestamp_ms as int)
}

/// The query of a market order.
pub open spec fn market_order_query(symbol: Symbol, side: Side, quantity: Dec, timestamp_ms: i64) -> Seq<char> {
    "symbol="@ + symbol.base@ + symbol.quote@ + "&side="@ + side_text(side) + "&type=MARKET&quantity="@
        + decimal_text(quantity) + "&timestamp="@ + int_text(timestamp_ms as int)
}

fn side_string(side: Side) -> (r: String)
    ensures
        r@ == side_text(side),
{
    match side {
        Side::Buy => String::from_str("BUY"),
        Side::Sell => String::from_str("SELL"),
    }
}

/// The query string of a limit order.
pub fn limit_order_params(symbol: &Symbol, side: Side, quantity: Dec, price: Dec, timestamp_ms: i64) -> (r:
    String)
    ensures
        r@ == limit_order_query(*symbol, side, quantity, price, timestamp_ms),
{
    let mut s = String::from_str("symbol=");
    let name = format_symbol(symbol);
    s.append(name.as_str());
    s.append("&side=");
    let side_str = side_string(side);
    s.append(side_str.as_str());
    s.append("&type=LIMIT&timeInForce=GTC&quantity=");
    let q = dec_to_string(quantity);
    s.append(q.as_str());
    s.append("&price=");
    let p = dec_to_string(price);
    s.append(p.as_str());
    s.append("&timestamp=");
    let t = i64_to_string(timestamp_ms);
    s.append(t.as_str());
    proof {
        assert(s@ =~= limit_order_query(*symbol, side, quantity, price, timestamp_ms));
    }
    s
}

/// The query string of a market order.
pub fn market_order_params(symbol: &Symbol, side: Side, quantity: Dec, timestamp_ms: i64) -> (r: String)
    ensures
        r@ == market_order_query(*symbol, side, quantity, timestamp_ms),
{
    let mut s = String::from_str("symbol=");
    let name = format_symbol(symbol);
    s.append(name.as_str());
    s.append("&side=");
    let side_str = side_string(side);
    s.append(side_str.as_str());
    s.append("&type=MARKET&quantity=");
    let q = dec_to_string(quantity);
    s.append(q.as_str());
    s.append("&timestamp=");
    let t = i64_to_string(timestamp_ms);
    s.append(t.as_str());
    proof {
        assert(s@ =~= market_order_query(*symbol, side, quantity, timestamp_ms));
    }
    s
}

/// The query string of a cancellation.
pub fn cancel_order_params(symbol: &Symbol, order_id: &str, timestamp_ms: i64) -> (r: String)
    ensures
        r@ == "symbol="@ + symbol.base@ + symbol.quote@ + "&orderId="@ + order_id@ + "&timestamp="@
            + int_text(timestamp_ms as int),
{
    let mut s = String::from_str("symbol=");
    let name = format_symbol(symbol);
    s.append(name.as_str());
    s.append("&orderId=");
    s.append(order_id);
    s.append("&timestamp=");
    let t = i64_to_string(timestamp_ms);
    s.append(t.as_str());
    proof {
        assert(s@ =~= "symbol="@ + symbol.base@ + symbol.quote@ + "&orderId="@ + order_id@
            + "&timestamp="@ + int_text(timestamp_ms as int));
    }
    s
}

/// The query string holding only the timestamp.
pub fn timestamp_params(timestamp_ms: i64) -> (r: String)
    ensures
        r@ == "timestamp="@ + int_text(timestamp_ms as int),
{
    let mut s = String::from_str("timestamp=");
    let t = i64_to_string(timestamp_ms);
    s.append(t.as_str());
    s
}

/// A signed REST URL: the endpoint, the path, the query and its signature.
pub fn signed_url(path: &str, params: &str, signature: &str) -> (r: String)
    ensures
        r@ == api_base() + path@ + "?"@ + params@ + "&signature="@ + signature@,
{
    let mut s = String::from_str("https://fapi.binance.com");
    s.append(path);
    s.append("?");
    s.append(params);
    s.append("&signature=");
    s.append(signature);
    proof {
        reveal_strlit("https://fapi.binance.com");
        assert(s@ =~= api_base() + path@ + "?"@ + params@ + "&signature="@ + signature@);
    }
    s
}

/// The URL of the funding rate and mark price of a symbol.
pub fn premium_index_url(symbol: &Symbol) -> (r: String)
    ensures
        r@ == api_base() + "/fapi/v1/premiumIndex?symbol="@ + symbol.base@ + symbol.quote@,
{
    let mut s = String::from_str("https://fapi.binance.com/fapi/v1/premiumIndex?symbol=");
    let name = format_symbol(symbol);
    s.append(name.as_str());
    proof {
        reveal_strlit("https://fapi.binance.com/fapi/v1/premiumIndex?symbol=");
        reveal_strlit("https://fapi.binance.com");
        reveal_strlit("/fapi/v1/premiumIndex?symbol=");
        assert(s@ =~= api_base() + "/fapi/v1/premiumIndex?symbol="@ + symbol.base@ + symbol.quote@);
    }
    s
}

/// The funding rate in the `lastFundingRate` text of a premium index reply:
/// the decimal it reads as, if any.
pub fn parse_funding_rate(text: &str) -> (r: Option<Dec>)
    ensures
        r == decimal_parse(text@),
{
    dec_parse(text)
}

/// The depth stream of a symbol: 20 levels every 100 ms, the symbol's name
/// in lowercase.
pub fn depth_stream_url(symbol: &Symbol) -> (r: String)
    ensures
        r@ == ws_base() + lowercase_of(symbol.base@ + symbol.quote@) + "@depth20@100ms"@,
{
    let name = format_symbol(symbol);
    let lower = to_lowercase(name.as_str());
    let mut s = String::from_str("wss://fstream.binance.com/ws");
    s.append(lower.as_str());
    s.append("@depth20@100ms");
    s
}

// ---------------------------------------------------------------------------
// Reading replies

/// A price level from two texts, when both read as decimals.
pub open spec fn level_of(raw: (String, String)) -> Option<PriceLevel> {
    match (decimal_parse(raw.0@), decimal_parse(raw.1@)) {
        (Some(price), Some(quantity)) => Some(PriceLevel { price, quantity }),
        _ => None,
    }
}

/// The levels of the first `n` entries that read as decimals, in order.
pub open spec fn levels_of(raw: Seq<(String, String)>, n: nat) -> Seq<PriceLevel>
    decreases n,
{
    if n == 0 {
        Seq::empty()
    } else {
        match level_of(raw[n - 1]) {
            Some(l) => levels_of(raw, (n - 1) as nat).push(l),
            None => levels_of(raw, (n - 1) as nat),
        }
    }
}

/// The levels of a depth update, price and quantity as texts; entries that
/// do not read as decimals are skipped.
pub fn parse_levels(raw: &Vec<(String, String)>) -> (r: Vec<PriceLevel>)
    ensures
        r@ == levels_of(raw@, raw@.len()),
{
    let mut out: Vec<PriceLevel> = Vec::new();
    let n = raw.len();
    let mut i: usize = 0;
    while i < n
        invariant
            0 <= i <= n,
            n == raw@.len(),
            out@ == levels_of(raw@, i as nat),
        decreases n - i,
    {
        let price = dec_parse(raw[i].0.as_str());
        let quantity = dec_parse(raw[i].1.as_str());
        match (price, quantity) {
            (Some(p), Some(q)) => {
                out.push(PriceLevel::new(p, q));
            },
            _ => {},
        }
        i = i + 1;
    }
    out
}

/// A depth update of the futures stream.
#[derive(Debug)]
pub struct DepthUpdate {
    pub event_time: u64,
    pub first_update_id: u64,
    pub final_update_id: u64,
    pub bids: Vec<(String, String)>,
    pub asks: Vec<(String, String)>,
}

/// The snapshot a depth update gives, received at `now_ns`: the levels that
/// read as decimals, sequenced by the update's final id.
pub fn depth_snapshot(update: &DepthUpdate, symbol: &Symbol, now_ns: u64) -> (r: OrderBookSnapshot)
    ensures
        r.exchange == Exchange::Binance,
        r.symbol == *symbol,
        r.bids@ == levels_of(update.bids@, update.bids@.len()),
        r.asks@ == levels_of(update.asks@, update.asks@.len()),
        r.timestamp_ns == now_ns,
        r.sequence == update.final_update_id,
{
    OrderBookSnapshot {
        exchange: Exchange::Binance,
        symbol: symbol.clone(),
        bids: parse_levels(&update.bids),
        asks: parse_levels(&update.asks),
        timestamp_ns: now_ns,
        sequence: update.final_update_id,
    }
}

/// A position as the exchange reports it, every figure as text.
#[derive(Debug)]
pub struct PositionRisk {
    pub symbol: String,
    pub position_amt: String,
    pub entry_price: String,
    pub mark_price: String,
    pub un_realized_profit: String,
    pub leverage: String,
}

/// A reported position whose quantity reads as a non-zero decimal names its
/// symbol in ASCII, base first in three letters.
pub open spec fn risk_named(p: PositionRisk) -> bool {
    decimal_parse(p.position_amt@) matches Some(q) && q.val() != 0 ==> {
        &&& vstd::utf8::is_ascii_chars(p.symbol@)
        &&& p.symbol@.len() >= 3
    }
}

/// The figures of a report (quantity, entry price, mark price, unrealized
/// profit, leverage): none when the quantity does not read or is zero, or
/// another figure does not read.
pub open spec fn risk_figures(p: PositionRisk) -> Option<(Dec, Dec, Dec, Dec, Dec)> {
    match (
        decimal_parse(p.position_amt@),
        decimal_parse(p.entry_price@),
        decimal_parse(p.mark_price@),
        decimal_parse(p.un_realized_profit@),
        decimal_parse(p.leverage@),
    ) {
        (Some(q), Some(entry), Some(mark), Some(upnl), Some(lev)) => if q.val() == 0 {
            None
        } else {
            Some((q, entry, mark, upnl, lev))
        },
        _ => None,
    }
}

/// `p` is the position the report gives: its figures, no realized profit,
/// and the reported symbol split after its third letter into a perpetual's
/// base and quote.
pub open spec fn position_from_report(r: PositionRisk, p: Position) -> bool {
    &&& risk_figures(r) matches Some(f)
    &&& p == (Position {
        exchange: Exchange::Binance,
        symbol: p.symbol,
        quantity: f.0,
        entry_price: f.1,
        current_price: f.2,
        unrealized_pnl: f.3,
        realized_pnl: Dec::literal(0, 0),
        leverage: f.4,
    })
    &&& p.symbol.base@ == r.symbol@.subrange(0, 3)
    &&& p.symbol.quote@ == r.symbol@.subrange(3, r.symbol@.len() as int)
    &&& p.symbol.instrument_type == InstrumentType::PerpetualFuture
}

/// The positions of the first `n` reports that give one, in order.
pub open spec fn positions_from(reports: Seq<PositionRisk>, out: Seq<Position>, n: nat) -> bool
    decreases n,
{
    if n == 0 {
        out.len() == 0
    } else {
        match risk_figures(reports[n - 1]) {
            Some(_) => out.len() > 0 && position_from_report(reports[n - 1], out.last())
                && positions_from(reports, out.drop_last(), (n - 1) as nat),
            None => positions_from(reports, out, (n - 1) as nat),
        }
    }
}

fn position_from_risk(p: &PositionRisk) -> (r: Option<Position>)
    requires
        risk_named(*p),
    ensures
        match r {
            Some(x) => position_from_report(*p, x),
            None => risk_figures(*p) is None,
        },
{
    let quantity = match dec_parse(p.position_amt.as_str()) {
        Some(q) => q,
        None => return None,
    };
    if quantity.is_zero() {
        return None;
    }
    let name = p.symbol.as_str();
    proof {
        assert(vstd::string::is_ascii(name));
    }
    let n = name.unicode_len();
    let base = name.substring_ascii(0, 3);
    let quote = name.substring_ascii(3, n);
    let symbol = Symbol::perpetual(base, quote);
    let entry_price = match dec_parse(p.entry_price.as_str()) {
        Some(v) => v,
        None => return None,
    };
    let current_price = match dec_parse(p.mark_price.as_str()) {
        Some(v) => v,
        None => return None,
    };
    let unrealized_pnl = match dec_parse(p.un_realized_profit.as_str()) {
        Some(v) => v,
        None => return None,
    };
    let leverage = match dec_parse(p.leverage.as_str()) {
        Some(v) => v,
        None => return None,
    };
    Some(
        Position {
            exchange: Exchange::Binance,
            symbol,
            quantity,
            entry_price,
            current_price,
            unrealized_pnl,
            realized_pnl: Dec::zero(),
            leverage,
        },
    )
}

/// Every report names its symbol as splitting it needs (see `risk_named`).
pub open spec fn reports_named(reports: Seq<PositionRisk>) -> bool {
    forall|i: int| 0 <= i < reports.len() ==> risk_named(#[trigger] reports[i])
}

/// Whether a report names its symbol as splitting it needs.
fn report_named(p: &PositionRisk) -> (r: bool)
    ensures
        r == risk_named(*p),
{
    match dec_parse(p.position_amt.as_str()) {
        Some(q) => if q.is_zero() {
            true
        } else {
            p.symbol.is_ascii() && p.symbol.as_str().unicode_len() >= 3
        },
        None => true,
    }
}

/// The open positions the exchange reported, as `parse_positions` gives
/// them, when every report with a non-zero quantity names its symbol in
/// ASCII with at least three characters; `None` when one does not.
pub fn parse_positions_checked(reports: &Vec<PositionRisk>) -> (r: Option<Vec<Position>>)
    ensures
        match r {
            Some(v) => reports_named(reports@) && positions_from(reports@, v@, reports@.len()),
            None => !reports_named(reports@),
        },
{
    let n = reports.len();
    let mut i: usize = 0;
    while i < n
        invariant
            0 <= i <= n,
            n == reports@.len(),
            forall|k: int| 0 <= k < i ==> risk_named(#[trigger] reports@[k]),
        decreases n - i,
    {
        if !report_named(&reports[i]) {
            return None;
        }
        i = i + 1;
    }
    Some(parse_positions(reports))
}

/// The open positions the exchange reported: reports with a zero quantity or
/// a figure that does not read are skipped.
pub fn parse_positions(reports: &Vec<PositionRisk>) -> (r: Vec<Position>)
    requires
        forall|i: int| 0 <= i < reports@.len() ==> risk_named(#[trigger] reports@[i]),
    ensures
        positions_from(reports@, r@, reports@.len()),
{
    let mut out: Vec<Position> = Vec::new();
    let n = reports.len();
    let mut i: usize = 0;
    while i < n
        invariant
            0 <= i <= n,
            n == reports@.len(),
            forall|k: int| 0 <= k < reports@.len() ==> risk_named(#[trigger] reports@[k]),
            positions_from(reports@, out@, i as nat),
        decreases n - i,
    {
        let ghost before = out@;
        match position_from_risk(&reports[i]) {
            Some(p) => {
                out.push(p);
                assert(out@.drop_last() =~= before);
            },
            None => {},
        }
        i = i + 1;
    }
    out
}

/// An asset balance as the exchange reports it.
#[derive(Debug)]
pub struct AssetBalance {
    pub asset: String,
    pub balance: String,
}

/// The first report from `i` on for USDT.
pub open spec fn find_usdt(balances: Seq<AssetBalance>, i: int) -> Option<int>
    decreases balances.len() - i,
{
    if i < 0 || i >= balances.len() {
        None
    } else if balances[i].asset@ == "USDT"@ {
        Some(i)
    } else {
        find_usdt(balances, i + 1)
    }
}

/// The USDT balance: that of the first USDT report when it reads as a
/// decimal, zero otherwise.
pub open spec fn usdt_balance_of(balances: Seq<AssetBalance>) -> Dec {
    match find_usdt(balances, 0) {
        Some(i) => match decimal_parse(balances[i].balance@) {
            Some(b) => b,
            None => Dec::literal(0, 0),
        },
        None => Dec::literal(0, 0),
    }
}

/// The USDT balance among the reported ones.
pub fn usdt_balance(balances: &Vec<AssetBalance>) -> (r: Dec)
    ensures
        r == usdt_balance_of(balances@),
{
    let usdt = String::from_str("USDT");
    let n = balances.len();
    let mut i: usize = 0;
    while i < n
        invariant
            0 <= i <= n,
            n == balances@.len(),
            usdt@ == "USDT"@,
            find_usdt(balances@, 0) == find_usdt(balances@, i as int),
        decreases n - i,
    {
        if balances[i].asset == usdt {
            return match dec_parse(balances[i].balance.as_str()) {
                Some(b) => b,
                None => Dec::zero(),
            };
        }
        i = i + 1;
    }
    Dec::zero()
}

} // verus!
