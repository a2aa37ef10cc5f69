//! The Alpaca market-data client: its credentials and request headers, the
//! address of a history query, and the time stamps of the bars it returns.
//! The requests themselves are made outside this library.
use vstd::prelude::*;

use chrono::ParseError;
use reqwest::header::HeaderMap;
use vstd::string::{StringExecFns, StringSliceAdditionalSpecFns};

use crate::data::{spec_timeframe, AssetClass, Interval, Symbol};
use crate::http_headers::{
    ascii_lower, header_entries, header_map_insert, header_map_new, header_value_from_str,
    header_value_ok,
};
use crate::rfc3339::{parse_rfc3339_seconds, rfc3339_seconds};

verus! {

/// The root of the Alpaca market-data API.
pub const ALPACA_DATA_URL: &'static str = "https://data.alpaca.markets";

/// The header that carries the API key.
pub const KEY_HEADER: &'static str = "APCA-API-KEY-ID";

/// The header that carries the API secret.
pub const SECRET_HEADER: &'static str = "APCA-API-SECRET-KEY";

/// Why a history query failed in this library's part of it.
#[derive(Debug)]
pub enum HistoricError {
    /// A bar's time stamp is not an RFC 3339 date-time.
    InvalidTimestamp(ParseError),
}

/// Access to Alpaca's market data with one key pair.
pub struct AlpacaData {
    api_key: String,
    api_secret: String,
    headers: HeaderMap,
}

/// The headers that every request of a key pair carries: the key and the
/// secret, each under its Alpaca header name, in lower case as `HeaderMap`
/// keeps names.
pub open spec fn credential_headers(api_key: Seq<u8>, api_secret: Seq<u8>) -> Map<
    Seq<char>,
    Seq<Seq<u8>>,
> {
    map![
        "apca-api-key-id"@ => seq![api_key],
        "apca-api-secret-key"@ => seq![api_secret],
    ]
}

/// The address of a history query: the crypto bars endpoint takes the symbol
/// as a parameter, the stocks endpoint takes it in the path.
pub open spec fn spec_historic_url(
    symbol: Seq<char>,
    asset_class: AssetClass,
    start_date: Seq<char>,
    end_date: Seq<char>,
    interval: Interval,
) -> Seq<char> {
    match asset_class {
        AssetClass::Crypto => ALPACA_DATA_URL@ + "/v1beta3/crypto/us/bars?symbols="@ + symbol
            + "&timeframe="@ + spec_timeframe(interval) + "&start="@ + start_date + "&end="@
            + end_date,
        AssetClass::Equity => ALPACA_DATA_URL@ + "/v2/stocks/"@ + symbol + "/bars?timeframe="@
            + spec_timeframe(interval) + "&start="@ + start_date + "&end="@ + end_date,
    }
}

/// The text of a bar's `t` field; a bar without one reads as the empty text.
pub open spec fn bar_time_text(t: Option<&str>) -> Seq<char> {
    match t {
        Some(s) => s@,
        None => Seq::empty(),
    }
}

/// The endpoint part of a history query's address, up to the timeframe.
pub open spec fn historic_endpoint(symbol: Seq<char>, asset_class: AssetClass) -> Seq<char> {
    match asset_class {
        AssetClass::Crypto => ALPACA_DATA_URL@ + "/v1beta3/crypto/us/bars?symbols="@ + symbol
            + "&timeframe="@,
        AssetClass::Equity => ALPACA_DATA_URL@ + "/v2/stocks/"@ + symbol + "/bars?timeframe="@,
    }
}

/// A history query's address asks for the interval's own timeframe and for
/// exactly the given dates: it is the endpoint of the asset class and symbol,
/// then `spec_timeframe(interval)`, then `&start=` with the start date and
/// `&end=` with the end date. Two queries that differ only in their interval
/// differ exactly when their timeframes do.
pub proof fn historic_url_asks_for_interval_and_dates(
    symbol: Seq<char>,
    asset_class: AssetClass,
    start_date: Seq<char>,
    end_date: Seq<char>,
    interval: Interval,
    other: Interval,
)
    ensures
        ({
            let url = spec_historic_url(symbol, asset_class, start_date, end_date, interval);
            let head = historic_endpoint(symbol, asset_class);
            let tail = spec_timeframe(interval) + "&start="@ + start_date + "&end="@ + end_date;
            &&& url.len() == head.len() + tail.len()
            &&& url.subrange(0, head.len() as int) == head
            &&& url.subrange(head.len() as int, url.len() as int) == tail
        }),
        spec_historic_url(symbol, asset_class, start_date, end_date, interval) == spec_historic_url(
            symbol,
            asset_class,
            start_date,
            end_date,
            other,
        ) <==> spec_timeframe(interval) == spec_timeframe(other),
{
    let head = historic_endpoint(symbol, asset_class);
    let rest = "&start="@ + start_date + "&end="@ + end_date;
    let tail = spec_timeframe(interval) + rest;
    let tail2 = spec_timeframe(other) + rest;
    let url = spec_historic_url(symbol, asset_class, start_date, end_date, interval);
    let url2 = spec_historic_url(symbol, asset_class, start_date, end_date, other);
    assert(url =~= head + tail);
    assert(url2 =~= head + tail2);
    assert(url.subrange(0, head.len() as int) =~= head);
    assert(url.subrange(head.len() as int, url.len() as int) =~= tail);
    if url == url2 {
        assert(tail =~= url.subrange(head.len() as int, url.len() as int));
        assert(tail2 =~= url2.subrange(head.len() as int, url2.len() as int));
        assert(spec_timeframe(interval) =~= tail.subrange(0, tail.len() - rest.len()));
        assert(spec_timeframe(other) =~= tail2.subrange(0, tail2.len() - rest.len()));
    }
}

/// A bar's time is read from its own `t` text, unaltered, and a bar without
/// one from the empty text.
pub proof fn bar_time_reads_its_own_text(text: &str)
    ensures
        bar_time_text(Some(text)) == text@,
        bar_time_text(None) == Seq::<char>::empty(),
{
}

/// The headers of a key pair carry the key, unaltered, under the key header
/// and the secret, unaltered, under the secret header (each name in the lower
/// case that `HeaderMap` keeps), and nothing else.
pub proof fn credential_headers_carry_key_pair(api_key: Seq<u8>, api_secret: Seq<u8>)
    ensures
        credential_headers(api_key, api_secret).dom() == set![
            ascii_lower(KEY_HEADER@),
            ascii_lower(SECRET_HEADER@),
        ],
        ascii_lower(KEY_HEADER@) != ascii_lower(SECRET_HEADER@),
        credential_headers(api_key, api_secret)[ascii_lower(KEY_HEADER@)] == seq![api_key],
        credential_headers(api_key, api_secret)[ascii_lower(SECRET_HEADER@)] == seq![api_secret],
{
    reveal_strlit("APCA-API-KEY-ID");
    reveal_strlit("apca-api-key-id");
    reveal_strlit("APCA-API-SECRET-KEY");
    reveal_strlit("apca-api-secret-key");
    assert(ascii_lower(KEY_HEADER@) =~= "apca-api-key-id"@);
    assert(ascii_lower(SECRET_HEADER@) =~= "apca-api-secret-key"@);
    assert(ascii_lower(KEY_HEADER@)[9] != ascii_lower(SECRET_HEADER@)[9]);
    assert(credential_headers(api_key, api_secret).dom() =~= set![
        ascii_lower(KEY_HEADER@),
        ascii_lower(SECRET_HEADER@),
    ]);
}

impl AlpacaData {
    /// The API key.
    pub closed spec fn spec_api_key(&self) -> Seq<char> {
        self.api_key@
    }

    /// The API secret.
    pub closed spec fn spec_api_secret(&self) -> Seq<char> {
        self.api_secret@
    }

    /// The headers that every request carries.
    pub closed spec fn spec_headers(&self) -> HeaderMap {
        self.headers
    }

    /// A client for the key pair. Both must be valid header values (no
    /// control character but tab): the key pair goes out in the headers
    /// of every request.
    pub fn new(api_key: &str, api_secret: &str) -> (client: AlpacaData)
        requires
            header_value_ok(api_key.spec_bytes()),
            header_value_ok(api_secret.spec_bytes()),
        ensures
            client.spec_api_key() == api_key@,
            client.spec_api_secret() == api_secret@,
            header_entries(client.spec_headers()) == credential_headers(
                api_key.spec_bytes(),
                api_secret.spec_bytes(),
            ),
    {
        proof {
            reveal_strlit("APCA-API-KEY-ID");
            reveal_strlit("apca-api-key-id");
            reveal_strlit("APCA-API-SECRET-KEY");
            reveal_strlit("apca-api-secret-key");
        }
        let mut headers = header_map_new();
        let key_value = header_value_from_str(api_key).unwrap();
        assert(ascii_lower(KEY_HEADER@) =~= "apca-api-key-id"@);
        header_map_insert(&mut headers, KEY_HEADER, key_value);
        let secret_value = header_value_from_str(api_secret).unwrap();
        assert(ascii_lower(SECRET_HEADER@) =~= "apca-api-secret-key"@);
        header_map_insert(&mut headers, SECRET_HEADER, secret_value);
        assert(header_entries(headers) =~= credential_headers(
            api_key.spec_bytes(),
            api_secret.spec_bytes(),
        ));
        AlpacaData { api_key: api_key.to_owned(), api_secret: api_secret.to_owned(), headers }
    }

    /// The headers that every request of this client carries.
    pub fn headers(&self) -> (h: &HeaderMap)
        ensures
            *h == self.spec_headers(),
    {
        &self.headers
    }

    /// The address of the bars of `symbol` from `start_date` to `end_date`,
    /// one bar per `interval`.
    pub fn historic_url(
        symbol: &Symbol,
        asset_class: AssetClass,
        start_date: &str,
        end_date: &str,
        interval: Interval,
    ) -> (url: String)
        ensures
            url@ == spec_historic_url(symbol@, asset_class, start_date@, end_date@, interval),
    {
        let mut url = String::new();
        url.append(ALPACA_DATA_URL);
        match asset_class {
            AssetClass::Crypto => {
                url.append("/v1beta3/crypto/us/bars?symbols=");
                url.append(symbol.0.as_str());
                url.append("&timeframe=");
            },
            AssetClass::Equity => {
                url.append("/v2/stocks/");
                url.append(symbol.0.as_str());
                url.append("/bars?timeframe=");
            },
        }
        url.append(interval.timeframe());
        url.append("&start=");
        url.append(start_date);
        url.append("&end=");
        url.append(end_date);
        url
    }
}

/// Whether `text` can stand as a header value, as `AlpacaData::new` needs of
/// the key and the secret.
pub fn is_valid_header_value(text: &str) -> (ok: bool)
    ensures
        ok == header_value_ok(text.spec_bytes()),
{
    header_value_from_str(text).is_ok()
}

/// The time of a bar: the Unix seconds of its RFC 3339 `t` field, taken as
/// an unsigned number (two's complement, for an instant before 1970). A bar
/// without a time reads as the empty text, which is refused.
pub fn bar_time(t: Option<&str>) -> (r: Result<u64, HistoricError>)
    ensures
        match rfc3339_seconds(bar_time_text(t)) {
            Some(seconds) => r matches Ok(time) && time == seconds as u64,
            None => r is Err,
        },
        t is None ==> r is Err,
{
    let text: &str = match t {
        Some(s) => s,
        None => "",
    };
    proof {
        reveal_strlit("");
        assert(text@ =~= bar_time_text(t));
    }
    match parse_rfc3339_seconds(text) {
        Ok(seconds) => Ok(seconds as u64),
        Err(e) => Err(HistoricError::InvalidTimestamp(e)),
    }
}

} // verus!
