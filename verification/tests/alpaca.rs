use backtester::alpaca::{bar_time, is_valid_header_value, AlpacaData, HistoricError};
use backtester::data::{AssetClass, Interval, Symbol};

#[test]
fn timeframe_of_each_interval() {
    assert_eq!(Interval::Day.timeframe(), "1Day");
    assert_eq!(Interval::Hour.timeframe(), "1Hour");
    assert_eq!(Interval::FiveMinute.timeframe(), "5Min");
    assert_eq!(Interval::Minute.timeframe(), "1Min");
    assert_eq!(Interval::Second.timeframe(), "Bad");
}

#[test]
fn crypto_history_url() {
    let url = AlpacaData::historic_url(
        &Symbol("BTC/USD".to_string()),
        AssetClass::Crypto,
        "2024-01-01",
        "2024-01-02",
        Interval::Day,
    );
    assert_eq!(
        url,
        "https://data.alpaca.markets/v1beta3/crypto/us/bars?symbols=BTC/USD&timeframe=1Day&start=2024-01-01&end=2024-01-02"
    );
}

#[test]
fn equity_history_url() {
    let url = AlpacaData::historic_url(
        &Symbol("AAPL".to_string()),
        AssetClass::Equity,
        "2024-01-01",
        "2024-01-02",
        Interval::FiveMinute,
    );
    assert_eq!(
        url,
        "https://data.alpaca.markets/v2/stocks/AAPL/bars?timeframe=5Min&start=2024-01-01&end=2024-01-02"
    );
}

#[test]
fn bar_time_reads_rfc3339() {
    assert_eq!(bar_time(Some("2024-01-01T00:00:00Z")).unwrap(), 1_704_067_200);
    assert_eq!(bar_time(Some("2024-01-01T01:00:00+01:00")).unwrap(), 1_704_067_200);
    assert_eq!(bar_time(Some("1970-01-01T00:00:00Z")).unwrap(), 0);
}

#[test]
fn bar_time_before_epoch_wraps() {
    assert_eq!(bar_time(Some("1969-12-31T23:59:59Z")).unwrap(), u64::MAX);
}

#[test]
fn bar_time_missing_is_refused() {
    assert!(matches!(bar_time(None), Err(HistoricError::InvalidTimestamp(_))));
}

#[test]
fn bar_time_malformed_is_refused() {
    assert!(matches!(bar_time(Some("2024-01-01")), Err(HistoricError::InvalidTimestamp(_))));
    assert!(matches!(bar_time(Some("yesterday at noon")), Err(HistoricError::InvalidTimestamp(_))));
    assert!(matches!(bar_time(Some("")), Err(HistoricError::InvalidTimestamp(_))));
}

#[test]
fn header_value_validity() {
    assert!(is_valid_header_value("PKABCDEF0123456789"));
    assert!(is_valid_header_value("with space\tand tab"));
    assert!(is_valid_header_value("caf\u{e9}"));
    assert!(is_valid_header_value(""));
    assert!(!is_valid_header_value("line\nbreak"));
    assert!(!is_valid_header_value("del\u{7f}"));
}

#[test]
fn client_carries_credentials_in_headers() {
    let client = AlpacaData::new("my-key", "my-secret");
    let headers = client.headers();
    assert_eq!(headers.len(), 2);
    assert_eq!(headers.get("apca-api-key-id").unwrap().as_bytes(), b"my-key");
    assert_eq!(headers.get("APCA-API-SECRET-KEY").unwrap().as_bytes(), b"my-secret");
}

#[test]
fn client_with_same_key_and_secret() {
    let client = AlpacaData::new("same", "same");
    let headers = client.headers();
    assert_eq!(headers.len(), 2);
    assert_eq!(headers.get("apca-api-key-id").unwrap(), "same");
    assert_eq!(headers.get("apca-api-secret-key").unwrap(), "same");
}
