# backtester

A small trading backtester: a mean-reversion strategy run over Alpaca market
data, with a simulated broker and a profit-and-loss report.

- `src/` is the verified library (Verus):
  - `data.rs`: symbols and their equality, asset classes, order sides, bar
    intervals and the `timeframe` each one asks the bars endpoint for;
  - `alpaca.rs`: the Alpaca client's credentials and request headers, the
    address of a history query, and the time stamp of a returned bar;
  - `backtester.rs`: the grouping of trade fills by symbol on which profit
    and loss is reckoned, with the law that each fill is listed once;
  - `http_headers.rs`, `rfc3339.rs`: the trusted contracts of the `reqwest`
    (`http`) header map and of `chrono`'s RFC 3339 parser.
- `app/` is the program: the HTTP request and JSON reading, the TOML key
  file, and everything that computes with `f64` prices, quantities and cash
  (the strategy, the broker, the average-cost profit and loss), which Verus
  cannot verify.
- `tests/` runs the library on concrete values.
