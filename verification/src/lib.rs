//! Market-data vocabulary and the verified parts of a small trading backtester:
//! symbols and their equality, the Alpaca request that a history query makes,
//! the time stamps of the bars that come back, and the grouping of trade fills
//! by symbol on which profit and loss is reckoned.

pub mod data;
pub mod backtester;
pub mod http_headers;
pub mod rfc3339;
pub mod alpaca;
