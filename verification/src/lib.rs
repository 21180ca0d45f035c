//! A small candlestick data pipeline: reads OHLCV rows from delimited text
//! (or falls back to a fixed sample set), converts them into timestamped
//! candlestick values, and hands them to a stub plot sink.
//!
//! Numeric fields are carried as their decimal source text, verbatim; the
//! timestamp of a candlestick is parsed from the fixed pattern
//! `YYYY-MM-DD HH:MM:SS` and interpreted as UTC.

pub mod data_processor;
pub mod numeric;
pub mod plotter;
pub mod timestamp;
pub mod text;
pub mod utils;
