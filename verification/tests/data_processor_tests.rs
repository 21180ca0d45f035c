use candle_stick_plotter::data_processor::{parse_csv_text, DataError, DataProcessor};
use candle_stick_plotter::numeric::is_numeric_text;
use candle_stick_plotter::timestamp::{parse_timestamp, DateTimeUtc};

#[test]
fn test_data_processor_new() {
    let processor = DataProcessor::new();
    assert!(processor.get_data().is_empty());
}

#[test]
fn test_generate_sample_data() {
    let mut processor = DataProcessor::new();
    let data = processor.generate_sample_data().unwrap();

    assert_eq!(data.len(), 3);
    assert_eq!(data[0].open, "100.0");
    assert_eq!(data[1].close, "106.0");
    assert_eq!(data[2].volume, "1500.0");
}

#[test]
fn test_to_candlesticks() {
    let mut processor = DataProcessor::new();
    processor.generate_sample_data().unwrap();

    let candlesticks = processor.to_candlesticks().unwrap();

    assert_eq!(candlesticks.len(), 3);
    assert_eq!(candlesticks[0].open, "100.0");
    assert_eq!(candlesticks[1].close, "106.0");
    assert_eq!(candlesticks[2].volume, "1500.0");
}

#[test]
fn test_load_csv_data() {
    let content = "Timestamp,Open,High,Low,Close,Volume\n\
                   2023-01-01 00:00:00,100.0,105.0,95.0,102.0,1000.0\n\
                   2023-01-02 00:00:00,102.0,108.0,101.0,106.0,1200.0\n";

    let mut processor = DataProcessor::new();
    let data = processor.load_csv_data(Some(content)).unwrap();

    assert_eq!(data.len(), 2);
    assert_eq!(data[0].open, "100.0");
    assert_eq!(data[1].close, "106.0");
}

#[test]
fn test_load_nonexistent_falls_back_to_sample() {
    let mut processor = DataProcessor::new();
    let data = processor.load_csv_data(None).unwrap();

    assert_eq!(data.len(), 3);
    let held = processor.get_data();
    assert_eq!(held.len(), 3);
    assert_eq!(held[0].timestamp, "2023-01-01 00:00:00");
    assert_eq!(held[0].open, "100.0");
    assert_eq!(held[1].timestamp, "2023-01-02 00:00:00");
    assert_eq!(held[1].open, "102.0");
    assert_eq!(held[2].timestamp, "2023-01-03 00:00:00");
    assert_eq!(held[2].volume, "1500.0");
}

#[test]
fn test_load_two_rows_then_convert() {
    let content = "Timestamp,Open,High,Low,Close,Volume\n\
                   2023-01-01 00:00:00,100.0,105.0,95.0,102.0,1000.0\n\
                   2023-01-02 00:00:00,102.0,108.0,101.0,106.0,1200.0\n";

    let mut processor = DataProcessor::new();
    let data = processor.load_csv_data(Some(content)).unwrap();
    assert_eq!(data.len(), 2);
    assert_eq!(data[0].timestamp, "2023-01-01 00:00:00");
    assert_eq!(data[0].high, "105.0");
    assert_eq!(data[1].low, "101.0");

    let candlesticks = processor.to_candlesticks().unwrap();
    assert_eq!(candlesticks.len(), 2);
    assert_eq!(candlesticks[0].open, "100.0");
    assert_eq!(candlesticks[1].open, "102.0");
    assert_eq!(
        candlesticks[0].timestamp,
        DateTimeUtc { year: 2023, month: 1, day: 1, hour: 0, minute: 0, second: 0 }
    );
    assert_eq!(
        candlesticks[1].timestamp,
        DateTimeUtc { year: 2023, month: 1, day: 2, hour: 0, minute: 0, second: 0 }
    );
}

#[test]
fn test_parser_keeps_fields_verbatim() {
    let content = "Timestamp,Open,High,Low,Close,Volume\n\
                   any text at all,1,2.5,.5,1e3,-0.25\n";
    let records = parse_csv_text(content).unwrap();
    assert_eq!(records.len(), 1);
    assert_eq!(records[0].timestamp, "any text at all");
    assert_eq!(records[0].open, "1");
    assert_eq!(records[0].high, "2.5");
    assert_eq!(records[0].low, ".5");
    assert_eq!(records[0].close, "1e3");
    assert_eq!(records[0].volume, "-0.25");
}

#[test]
fn test_parser_header_only() {
    let records = parse_csv_text("Timestamp,Open,High,Low,Close,Volume\n").unwrap();
    assert!(records.is_empty());
}

#[test]
fn test_parser_empty_text() {
    let records = parse_csv_text("").unwrap();
    assert!(records.is_empty());
}

#[test]
fn test_parser_crlf_and_blank_lines() {
    let content = "Timestamp,Open,High,Low,Close,Volume\r\n\
                   2023-01-01 00:00:00,100.0,105.0,95.0,102.0,1000.0\r\n\
                   \r\n\
                   2023-01-02 00:00:00,102.0,108.0,101.0,106.0,1200.0";
    let records = parse_csv_text(content).unwrap();
    assert_eq!(records.len(), 2);
    assert_eq!(records[0].open, "100.0");
    assert_eq!(records[1].volume, "1200.0");
}

#[test]
fn test_parser_rejects_wrong_header() {
    let content = "Time,Open,High,Low,Close,Volume\n\
                   2023-01-01 00:00:00,100.0,105.0,95.0,102.0,1000.0\n";
    let err = parse_csv_text(content).unwrap_err();
    assert!(matches!(err, DataError::HeaderMismatch));
}

#[test]
fn test_parser_rejects_non_numeric_column() {
    let content = "Timestamp,Open,High,Low,Close,Volume\n\
                   2023-01-01 00:00:00,100.0,105.0,95.0,102.0,1000.0\n\
                   2023-01-02 00:00:00,oops,108.0,101.0,106.0,1200.0\n";
    let err = parse_csv_text(content).unwrap_err();
    assert!(matches!(err, DataError::RowParse { row: 2 }));
}

#[test]
fn test_parser_rejects_wrong_column_count() {
    let content = "Timestamp,Open,High,Low,Close,Volume\n\
                   2023-01-01 00:00:00,100.0,105.0,95.0,102.0\n";
    let err = parse_csv_text(content).unwrap_err();
    assert!(matches!(err, DataError::RowParse { row: 1 }));
}

#[test]
fn test_to_candlesticks_without_load_fails() {
    let processor = DataProcessor::new();
    let err = processor.to_candlesticks().unwrap_err();
    assert!(matches!(err, DataError::NotLoaded));
}

#[test]
fn test_timestamp_with_slashes_fails_conversion() {
    let content = "Timestamp,Open,High,Low,Close,Volume\n\
                   2023/01/01 00:00:00,100.0,105.0,95.0,102.0,1000.0\n";
    let mut processor = DataProcessor::new();
    processor.load_csv_data(Some(content)).unwrap();
    let err = processor.to_candlesticks().unwrap_err();
    match err {
        DataError::TimestampFormat { value } => assert_eq!(value, "2023/01/01 00:00:00"),
        other => panic!("unexpected error: {:?}", other),
    }
}

#[test]
fn test_timestamp_date_only_fails_conversion() {
    let content = "Timestamp,Open,High,Low,Close,Volume\n\
                   2023-01-01,100.0,105.0,95.0,102.0,1000.0\n";
    let mut processor = DataProcessor::new();
    processor.load_csv_data(Some(content)).unwrap();
    let err = processor.to_candlesticks().unwrap_err();
    assert!(matches!(err, DataError::TimestampFormat { .. }));
}

#[test]
fn test_parse_timestamp_components() {
    let dt = parse_timestamp("1999-12-31 23:59:59").unwrap();
    assert_eq!(dt, DateTimeUtc { year: 1999, month: 12, day: 31, hour: 23, minute: 59, second: 59 });
}

#[test]
fn test_parse_timestamp_rejects_out_of_range() {
    assert!(parse_timestamp("2023-13-01 00:00:00").is_none());
    assert!(parse_timestamp("2023-00-01 00:00:00").is_none());
    assert!(parse_timestamp("2023-01-32 00:00:00").is_none());
    assert!(parse_timestamp("2023-01-01 24:00:00").is_none());
    assert!(parse_timestamp("2023-01-01 00:60:00").is_none());
    assert!(parse_timestamp("2023-01-01 00:00:60").is_none());
    assert!(parse_timestamp("2023-01-01 00:00:00 ").is_none());
}

#[test]
fn test_parse_timestamp_leap_day() {
    assert!(parse_timestamp("2024-02-29 12:00:00").is_some());
    assert!(parse_timestamp("2023-02-29 12:00:00").is_none());
    assert!(parse_timestamp("2000-02-29 12:00:00").is_some());
    assert!(parse_timestamp("1900-02-29 12:00:00").is_none());
}

#[test]
fn test_numeric_text_accepts_float_forms() {
    assert!(is_numeric_text("1"));
    assert!(is_numeric_text("100.0"));
    assert!(is_numeric_text("-1.5e3"));
    assert!(is_numeric_text("+0.25E-2"));
    assert!(is_numeric_text(".5"));
    assert!(is_numeric_text("5."));
    assert!(is_numeric_text("inf"));
    assert!(is_numeric_text("-Infinity"));
    assert!(is_numeric_text("NaN"));
}

#[test]
fn test_numeric_text_rejects_non_floats() {
    assert!(!is_numeric_text(""));
    assert!(!is_numeric_text("abc"));
    assert!(!is_numeric_text("1.2.3"));
    assert!(!is_numeric_text("1e"));
    assert!(!is_numeric_text("."));
    assert!(!is_numeric_text("--1"));
    assert!(!is_numeric_text("1 "));
    assert!(!is_numeric_text("0x10"));
}

#[test]
fn test_numeric_text_agrees_with_float_parsing() {
    let samples = [
        "1", "100.0", "-1.5e3", "+0.25E-2", ".5", "5.", "inf", "-Infinity", "NaN", "", "abc",
        "1.2.3", "1e", ".", "--1", "1 ", "0x10", "e5", "+", "-", "12e+4", "12e-",
    ];
    for s in samples {
        assert_eq!(is_numeric_text(s), s.parse::<f64>().is_ok(), "disagrees on {:?}", s);
    }
}
