use candle_stick_plotter::data_processor::{DataProcessor, HistoricalData};
use candle_stick_plotter::plotter::Plotter;

#[test]
fn test_plotter_new() {
    let _plotter = Plotter::new();
    assert!(true);
}

#[test]
fn test_create_candlestick_plot_empty_data() {
    let mut plotter = Plotter::new();
    let mut data_map: Vec<(String, Vec<HistoricalData>)> = Vec::new();
    data_map.push(("historical_data".to_string(), Vec::new()));

    let result = plotter.create_candlestick_plot(&data_map, "test_output");
    assert!(result.is_ok());
}

#[test]
fn test_create_candlestick_plot_with_data() {
    let mut plotter = Plotter::new();
    let mut data_map: Vec<(String, Vec<HistoricalData>)> = Vec::new();

    let sample_data = vec![HistoricalData {
        timestamp: "2023-01-01 00:00:00".to_string(),
        open: "100.0".to_string(),
        high: "105.0".to_string(),
        low: "95.0".to_string(),
        close: "102.0".to_string(),
        volume: "1000.0".to_string(),
    }];

    data_map.insert(0, ("historical_data".to_string(), sample_data));

    let result = plotter.create_candlestick_plot(&data_map, "test_output");
    assert!(result.is_ok());
}

#[test]
fn test_create_candlestick_plot_absent_dataset() {
    let mut plotter = Plotter::new();
    let mut processor = DataProcessor::new();
    let data = processor.generate_sample_data().unwrap();
    let mut data_map: Vec<(String, Vec<HistoricalData>)> = Vec::new();
    data_map.push(("other_data".to_string(), data));

    let result = plotter.create_candlestick_plot(&data_map, "test_output");
    assert!(result.is_ok());
}
