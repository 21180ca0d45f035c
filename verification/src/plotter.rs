//! The plot sink. In this implementation it is a deliberate stub: it accepts
//! a named collection of record sets and a target directory and reports
//! success without rendering or writing anything.

use vstd::prelude::*;
use crate::data_processor::{DataError, HistoricalData};
use crate::text::str_eq;

verus! {

/// Handles creation of financial plots.
pub struct Plotter;

impl Plotter {
    /// A new plot sink.
    pub fn new() -> Plotter {
        Plotter
    }

    /// Looks up the dataset named `historical_data` in the collection and
    /// hands it to the stub renderer; succeeds unconditionally, and renders
    /// nothing into the output directory.
    #[allow(unused_variables)]
    pub fn create_candlestick_plot(
        &mut self,
        data_map: &Vec<(String, Vec<HistoricalData>)>,
        output_dir: &str,
    ) -> (r: Result<(), DataError>)
        ensures
            r is Ok,
    {
        let mut k: usize = 0;
        while k < data_map.len()
            invariant
                k <= data_map@.len(),
            decreases data_map@.len() - k,
        {
            if str_eq(data_map[k].0.as_str(), "historical_data") {
                return self.simulate_plot_creation(&data_map[k].1);
            }
            k = k + 1;
        }
        Ok(())
    }

    /// Placeholder for actual plotting: succeeds for any dataset, empty or
    /// not.
    fn simulate_plot_creation(&self, data: &Vec<HistoricalData>) -> (r: Result<(), DataError>)
        ensures
            r is Ok,
    {
        let _ = data.len();
        Ok(())
    }
}

} // verus!
