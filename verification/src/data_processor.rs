//! OHLCV records parsed from delimited text, their candlestick form, and the
//! processor that holds the most recently loaded dataset.
//!
//! Numeric fields are carried verbatim as their decimal source text; a data
//! row is accepted only when each of its five numeric columns parses as a
//! 64-bit floating-point number.

use vstd::prelude::*;
use crate::numeric::{is_float_text, is_numeric_text};
use crate::text::{split_on, split_str, str_eq};
use crate::timestamp::{datetime_of, valid_timestamp, DateTimeUtc};

verus! {

/// One row of historical data: a timestamp text and five numeric fields,
/// each held as its decimal source text.
#[derive(Debug, Clone)]
pub struct HistoricalData {
    pub timestamp: String,
    pub open: String,
    pub high: String,
    pub low: String,
    pub close: String,
    pub volume: String,
}

/// The mathematical content of a record: its six texts.
pub struct RecordModel {
    pub timestamp: Seq<char>,
    pub open: Seq<char>,
    pub high: Seq<char>,
    pub low: Seq<char>,
    pub close: Seq<char>,
    pub volume: Seq<char>,
}

impl View for HistoricalData {
    type V = RecordModel;

    open spec fn view(&self) -> RecordModel {
        RecordModel {
            timestamp: self.timestamp@,
            open: self.open@,
            high: self.high@,
            low: self.low@,
            close: self.close@,
            volume: self.volume@,
        }
    }
}

/// The record contents of a sequence of records.
pub open spec fn record_views(v: Seq<HistoricalData>) -> Seq<RecordModel> {
    v.map_values(|h: HistoricalData| h@)
}

/// A candlestick: a parsed UTC timestamp beside the five numeric fields of
/// the record it came from, copied verbatim.
#[derive(Debug, Clone)]
pub struct CandleStick {
    pub timestamp: DateTimeUtc,
    pub open: String,
    pub high: String,
    pub low: String,
    pub close: String,
    pub volume: String,
}

/// The mathematical content of a candlestick.
pub struct CandleModel {
    pub timestamp: DateTimeUtc,
    pub open: Seq<char>,
    pub high: Seq<char>,
    pub low: Seq<char>,
    pub close: Seq<char>,
    pub volume: Seq<char>,
}

impl View for CandleStick {
    type V = CandleModel;

    open spec fn view(&self) -> CandleModel {
        CandleModel {
            timestamp: self.timestamp,
            open: self.open@,
            high: self.high@,
            low: self.low@,
            close: self.close@,
            volume: self.volume@,
        }
    }
}

/// The candlestick a record denotes: its timestamp parsed, its numeric
/// fields unchanged.
pub open spec fn candle_of(r: RecordModel) -> CandleModel {
    CandleModel {
        timestamp: datetime_of(r.timestamp),
        open: r.open,
        high: r.high,
        low: r.low,
        close: r.close,
        volume: r.volume,
    }
}

pub open spec fn candles_of(rs: Seq<RecordModel>) -> Seq<CandleModel> {
    rs.map_values(|r: RecordModel| candle_of(r))
}

pub open spec fn all_timestamps_valid(rs: Seq<RecordModel>) -> bool {
    forall|i: int| 0 <= i < rs.len() ==> valid_timestamp(#[trigger] rs[i].timestamp)
}

/// Converting records to candlesticks keeps their number and order, and
/// copies every numeric field unchanged; only the timestamp changes form.
pub proof fn lemma_candles_preserve_fields(rs: Seq<RecordModel>)
    ensures
        candles_of(rs).len() == rs.len(),
        forall|i: int|
            0 <= i < rs.len() ==> {
                &&& (#[trigger] candles_of(rs)[i]).timestamp == datetime_of(rs[i].timestamp)
                &&& candles_of(rs)[i].open == rs[i].open
                &&& candles_of(rs)[i].high == rs[i].high
                &&& candles_of(rs)[i].low == rs[i].low
                &&& candles_of(rs)[i].close == rs[i].close
                &&& candles_of(rs)[i].volume == rs[i].volume
            },
{
}

/// The ways loading or converting a dataset can fail.
#[derive(Debug)]
pub enum DataError {
    /// The first nonempty line is not the expected column header.
    HeaderMismatch,
    /// The data row with this one-based index does not hold a timestamp and
    /// five numeric fields.
    RowParse { row: usize },
    /// This timestamp text does not match `YYYY-MM-DD HH:MM:SS`.
    TimestampFormat { value: String },
    /// No dataset has been loaded yet.
    NotLoaded,
}

/// A line of the source text, with one trailing carriage return removed.
pub open spec fn strip_cr(l: Seq<char>) -> Seq<char> {
    if l.len() > 0 && l.last() == '\r' {
        l.drop_last()
    } else {
        l
    }
}

/// The nonempty lines of the source text, in order, line ends removed.
pub open spec fn csv_lines(s: Seq<char>) -> Seq<Seq<char>> {
    split_on(s, '\n').map_values(|l: Seq<char>| strip_cr(l)).filter(|l: Seq<char>| l.len() != 0)
}

pub open spec fn header_text() -> Seq<char> {
    "Timestamp,Open,High,Low,Close,Volume"@
}

/// The text has no lines at all, or opens with the exact column header.
pub open spec fn header_ok(s: Seq<char>) -> bool {
    csv_lines(s).len() == 0 || csv_lines(s)[0] == header_text()
}

pub open spec fn row_fields(l: Seq<char>) -> Seq<Seq<char>> {
    split_on(l, ',')
}

/// Six comma-separated fields, of which the last five are numeric texts.
pub open spec fn valid_row(l: Seq<char>) -> bool {
    &&& row_fields(l).len() == 6
    &&& is_float_text(row_fields(l)[1])
    &&& is_float_text(row_fields(l)[2])
    &&& is_float_text(row_fields(l)[3])
    &&& is_float_text(row_fields(l)[4])
    &&& is_float_text(row_fields(l)[5])
}

pub open spec fn record_of_row(l: Seq<char>) -> RecordModel {
    let f = row_fields(l);
    RecordModel {
        timestamp: f[0],
        open: f[1],
        high: f[2],
        low: f[3],
        close: f[4],
        volume: f[5],
    }
}

/// Every data row before line `n` is valid.
pub open spec fn rows_valid_to(s: Seq<char>, n: int) -> bool {
    forall|i: int| 1 <= i < n ==> valid_row(#[trigger] csv_lines(s)[i])
}

/// The whole text parses: the header is right and every data row is valid.
pub open spec fn parse_ok(s: Seq<char>) -> bool {
    header_ok(s) && rows_valid_to(s, csv_lines(s).len() as int)
}

/// The records of the text's data rows, in file order.
pub open spec fn parsed_records(s: Seq<char>) -> Seq<RecordModel> {
    if csv_lines(s).len() == 0 {
        Seq::<RecordModel>::empty()
    } else {
        csv_lines(s).skip(1).map_values(|l: Seq<char>| record_of_row(l))
    }
}

/// A text with N data rows parses to exactly N records, in file order, each
/// holding the six fields of its row verbatim.
pub proof fn lemma_parsed_records_fields(s: Seq<char>)
    ensures
        csv_lines(s).len() > 0 ==> parsed_records(s).len() == csv_lines(s).len() - 1,
        csv_lines(s).len() == 0 ==> parsed_records(s).len() == 0,
        forall|i: int|
            0 <= i < parsed_records(s).len() ==> #[trigger] parsed_records(s)[i] == record_of_row(
                csv_lines(s)[i + 1],
            ),
{
}

/// Which failure a text produces when it does not parse.
pub open spec fn parse_error_matches(s: Seq<char>, e: DataError) -> bool {
    match e {
        DataError::HeaderMismatch => csv_lines(s).len() > 0 && csv_lines(s)[0] != header_text(),
        DataError::RowParse { row } => {
            &&& header_ok(s)
            &&& 1 <= row
            &&& (row as int) < csv_lines(s).len()
            &&& !valid_row(csv_lines(s)[row as int])
            &&& rows_valid_to(s, row as int)
        },
        _ => false,
    }
}

proof fn lemma_filter_push<A>(s: Seq<A>, pred: spec_fn(A) -> bool, x: A)
    ensures
        s.push(x).filter(pred) == (if pred(x) {
            s.filter(pred).push(x)
        } else {
            s.filter(pred)
        }),
{
    reveal(Seq::filter);
    assert(s.push(x).drop_last() =~= s);
    assert(s.push(x).last() == x);
}

fn strip_cr_str(l: &str) -> (r: String)
    ensures
        r@ == strip_cr(l@),
{
    let n = l.unicode_len();
    if n > 0 && l.get_char(n - 1) == '\r' {
        let sub = l.substring_char(0, n - 1);
        proof {
            assert(l@.subrange(0, n as int - 1) =~= l@.drop_last());
        }
        String::from_str(sub)
    } else {
        String::from_str(l)
    }
}

/// The nonempty lines of the source text, line ends removed.
fn logical_lines(content: &str) -> (r: Vec<String>)
    ensures
        r@.map_values(|p: String| p@) == csv_lines(content@),
{
    let pieces = split_str(content, '\n');
    let ghost raw = pieces@.map_values(|p: String| p@);
    let mut lines: Vec<String> = Vec::new();
    let mut i: usize = 0;
    proof {
        reveal(Seq::filter);
        assert(raw.take(0) =~= Seq::<Seq<char>>::empty());
        assert(Seq::<Seq<char>>::empty().map_values(|l: Seq<char>| strip_cr(l))
            =~= Seq::<Seq<char>>::empty());
        assert(lines@.map_values(|p: String| p@) =~= Seq::<Seq<char>>::empty().map_values(
            |l: Seq<char>| strip_cr(l),
        ).filter(|l: Seq<char>| l.len() != 0));
    }
    while i < pieces.len()
        invariant
            i <= pieces@.len(),
            raw == pieces@.map_values(|p: String| p@),
            lines@.map_values(|p: String| p@) == raw.take(i as int).map_values(
                |l: Seq<char>| strip_cr(l),
            ).filter(|l: Seq<char>| l.len() != 0),
        decreases pieces@.len() - i,
    {
        let t = strip_cr_str(pieces[i].as_str());
        proof {
            let prev = raw.take(i as int).map_values(|l: Seq<char>| strip_cr(l));
            assert(raw.take(i as int + 1) =~= raw.take(i as int).push(raw[i as int]));
            assert(raw.take(i as int + 1).map_values(|l: Seq<char>| strip_cr(l)) =~= prev.push(
                strip_cr(raw[i as int]),
            ));
            lemma_filter_push(prev, |l: Seq<char>| l.len() != 0, strip_cr(raw[i as int]));
            assert(raw[i as int] == pieces@[i as int]@);
            assert(t@ == strip_cr(raw[i as int]));
        }
        if t.as_str().unicode_len() > 0 {
            let ghost old_lines = lines@;
            let ghost tv = t@;
            lines.push(t);
            proof {
                assert(lines@.map_values(|p: String| p@) =~= old_lines.map_values(
                    |p: String| p@,
                ).push(tv));
            }
        }
        i = i + 1;
    }
    proof {
        assert(raw.take(pieces@.len() as int) =~= raw);
    }
    lines
}

/// Parses one data row: six comma-separated fields, the last five numeric.
fn parse_row(line: &str) -> (r: Option<HistoricalData>)
    ensures
        r is Some <==> valid_row(line@),
        r is Some ==> r->0@ == record_of_row(line@),
{
    let mut fields = split_str(line, ',');
    let ghost fv = row_fields(line@);
    proof {
        assert(fields@.map_values(|p: String| p@) == fv);
    }
    if fields.len() != 6 {
        return None;
    }
    if !is_numeric_text(fields[1].as_str()) {
        return None;
    }
    if !is_numeric_text(fields[2].as_str()) {
        return None;
    }
    if !is_numeric_text(fields[3].as_str()) {
        return None;
    }
    if !is_numeric_text(fields[4].as_str()) {
        return None;
    }
    if !is_numeric_text(fields[5].as_str()) {
        return None;
    }
    let volume = fields.pop().unwrap();
    let close = fields.pop().unwrap();
    let low = fields.pop().unwrap();
    let high = fields.pop().unwrap();
    let open_text = fields.pop().unwrap();
    let timestamp = fields.pop().unwrap();
    Some(
        HistoricalData {
            timestamp,
            open: open_text,
            high,
            low,
            close,
            volume,
        },
    )
}

/// Parses delimited text with a header row into records, in file order.
///
/// An empty text yields no records; otherwise the first nonempty line must
/// be the exact column header, and each further nonempty line one data row.
pub fn parse_csv_text(content: &str) -> (r: Result<Vec<HistoricalData>, DataError>)
    ensures
        match r {
            Ok(v) => parse_ok(content@) && record_views(v@) == parsed_records(content@),
            Err(e) => !parse_ok(content@) && parse_error_matches(content@, e),
        },
{
    let lines = logical_lines(content);
    if lines.len() == 0 {
        let empty: Vec<HistoricalData> = Vec::new();
        proof {
            assert(record_views(empty@) =~= parsed_records(content@));
        }
        return Ok(empty);
    }
    if !str_eq(lines[0].as_str(), "Timestamp,Open,High,Low,Close,Volume") {
        proof {
            assert(lines@[0]@ == csv_lines(content@)[0]);
        }
        return Err(DataError::HeaderMismatch);
    }
    let mut out: Vec<HistoricalData> = Vec::new();
    let mut i: usize = 1;
    while i < lines.len()
        invariant
            1 <= i <= lines@.len(),
            lines@.map_values(|p: String| p@) == csv_lines(content@),
            rows_valid_to(content@, i as int),
            header_ok(content@),
            out@.len() == i - 1,
            forall|j: int|
                0 <= j < out@.len() ==> #[trigger] out@[j]@ == record_of_row(
                    csv_lines(content@)[j + 1],
                ),
        decreases lines@.len() - i,
    {
        proof {
            assert(lines@[i as int]@ == csv_lines(content@)[i as int]);
        }
        match parse_row(lines[i].as_str()) {
            Some(rec) => {
                out.push(rec);
            },
            None => {
                return Err(DataError::RowParse { row: i });
            },
        }
        i = i + 1;
    }
    proof {
        assert(record_views(out@) =~= parsed_records(content@));
    }
    Ok(out)
}

/// The fixed three-row fallback dataset.
pub open spec fn sample_records() -> Seq<RecordModel> {
    seq![
        RecordModel {
            timestamp: "2023-01-01 00:00:00"@,
            open: "100.0"@,
            high: "105.0"@,
            low: "95.0"@,
            close: "102.0"@,
            volume: "1000.0"@,
        },
        RecordModel {
            timestamp: "2023-01-02 00:00:00"@,
            open: "102.0"@,
            high: "108.0"@,
            low: "101.0"@,
            close: "106.0"@,
            volume: "1200.0"@,
        },
        RecordModel {
            timestamp: "2023-01-03 00:00:00"@,
            open: "106.0"@,
            high: "110.0"@,
            low: "104.0"@,
            close: "108.0"@,
            volume: "1500.0"@,
        },
    ]
}

impl HistoricalData {
    /// A copy of the record, field for field.
    pub fn duplicate(&self) -> (r: HistoricalData)
        ensures
            r@ == self@,
    {
        HistoricalData {
            timestamp: self.timestamp.clone(),
            open: self.open.clone(),
            high: self.high.clone(),
            low: self.low.clone(),
            close: self.close.clone(),
            volume: self.volume.clone(),
        }
    }
}

fn duplicate_records(src: &Vec<HistoricalData>) -> (r: Vec<HistoricalData>)
    ensures
        record_views(r@) == record_views(src@),
{
    let mut r: Vec<HistoricalData> = Vec::new();
    let mut i: usize = 0;
    while i < src.len()
        invariant
            i <= src@.len(),
            r@.len() == i,
            forall|j: int| 0 <= j < i ==> #[trigger] r@[j]@ == src@[j]@,
        decreases src@.len() - i,
    {
        r.push(src[i].duplicate());
        i = i + 1;
    }
    proof {
        assert(record_views(r@) =~= record_views(src@));
    }
    r
}

/// Holds at most one loaded dataset; loading replaces it entirely.
pub struct DataProcessor {
    data: Vec<HistoricalData>,
    loaded: bool,
}

impl DataProcessor {
    /// The contents of the held dataset.
    pub closed spec fn records(&self) -> Seq<RecordModel> {
        record_views(self.data@)
    }

    /// Whether a dataset has been loaded.
    pub closed spec fn is_loaded(&self) -> bool {
        self.loaded
    }

    /// A processor with nothing loaded yet.
    pub fn new() -> (r: DataProcessor)
        ensures
            !r.is_loaded(),
            r.records() == Seq::<RecordModel>::empty(),
    {
        let r = DataProcessor { data: Vec::new(), loaded: false };
        proof {
            assert(r.records() =~= Seq::<RecordModel>::empty());
        }
        r
    }

    /// Replaces the held dataset with the fixed three-row sample set and
    /// returns it; never fails, whatever was held before.
    pub fn generate_sample_data(&mut self) -> (r: Result<Vec<HistoricalData>, DataError>)
        ensures
            match r {
                Ok(v) => record_views(v@) == sample_records() && final (self).records()
                    == sample_records() && final (self).is_loaded(),
                Err(_) => false,
            },
    {
        let mut v: Vec<HistoricalData> = Vec::new();
        v.push(
            HistoricalData {
                timestamp: String::from_str("2023-01-01 00:00:00"),
                open: String::from_str("100.0"),
                high: String::from_str("105.0"),
                low: String::from_str("95.0"),
                close: String::from_str("102.0"),
                volume: String::from_str("1000.0"),
            },
        );
        v.push(
            HistoricalData {
                timestamp: String::from_str("2023-01-02 00:00:00"),
                open: String::from_str("102.0"),
                high: String::from_str("108.0"),
                low: String::from_str("101.0"),
                close: String::from_str("106.0"),
                volume: String::from_str("1200.0"),
            },
        );
        v.push(
            HistoricalData {
                timestamp: String::from_str("2023-01-03 00:00:00"),
                open: String::from_str("106.0"),
                high: String::from_str("110.0"),
                low: String::from_str("104.0"),
                close: String::from_str("108.0"),
                volume: String::from_str("1500.0"),
            },
        );
        proof {
            assert(record_views(v@) =~= sample_records());
        }
        self.data = duplicate_records(&v);
        self.loaded = true;
        Ok(v)
    }

    /// Loads a dataset: from the text of the source file where it exists
    /// (`Some`), or the fixed sample set where it does not (`None`). On
    /// success the held dataset is replaced and the same records returned;
    /// on a parse failure the held dataset is untouched.
    pub fn load_csv_data(&mut self, source: Option<&str>) -> (r: Result<
        Vec<HistoricalData>,
        DataError,
    >)
        ensures
            match source {
                Option::None => match r {
                    Ok(v) => record_views(v@) == sample_records() && final (self).records()
                        == sample_records() && final (self).is_loaded(),
                    Err(_) => false,
                },
                Option::Some(text) => match r {
                    Ok(v) => parse_ok(text@) && record_views(v@) == parsed_records(text@)
                        && final (self).records() == parsed_records(text@) && final (
                    self).is_loaded(),
                    Err(e) => !parse_ok(text@) && parse_error_matches(text@, e) && final (
                    self).records() == old(self).records() && final (self).is_loaded() == old(
                        self,
                    ).is_loaded(),
                },
            },
    {
        match source {
            Option::None => self.generate_sample_data(),
            Option::Some(text) => {
                match parse_csv_text(text) {
                    Ok(v) => {
                        self.data = duplicate_records(&v);
                        self.loaded = true;
                        Ok(v)
                    },
                    Err(e) => Err(e),
                }
            },
        }
    }

    /// Converts the held dataset into candlesticks, in order, each numeric
    /// field copied unchanged; fails when nothing is loaded or when some
    /// timestamp does not match the fixed pattern.
    pub fn to_candlesticks(&self) -> (r: Result<Vec<CandleStick>, DataError>)
        ensures
            match r {
                Ok(cs) => self.is_loaded() && all_timestamps_valid(self.records())
                    && cs@.map_values(|c: CandleStick| c@) == candles_of(self.records()),
                Err(DataError::NotLoaded) => !self.is_loaded(),
                Err(DataError::TimestampFormat { value }) => self.is_loaded() && exists|i: int|
                    0 <= i < self.records().len() && !valid_timestamp(
                        #[trigger] self.records()[i].timestamp,
                    ) && value@ == self.records()[i].timestamp && (forall|j: int|
                        0 <= j < i ==> valid_timestamp(#[trigger] self.records()[j].timestamp)),
                _ => false,
            },
    {
        if !self.loaded {
            return Err(DataError::NotLoaded);
        }
        let mut cs: Vec<CandleStick> = Vec::new();
        let mut i: usize = 0;
        while i < self.data.len()
            invariant
                self.is_loaded(),
                i <= self.data@.len(),
                cs@.len() == i,
                forall|j: int|
                    0 <= j < i ==> valid_timestamp(#[trigger] self.records()[j].timestamp),
                forall|j: int|
                    0 <= j < i ==> #[trigger] cs@[j]@ == candle_of(self.records()[j]),
            decreases self.data@.len() - i,
        {
            let rec = &self.data[i];
            proof {
                assert(rec@ == self.records()[i as int]);
            }
            match crate::timestamp::parse_timestamp(rec.timestamp.as_str()) {
                Option::Some(dt) => {
                    cs.push(
                        CandleStick {
                            timestamp: dt,
                            open: rec.open.clone(),
                            high: rec.high.clone(),
                            low: rec.low.clone(),
                            close: rec.close.clone(),
                            volume: rec.volume.clone(),
                        },
                    );
                },
                Option::None => {
                    let value = rec.timestamp.clone();
                    proof {
                        assert(!valid_timestamp(self.records()[i as int].timestamp));
                        assert(value@ == self.records()[i as int].timestamp);
                    }
                    return Err(DataError::TimestampFormat { value });
                },
            }
            i = i + 1;
        }
        proof {
            assert(cs@.map_values(|c: CandleStick| c@) =~= candles_of(self.records()));
        }
        Ok(cs)
    }

    /// The held dataset, read-only.
    pub fn get_data(&self) -> (r: &Vec<HistoricalData>)
        ensures
            record_views(r@) == self.records(),
    {
        &self.data
    }
}

} // verus!
