//! Sensor readings and the parsing of one row of a source file into a reading.
use crate::clock::capture_timestamp;
use crate::text::{span_text, spans_mark, split, split_span, to_chars, trim, trim_span, Span};
use vstd::prelude::*;

verus! {

/// The delimiter between the fields of a row.
pub const DELIMITER: char = ',';

/// Index, within a split row, of the field that holds the first measurement.
pub const FIRST_COLUMN: usize = 16;

/// Number of measurements in a row.
pub const COLUMN_COUNT: usize = 12;

/// One sensor reading. Every measurement holds the text of its column exactly
/// as the row gave it; a column that the row does not reach is empty. Turning
/// that text into a number, with zero for text that is no number, is left to
/// the code that encodes the reading for its destination. The timestamp is the
/// instant at which the row was parsed, not one taken from the row.
#[derive(Clone, Debug, PartialEq, Eq)]
pub struct WeatherData {
    pub pressure: String,
    pub relative_humidity: String,
    pub temperature: String,
    pub wind_direction: String,
    pub wind_speed: String,
    pub chp1: String,
    pub direct_sun: String,
    pub global_sun: String,
    pub diffuse_sun: String,
    pub rain_fall: String,
    pub all_day_illumination: String,
    pub pm25: String,
    pub timestamp: String,
}

/// The mathematical content of a [`WeatherData`]: its measurements in column
/// order, and its timestamp.
pub struct RecordView {
    pub columns: Seq<Seq<char>>,
    pub timestamp: Seq<char>,
}

impl View for WeatherData {
    type V = RecordView;

    open spec fn view(&self) -> RecordView {
        RecordView {
            columns: seq![
                self.pressure@,
                self.relative_humidity@,
                self.temperature@,
                self.wind_direction@,
                self.wind_speed@,
                self.chp1@,
                self.direct_sun@,
                self.global_sun@,
                self.diffuse_sun@,
                self.rain_fall@,
                self.all_day_illumination@,
                self.pm25@,
            ],
            timestamp: self.timestamp@,
        }
    }
}

/// Field `index` of a split row, or the empty text where the row has no such
/// field.
pub open spec fn column(fields: Seq<Seq<char>>, index: int) -> Seq<char> {
    if 0 <= index < fields.len() {
        fields[index]
    } else {
        Seq::empty()
    }
}

/// The measurements of a row that has already been trimmed: the twelve fields
/// from [`FIRST_COLUMN`] on, by position.
pub open spec fn columns_of(row: Seq<char>) -> Seq<Seq<char>> {
    Seq::new(COLUMN_COUNT as nat, |k: int| column(split(row, DELIMITER), FIRST_COLUMN + k))
}

/// Whether nothing but white space stands on `line`.
pub open spec fn is_blank(line: Seq<char>) -> bool {
    trim(line).len() == 0
}

/// The measurements of a line of the file.
pub open spec fn row_columns(line: Seq<char>) -> Seq<Seq<char>> {
    columns_of(trim(line))
}

/// What parsing `line` at the instant `timestamp` yields: nothing for a blank
/// line, else the reading with the line's measurements and that timestamp.
pub open spec fn parsed(line: Seq<char>, timestamp: Seq<char>) -> Option<RecordView> {
    if is_blank(line) {
        None
    } else {
        Some(RecordView { columns: row_columns(line), timestamp })
    }
}

/// The text of field `index` of a split row.
fn column_text(
    buffer: &[char],
    fields: &Vec<Span>,
    index: usize,
    Ghost(row): Ghost<Seq<char>>,
) -> (text: String)
    requires
        spans_mark(fields@, buffer@, split(row, DELIMITER)),
    ensures
        text@ == column(split(row, DELIMITER), index as int),
{
    if index < fields.len() {
        span_text(buffer, fields[index])
    } else {
        String::new()
    }
}

/// Builds the reading of the trimmed row that `row` marks in `buffer`.
pub fn record_from_row(buffer: &[char], row: Span, timestamp: String) -> (record: WeatherData)
    requires
        row.fits(buffer@.len()),
    ensures
        record@ == (RecordView { columns: columns_of(row.of(buffer@)), timestamp: timestamp@ }),
{
    let fields = split_span(buffer, row, DELIMITER);
    let ghost text = row.of(buffer@);
    let record = WeatherData {
        pressure: column_text(buffer, &fields, FIRST_COLUMN, Ghost(text)),
        relative_humidity: column_text(buffer, &fields, FIRST_COLUMN + 1, Ghost(text)),
        temperature: column_text(buffer, &fields, FIRST_COLUMN + 2, Ghost(text)),
        wind_direction: column_text(buffer, &fields, FIRST_COLUMN + 3, Ghost(text)),
        wind_speed: column_text(buffer, &fields, FIRST_COLUMN + 4, Ghost(text)),
        chp1: column_text(buffer, &fields, FIRST_COLUMN + 5, Ghost(text)),
        direct_sun: column_text(buffer, &fields, FIRST_COLUMN + 6, Ghost(text)),
        global_sun: column_text(buffer, &fields, FIRST_COLUMN + 7, Ghost(text)),
        diffuse_sun: column_text(buffer, &fields, FIRST_COLUMN + 8, Ghost(text)),
        rain_fall: column_text(buffer, &fields, FIRST_COLUMN + 9, Ghost(text)),
        all_day_illumination: column_text(buffer, &fields, FIRST_COLUMN + 10, Ghost(text)),
        pm25: column_text(buffer, &fields, FIRST_COLUMN + 11, Ghost(text)),
        timestamp,
    };
    assert(record@.columns =~= columns_of(text));
    record
}

/// Parses one line with a timestamp that the caller supplies.
pub fn parse_row_at(line: &str, timestamp: String) -> (record: Option<WeatherData>)
    ensures
        match record {
            Some(r) => parsed(line@, timestamp@) == Some(r@),
            None => parsed(line@, timestamp@) is None,
        },
{
    let buffer = to_chars(line);
    let whole = Span { start: 0, end: buffer.len() };
    assert(whole.of(buffer@) == line@);
    let row = trim_span(buffer.as_slice(), whole);
    if row.start == row.end {
        None
    } else {
        Some(record_from_row(buffer.as_slice(), row, timestamp))
    }
}

/// Parses one line and stamps the reading with the current instant. A blank
/// line yields nothing; every other line yields a reading with the line's
/// measurements.
pub fn parse_row(line: &str) -> (record: Option<WeatherData>)
    ensures
        match record {
            Some(r) => !is_blank(line@) && r@.columns == row_columns(line@),
            None => is_blank(line@),
        },
{
    let buffer = to_chars(line);
    let whole = Span { start: 0, end: buffer.len() };
    assert(whole.of(buffer@) == line@);
    let row = trim_span(buffer.as_slice(), whole);
    if row.start == row.end {
        None
    } else {
        Some(record_from_row(buffer.as_slice(), row, capture_timestamp()))
    }
}

} // verus!
