use weather_ingest::record::{
    parse_row, parse_row_at, record_from_row, WeatherData, COLUMN_COUNT, DELIMITER, FIRST_COLUMN,
};
use weather_ingest::text::Span;

fn row(values: [&str; 12]) -> String {
    let mut fields: Vec<String> = Vec::new();
    for i in 0..16 {
        fields.push(format!("h{}", i));
    }
    for v in values {
        fields.push(v.to_string());
    }
    fields.join(",")
}

fn measurements(record: &WeatherData) -> [&str; 12] {
    [
        record.pressure.as_str(),
        record.relative_humidity.as_str(),
        record.temperature.as_str(),
        record.wind_direction.as_str(),
        record.wind_speed.as_str(),
        record.chp1.as_str(),
        record.direct_sun.as_str(),
        record.global_sun.as_str(),
        record.diffuse_sun.as_str(),
        record.rain_fall.as_str(),
        record.all_day_illumination.as_str(),
        record.pm25.as_str(),
    ]
}

fn number(text: &str) -> f64 {
    text.parse::<f64>().unwrap_or(0.0)
}

const VALUES: [&str; 12] = [
    "1013.2", "55.5", "28.1", "180", "3.4", "0.12", "650.0", "700.5", "50.5", "0.0", "12000", "35",
];

#[test]
fn layout_constants() {
    assert_eq!(DELIMITER, ',');
    assert_eq!(FIRST_COLUMN, 16);
    assert_eq!(COLUMN_COUNT, 12);
}

#[test]
fn well_formed_row_gives_positioned_fields() {
    let record = parse_row_at(&row(VALUES), "2024-01-01T00:00:00+00:00".to_string()).unwrap();
    assert_eq!(measurements(&record), VALUES);
    assert_eq!(record.pressure, "1013.2");
    assert_eq!(record.relative_humidity, "55.5");
    assert_eq!(record.temperature, "28.1");
    assert_eq!(record.wind_direction, "180");
    assert_eq!(record.wind_speed, "3.4");
    assert_eq!(record.chp1, "0.12");
    assert_eq!(record.direct_sun, "650.0");
    assert_eq!(record.global_sun, "700.5");
    assert_eq!(record.diffuse_sun, "50.5");
    assert_eq!(record.rain_fall, "0.0");
    assert_eq!(record.all_day_illumination, "12000");
    assert_eq!(record.pm25, "35");
    assert_eq!(record.timestamp, "2024-01-01T00:00:00+00:00");
}

#[test]
fn fields_before_and_after_the_slice_are_ignored() {
    let line = format!("{},extra,more", row(VALUES));
    let record = parse_row_at(&line, "t".to_string()).unwrap();
    assert_eq!(measurements(&record), VALUES);
}

#[test]
fn malformed_numeric_field_still_yields_record() {
    let mut values = VALUES;
    values[2] = "n/a";
    let record = parse_row_at(&row(values), "t".to_string()).unwrap();
    assert_eq!(record.temperature, "n/a");
    assert_eq!(number(&record.temperature), 0.0);
    assert_eq!(number(&record.pressure), 1013.2);
    assert_eq!(number(&record.relative_humidity), 55.5);
    assert_eq!(number(&record.wind_direction), 180.0);
    assert_eq!(number(&record.wind_speed), 3.4);
    assert_eq!(number(&record.chp1), 0.12);
    assert_eq!(number(&record.direct_sun), 650.0);
    assert_eq!(number(&record.global_sun), 700.5);
    assert_eq!(number(&record.diffuse_sun), 50.5);
    assert_eq!(number(&record.rain_fall), 0.0);
    assert_eq!(number(&record.all_day_illumination), 12000.0);
    assert_eq!(number(&record.pm25), 35.0);
}

#[test]
fn empty_line_is_skipped() {
    assert!(parse_row_at("", "t".to_string()).is_none());
    assert!(parse_row("").is_none());
}

#[test]
fn white_space_line_is_skipped() {
    assert!(parse_row_at("   ", "t".to_string()).is_none());
    assert!(parse_row_at("\t \r", "t".to_string()).is_none());
    assert!(parse_row_at("\u{a0}\u{3000}", "t".to_string()).is_none());
    assert!(parse_row(" \t ").is_none());
}

#[test]
fn surrounding_white_space_is_trimmed() {
    let line = format!("  \t{} \r", row(VALUES));
    let record = parse_row_at(&line, "t".to_string()).unwrap();
    assert_eq!(measurements(&record), VALUES);
    let line = format!("{}   ", row(VALUES));
    let record = parse_row_at(&line, "t".to_string()).unwrap();
    assert_eq!(record.pm25, "35");
}

#[test]
fn white_space_inside_a_field_is_kept() {
    let mut values = VALUES;
    values[0] = " 1013.2";
    values[3] = "18 0";
    let record = parse_row_at(&row(values), "t".to_string()).unwrap();
    assert_eq!(record.pressure, " 1013.2");
    assert_eq!(record.wind_direction, "18 0");
    assert_eq!(number(&record.pressure), 0.0);
}

#[test]
fn short_row_is_filled_with_empty_fields() {
    let record = parse_row_at("a,b,c", "t".to_string()).unwrap();
    assert_eq!(measurements(&record), [""; 12]);
    let line = row(VALUES);
    let cut = line.rfind(",12000").unwrap();
    let record = parse_row_at(&line[..cut], "t".to_string()).unwrap();
    let mut expected = VALUES;
    expected[10] = "";
    expected[11] = "";
    assert_eq!(measurements(&record), expected);
    for text in measurements(&record).iter().skip(10) {
        assert_eq!(number(text), 0.0);
    }
}

#[test]
fn row_of_exactly_seventeen_fields_has_one_measurement() {
    let line = "0,1,2,3,4,5,6,7,8,9,10,11,12,13,14,15,99.5";
    let record = parse_row_at(line, "t".to_string()).unwrap();
    assert_eq!(record.pressure, "99.5");
    assert_eq!(record.relative_humidity, "");
    assert_eq!(record.pm25, "");
}

#[test]
fn empty_fields_between_delimiters_are_kept_empty() {
    let line = ",,,,,,,,,,,,,,,,1,,3,,,,,,,,,12";
    let record = parse_row_at(line, "t".to_string()).unwrap();
    assert_eq!(
        measurements(&record),
        ["1", "", "3", "", "", "", "", "", "", "", "", "12"]
    );
}

#[test]
fn trailing_delimiter_adds_an_empty_field() {
    let line = "0,1,2,3,4,5,6,7,8,9,10,11,12,13,14,15,";
    let record = parse_row_at(line, "t".to_string()).unwrap();
    assert_eq!(measurements(&record), [""; 12]);
}

#[test]
fn non_ascii_text_is_handled_by_character() {
    let mut values = VALUES;
    values[4] = "ลม";
    values[5] = "๓";
    let line = format!("\u{3000}{}\u{2003}", row(values).replace("h0", "วันที่"));
    let record = parse_row_at(&line, "t".to_string()).unwrap();
    assert_eq!(record.wind_speed, "ลม");
    assert_eq!(record.chp1, "๓");
    assert_eq!(record.pressure, "1013.2");
}

#[test]
fn record_from_row_reads_the_marked_part() {
    let text: Vec<char> = "xx0,1,2,3,4,5,6,7,8,9,10,11,12,13,14,15,a,b,cyy".chars().collect();
    let span = Span { start: 2, end: text.len() - 2 };
    let record = record_from_row(&text, span, "stamp".to_string());
    assert_eq!(record.pressure, "a");
    assert_eq!(record.relative_humidity, "b");
    assert_eq!(record.temperature, "c");
    assert_eq!(record.wind_direction, "");
    assert_eq!(record.timestamp, "stamp");
}

#[test]
fn parse_row_stamps_with_the_current_instant() {
    let before = chrono::Utc::now();
    let record = parse_row(&row(VALUES)).unwrap();
    let after = chrono::Utc::now();
    assert_eq!(measurements(&record), VALUES);
    let stamp = chrono::DateTime::parse_from_rfc3339(&record.timestamp).unwrap();
    assert!(before <= stamp);
    assert!(stamp <= after);
    assert_eq!(stamp.offset().local_minus_utc(), 0);
}

#[test]
fn parse_row_ignores_time_written_in_the_row() {
    let line = row(VALUES).replace("h0", "1999-12-31T23:59:59+00:00");
    let record = parse_row(&line).unwrap();
    let stamp = chrono::DateTime::parse_from_rfc3339(&record.timestamp).unwrap();
    assert!(stamp.timestamp() > 1_000_000_000);
}
