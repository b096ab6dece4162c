use influx_batch::instant::Instant;
use influx_batch::output::{
    annotations, assemble_file, decimal_string, encode_row, output_file_name, render_batch,
};
use influx_batch::rfc3339::{parse_instant, render_instant};
use influx_batch::row::{format_row, needs_quotes, quote_field, OutputRow, Record};

fn record(reference: &str, location: &str) -> Record {
    Record {
        reading_date: "2024-01-01T00:00:00Z".to_string(),
        value: "1.5".to_string(),
        display_reference: reference.to_string(),
        location: location.to_string(),
        reading_type: "kWh".to_string(),
    }
}

const HEADER: &str = "#group,false,false,true,true,false,false,true,true,true,true,true\n\
#datatype,string,long,dateTime:RFC3339,dateTime:RFC3339,dateTime:RFC3339,double,string,string,string,string,string\n\
#default,mean,,,,,,,,,,\n\
,result,table,_start,_stop,_time,_value,_field,_measurement,displayReference,location,readingType\n";

#[test]
fn value_with_a_space_is_quoted() {
    assert_eq!(quote_field("New York"), "\"New York\"");
}

#[test]
fn plain_value_is_not_quoted() {
    assert_eq!(quote_field("Boston"), "Boston");
}

#[test]
fn value_with_a_comma_is_quoted() {
    assert_eq!(quote_field("A,B"), "\"A,B\"");
}

#[test]
fn quotes_inside_a_value_are_not_escaped() {
    assert_eq!(quote_field("say \"hi\""), "\"say \"hi\"\"");
    assert_eq!(quote_field("\"x\""), "\"x\"");
}

#[test]
fn empty_value_is_not_quoted() {
    assert_eq!(quote_field(""), "");
}

#[test]
fn only_comma_and_space_ask_for_quotes() {
    assert!(needs_quotes("a b"));
    assert!(needs_quotes(","));
    assert!(needs_quotes("caf\u{e9} au lait"));
    assert!(!needs_quotes("tab\there"));
    assert!(!needs_quotes("semi;colon"));
    assert!(!needs_quotes("line\nbreak"));
    assert!(!needs_quotes("\u{e9}\u{4e2d}"));
}

#[test]
fn row_has_the_time_three_times_and_fixed_names() {
    let row = format_row(&record("New York", "Hall,2"), "2024-02-10T00:00:00+00:00");
    assert_eq!(row.result, "");
    assert_eq!(row.table, "");
    assert_eq!(row.start, "2024-02-10T00:00:00+00:00");
    assert_eq!(row.stop, "2024-02-10T00:00:00+00:00");
    assert_eq!(row.time, "2024-02-10T00:00:00+00:00");
    assert_eq!(row.value, "1.5");
    assert_eq!(row.field, "reading");
    assert_eq!(row.measurement, "metrics");
    assert_eq!(row.display_reference, "\"New York\"");
    assert_eq!(row.location, "\"Hall,2\"");
    assert_eq!(row.reading_type, "kWh");
}

#[test]
fn reading_type_is_never_quoted() {
    let mut input = record("a", "b");
    input.reading_type = "active energy, total".to_string();
    let row = format_row(&input, "t");
    assert_eq!(row.reading_type, "active energy, total");
}

#[test]
fn columns_come_in_writing_order() {
    let row = format_row(&record("Boston", "Roof"), "T");
    assert_eq!(
        row.to_columns(),
        vec!["", "", "T", "T", "T", "1.5", "reading", "metrics", "Boston", "Roof", "kWh"]
    );
}

#[test]
fn date_time_with_zulu_offset_is_read() {
    assert_eq!(parse_instant("2024-01-01T00:00:00Z"), Some(Instant::new(1_704_067_200, 0)));
}

#[test]
fn date_time_with_an_offset_is_read_in_utc() {
    assert_eq!(
        parse_instant("2024-01-01T02:00:00+02:00"),
        Some(Instant::new(1_704_067_200, 0))
    );
    assert_eq!(
        parse_instant("1996-12-19T16:39:57-08:00"),
        Some(Instant::new(851_042_397, 0))
    );
}

#[test]
fn fraction_of_a_second_is_read_as_nanos() {
    assert_eq!(
        parse_instant("2024-01-01T00:00:00.25Z"),
        Some(Instant::new(1_704_067_200, 250_000_000))
    );
}

#[test]
fn text_that_is_no_date_time_with_offset_is_refused() {
    assert_eq!(parse_instant(""), None);
    assert_eq!(parse_instant("yesterday"), None);
    assert_eq!(parse_instant("2024-01-01"), None);
    assert_eq!(parse_instant("2024-01-01T00:00:00"), None);
    assert_eq!(parse_instant("2024-13-01T00:00:00Z"), None);
}

#[test]
fn instant_is_written_in_utc() {
    assert_eq!(
        render_instant(Instant::new(1_704_067_200, 0)),
        Some("2024-01-01T00:00:00+00:00".to_string())
    );
    assert_eq!(
        render_instant(Instant::new(0, 0)),
        Some("1970-01-01T00:00:00+00:00".to_string())
    );
}

#[test]
fn nanos_are_written_as_a_fraction() {
    assert_eq!(
        render_instant(Instant::new(1_704_067_200, 500_000_000)),
        Some("2024-01-01T00:00:00.500+00:00".to_string())
    );
}

#[test]
fn instant_beyond_the_calendar_is_not_written() {
    assert_eq!(render_instant(Instant::new(i64::MAX, 0)), None);
    assert_eq!(render_instant(Instant::new(i64::MIN, 0)), None);
    assert_eq!(render_instant(Instant::new(0, 2_000_000_000)), None);
}

#[test]
fn reading_and_writing_agree() {
    let t = parse_instant("2023-06-15T08:30:00+01:00").unwrap();
    assert_eq!(render_instant(t), Some("2023-06-15T07:30:00+00:00".to_string()));
}

#[test]
fn plain_row_is_encoded_with_commas_and_a_line_feed() {
    let row = format_row(&record("Boston", "Roof"), "2024-02-10T00:00:00+00:00");
    let bytes = encode_row(&row);
    assert_eq!(
        String::from_utf8(bytes).unwrap(),
        ",,2024-02-10T00:00:00+00:00,2024-02-10T00:00:00+00:00,2024-02-10T00:00:00+00:00,1.5,reading,metrics,Boston,Roof,kWh\n"
    );
}

#[test]
fn quoted_field_is_written_inside_one_pair_of_quotes() {
    let row = format_row(&record("New York", "A,B"), "T");
    let bytes = encode_row(&row);
    assert_eq!(
        String::from_utf8(bytes).unwrap(),
        ",,T,T,T,1.5,reading,metrics,\"New York\",\"A,B\",kWh\n"
    );
}

#[test]
fn record_adds_no_quoting_of_its_own() {
    let mut input = record("say \"hi\"", "Roof");
    input.reading_type = "active,total".to_string();
    input.value = "-0.5".to_string();
    let bytes = encode_row(&format_row(&input, "T"));
    assert_eq!(
        String::from_utf8(bytes).unwrap(),
        ",,T,T,T,-0.5,reading,metrics,\"say \"hi\"\",Roof,active,total\n"
    );
}

#[test]
fn record_of_empty_columns_is_commas_and_a_line_feed() {
    let row = OutputRow {
        result: String::new(),
        table: String::new(),
        start: String::new(),
        stop: String::new(),
        time: String::new(),
        value: String::new(),
        field: String::new(),
        measurement: String::new(),
        display_reference: String::new(),
        location: String::new(),
        reading_type: String::new(),
    };
    assert_eq!(encode_row(&row), b",,,,,,,,,,\n".to_vec());
}

#[test]
fn four_annotation_lines() {
    let lines = annotations();
    assert_eq!(lines.len(), 4);
    assert_eq!(lines[0], "#group,false,false,true,true,false,false,true,true,true,true,true");
    assert_eq!(
        lines[1],
        "#datatype,string,long,dateTime:RFC3339,dateTime:RFC3339,dateTime:RFC3339,double,string,string,string,string,string"
    );
    assert_eq!(lines[2], "#default,mean,,,,,,,,,,");
    assert_eq!(
        lines[3],
        ",result,table,_start,_stop,_time,_value,_field,_measurement,displayReference,location,readingType"
    );
}

#[test]
fn file_is_lines_then_records() {
    let lines = vec!["a".to_string(), "b,\u{e9}".to_string()];
    let records = vec![b"1,2\n".to_vec(), Vec::new(), b"3\n".to_vec()];
    let bytes = assemble_file(&lines, &records);
    assert_eq!(bytes, "a\nb,\u{e9}\n1,2\n3\n".as_bytes().to_vec());
}

#[test]
fn file_without_lines_or_records_is_empty() {
    assert!(assemble_file(&Vec::new(), &Vec::new()).is_empty());
}

#[test]
fn batch_without_rows_is_the_annotation_lines_alone() {
    let rows: Vec<OutputRow> = Vec::new();
    let bytes = render_batch(&rows);
    assert_eq!(String::from_utf8(bytes).unwrap(), HEADER);
}

#[test]
fn batch_rows_follow_the_annotation_lines_in_order() {
    let rows = vec![
        format_row(&record("Boston", "Roof"), "T1"),
        format_row(&record("Rome", "Cellar"), "T2"),
    ];
    let bytes = render_batch(&rows);
    let expected = format!(
        "{}{}{}",
        HEADER,
        ",,T1,T1,T1,1.5,reading,metrics,Boston,Roof,kWh\n",
        ",,T2,T2,T2,1.5,reading,metrics,Rome,Cellar,kWh\n"
    );
    assert_eq!(String::from_utf8(bytes).unwrap(), expected);
}

#[test]
fn numbers_are_written_in_decimal() {
    assert_eq!(decimal_string(0), "0");
    assert_eq!(decimal_string(7), "7");
    assert_eq!(decimal_string(10), "10");
    assert_eq!(decimal_string(209_999), "209999");
    assert_eq!(decimal_string(1_234_567_890), "1234567890");
    assert_eq!(decimal_string(usize::MAX), usize::MAX.to_string());
}

#[test]
fn file_is_named_by_the_batch_index() {
    assert_eq!(output_file_name(0), "influx_batch_0.csv");
    assert_eq!(output_file_name(1), "influx_batch_1.csv");
    assert_eq!(output_file_name(42), "influx_batch_42.csv");
    assert_eq!(output_file_name(1000), "influx_batch_1000.csv");
}
