use influx_batch::batcher::split_batches;
use influx_batch::instant::Instant;
use influx_batch::output::output_file_name;
use influx_batch::pipeline::{parse_dates, process_chunk, render_chunk, TransformError};
use influx_batch::row::Record;

const NOW: i64 = 1_709_251_200;

fn reading(date: &str, value: &str, reference: &str, location: &str) -> Record {
    Record {
        reading_date: date.to_string(),
        value: value.to_string(),
        display_reference: reference.to_string(),
        location: location.to_string(),
        reading_type: "kWh".to_string(),
    }
}

fn ten_day_batch() -> Vec<Record> {
    vec![
        reading("2023-01-06T00:00:00Z", "2.25", "New York", "Roof"),
        reading("2023-01-01T00:00:00Z", "1.5", "Boston", "Site A"),
        reading("2023-01-11T00:00:00+00:00", "-3", "A,B", "Cellar"),
    ]
}

#[test]
fn three_records_over_ten_days_fill_the_window() {
    let batches = split_batches(ten_day_batch(), 10);
    assert_eq!(batches.len(), 1);
    assert_eq!(output_file_name(0), "influx_batch_0.csv");
    let bytes = render_chunk(&batches[0], Instant::new(NOW, 0)).unwrap();
    let text = String::from_utf8(bytes).unwrap();
    let lines: Vec<&str> = text.lines().collect();
    assert_eq!(lines.len(), 7);
    assert!(text.ends_with('\n'));
    assert_eq!(lines[0], "#group,false,false,true,true,false,false,true,true,true,true,true");
    assert_eq!(
        lines[1],
        "#datatype,string,long,dateTime:RFC3339,dateTime:RFC3339,dateTime:RFC3339,double,string,string,string,string,string"
    );
    assert_eq!(lines[2], "#default,mean,,,,,,,,,,");
    assert_eq!(
        lines[3],
        ",result,table,_start,_stop,_time,_value,_field,_measurement,displayReference,location,readingType"
    );
    assert_eq!(
        lines[4],
        ",,2024-02-17T12:00:00+00:00,2024-02-17T12:00:00+00:00,2024-02-17T12:00:00+00:00,2.25,reading,metrics,\"New York\",Roof,kWh"
    );
    assert_eq!(
        lines[5],
        ",,2024-02-10T00:00:00+00:00,2024-02-10T00:00:00+00:00,2024-02-10T00:00:00+00:00,1.5,reading,metrics,Boston,\"Site A\",kWh"
    );
    assert_eq!(
        lines[6],
        ",,2024-02-25T00:00:00+00:00,2024-02-25T00:00:00+00:00,2024-02-25T00:00:00+00:00,-3,reading,metrics,\"A,B\",Cellar,kWh"
    );
}

#[test]
fn rows_keep_the_order_of_the_records() {
    let rows = process_chunk(&ten_day_batch(), Instant::new(NOW, 0)).unwrap();
    assert_eq!(rows.len(), 3);
    assert_eq!(rows[0].time, "2024-02-17T12:00:00+00:00");
    assert_eq!(rows[0].start, rows[0].time);
    assert_eq!(rows[0].stop, rows[0].time);
    assert_eq!(rows[0].display_reference, "\"New York\"");
    assert_eq!(rows[1].time, "2024-02-10T00:00:00+00:00");
    assert_eq!(rows[1].display_reference, "Boston");
    assert_eq!(rows[1].location, "\"Site A\"");
    assert_eq!(rows[2].time, "2024-02-25T00:00:00+00:00");
    assert_eq!(rows[2].display_reference, "\"A,B\"");
    assert_eq!(rows[2].value, "-3");
}

#[test]
fn new_timestamps_carry_the_fraction_of_now() {
    let rows = process_chunk(&ten_day_batch(), Instant::new(NOW, 250_000_000)).unwrap();
    assert_eq!(rows[1].time, "2024-02-10T00:00:00.250+00:00");
}

#[test]
fn empty_batch_gives_no_rows() {
    let rows = process_chunk(&Vec::new(), Instant::new(NOW, 0)).unwrap();
    assert!(rows.is_empty());
}

#[test]
fn batch_with_one_shared_timestamp_keeps_it() {
    let batch = vec![
        reading("2023-05-05T10:00:00+02:00", "1", "a", "b"),
        reading("2023-05-05T08:00:00Z", "2", "c", "d"),
    ];
    let rows = process_chunk(&batch, Instant::new(NOW, 0)).unwrap();
    assert_eq!(rows[0].time, "2023-05-05T08:00:00+00:00");
    assert_eq!(rows[1].time, "2023-05-05T08:00:00+00:00");
}

#[test]
fn batch_of_half_a_second_is_spread_over_the_window() {
    let batch = vec![
        reading("2024-01-01T00:00:00.000Z", "1", "a", "b"),
        reading("2024-01-01T00:00:00.500Z", "2", "c", "d"),
    ];
    let rows = process_chunk(&batch, Instant::new(1_718_928_000, 0)).unwrap();
    assert_eq!(rows[0].time, "2024-06-01T00:00:00+00:00");
    assert_eq!(rows[1].time, "2024-06-16T00:00:00+00:00");
}

#[test]
fn quoted_values_stand_in_the_file_inside_one_pair_of_quotes() {
    let mut input = reading("2024-03-01T10:00:00Z", "1.5", "New York", "A,B");
    input.reading_type = "temp".to_string();
    let bytes = render_chunk(&vec![input], Instant::new(1_718_928_000, 0)).unwrap();
    let text = String::from_utf8(bytes).unwrap();
    let lines: Vec<&str> = text.lines().collect();
    assert_eq!(lines.len(), 5);
    assert_eq!(
        lines[4],
        ",,2024-03-01T10:00:00+00:00,2024-03-01T10:00:00+00:00,2024-03-01T10:00:00+00:00,1.5,reading,metrics,\"New York\",\"A,B\",temp"
    );
}

#[test]
fn batch_without_a_span_is_never_out_of_range() {
    let batch = vec![reading("2023-05-05T08:00:00Z", "1", "a", "b")];
    for now in [Instant::new(i64::MIN, 0), Instant::new(i64::MAX, 0)] {
        let rows = process_chunk(&batch, now).unwrap();
        assert_eq!(rows[0].time, "2023-05-05T08:00:00+00:00");
    }
}

#[test]
fn first_invalid_date_is_reported() {
    let batch = vec![
        reading("2023-01-01T00:00:00Z", "1", "a", "b"),
        reading("01/02/2023", "2", "c", "d"),
        reading("never", "3", "e", "f"),
    ];
    let now = Instant::new(NOW, 0);
    assert_eq!(parse_dates(&batch), Err(1));
    assert!(matches!(
        process_chunk(&batch, now),
        Err(TransformError::InvalidTimestamp { index: 1 })
    ));
    assert_eq!(render_chunk(&batch, now), Err(TransformError::InvalidTimestamp { index: 1 }));
}

#[test]
fn dates_are_read_in_order() {
    let dates = parse_dates(&ten_day_batch()).unwrap();
    assert_eq!(
        dates,
        vec![
            Instant::new(1_672_963_200, 0),
            Instant::new(1_672_531_200, 0),
            Instant::new(1_673_395_200, 0),
        ]
    );
}

#[test]
fn window_outside_the_calendar_is_reported() {
    let now = Instant::new(i64::MAX - 86_400, 0);
    assert!(matches!(
        process_chunk(&ten_day_batch(), now),
        Err(TransformError::OutOfRange { index: 0 })
    ));
    let early = Instant::new(i64::MIN + 1, 0);
    assert_eq!(
        render_chunk(&ten_day_batch(), early),
        Err(TransformError::OutOfRange { index: 0 })
    );
}

#[test]
fn same_input_and_same_now_give_the_same_bytes() {
    let now = Instant::new(NOW, 987_654_321);
    let first = render_chunk(&ten_day_batch(), now).unwrap();
    let second = render_chunk(&ten_day_batch(), now).unwrap();
    assert_eq!(first, second);
}

#[test]
fn every_record_gives_one_row_across_the_batches() {
    let mut records = Vec::new();
    for i in 0..25 {
        let date = format!("2023-03-{:02}T12:00:00Z", i + 1);
        records.push(reading(&date, "1", "ref", "loc"));
    }
    let batches = split_batches(records, 10);
    assert_eq!(batches.len(), 3);
    let now = Instant::new(NOW, 0);
    let mut rows = 0;
    for batch in &batches {
        rows += process_chunk(batch, now).unwrap().len();
    }
    assert_eq!(rows, 25);
}

#[test]
fn each_batch_is_spread_over_the_whole_window() {
    let mut records = Vec::new();
    for i in 0..4 {
        let date = format!("2023-03-{:02}T00:00:00Z", i + 1);
        records.push(reading(&date, "1", "ref", "loc"));
    }
    let batches = split_batches(records, 2);
    let now = Instant::new(NOW, 0);
    for batch in &batches {
        let rows = process_chunk(batch, now).unwrap();
        assert_eq!(rows[0].time, "2024-02-10T00:00:00+00:00");
        assert_eq!(rows[1].time, "2024-02-25T00:00:00+00:00");
    }
}
