//! A batch from records to rows, and from records to the bytes of its file.

use vstd::prelude::*;
use crate::instant::Instant;
use crate::output::{annotation_lines, encoded_rows, file_bytes, record_line, render_batch};
use crate::remap::{
    earliest, latest, lemma_remap_monotonic, lemma_remap_within_window, new_nanos, new_seconds,
    no_leap_second, remap_batch, representable, span_nanos, LOOKBACK_SECONDS, WINDOW_SECONDS,
};
use crate::rfc3339::{instant_of_text, parse_instant, render_instant, text_of_instant};
use crate::row::{format_row, formatted_columns, OutputRow, Record};

verus! {

/// Why a batch was given up.
#[derive(Clone, Copy, Debug, PartialEq, Eq, Structural)]
pub enum TransformError {
    /// The reading date of record `index` is no date-time with an offset.
    InvalidTimestamp { index: usize },
    /// The new timestamp of record `index` lies outside the dates that can
    /// be written.
    OutOfRange { index: usize },
}

/// The reading date of record `i` as an instant, if it is one.
pub open spec fn date_at(chunk: Seq<Record>, i: int) -> Option<Instant> {
    instant_of_text(chunk[i].reading_date@)
}

/// The reading dates of a batch whose dates are all valid.
pub open spec fn dates_of(chunk: Seq<Record>) -> Seq<Instant> {
    Seq::new(chunk.len(), |i: int| date_at(chunk, i).unwrap())
}

/// Every reading date of the batch is valid.
pub open spec fn all_dates_valid(chunk: Seq<Record>) -> bool {
    forall|i: int| 0 <= i < chunk.len() ==> (#[trigger] date_at(chunk, i)).is_some()
}

/// The new timestamp of record `i` fits in an `Instant`.
pub open spec fn fits(chunk: Seq<Record>, now: Instant, i: int) -> bool {
    representable(dates_of(chunk), now, i)
}

/// The new timestamp of record `i`, where it fits.
pub open spec fn new_instant(chunk: Seq<Record>, now: Instant, i: int) -> Instant {
    Instant {
        secs: new_seconds(dates_of(chunk), now, i) as i64,
        nanos: new_nanos(dates_of(chunk), now, i),
    }
}

/// The new timestamp of record `i` as text, where it can be written.
pub open spec fn new_time_text(chunk: Seq<Record>, now: Instant, i: int) -> Option<Seq<char>> {
    if fits(chunk, now, i) {
        text_of_instant(new_instant(chunk, now, i))
    } else {
        None
    }
}

/// The columns of the row of record `i`.
pub open spec fn row_columns(chunk: Seq<Record>, now: Instant, i: int) -> Seq<Seq<char>> {
    formatted_columns(chunk[i], new_time_text(chunk, now, i).unwrap())
}

/// The records of the file of a batch, one per record, in order.
pub open spec fn chunk_records(chunk: Seq<Record>, now: Instant) -> Seq<Seq<u8>> {
    Seq::new(chunk.len(), |i: int| record_line(row_columns(chunk, now, i)))
}

/// The bytes of the file of a batch. They depend on the records and on `now`
/// alone.
pub open spec fn chunk_file(chunk: Seq<Record>, now: Instant) -> Seq<u8> {
    file_bytes(annotation_lines(), chunk_records(chunk, now))
}

/// The batch is given up for record `index`: every date is valid, and
/// `index` is the first record whose new timestamp does not fit or, where all
/// fit, the first whose new timestamp cannot be written.
pub open spec fn out_of_range_at(chunk: Seq<Record>, now: Instant, index: int) -> bool {
    &&& all_dates_valid(chunk)
    &&& 0 <= index < chunk.len()
    &&& new_time_text(chunk, now, index).is_none()
    &&& forall|j: int| 0 <= j < index ==> #[trigger] fits(chunk, now, j)
    &&& fits(chunk, now, index) ==> {
        &&& forall|j: int| 0 <= j < chunk.len() ==> #[trigger] fits(chunk, now, j)
        &&& forall|j: int| 0 <= j < index ==> (#[trigger] new_time_text(chunk, now, j)).is_some()
    }
}

/// Every new timestamp of the batch can be written.
pub open spec fn all_times_writable(chunk: Seq<Record>, now: Instant) -> bool {
    forall|i: int| 0 <= i < chunk.len() ==> (#[trigger] new_time_text(chunk, now, i)).is_some()
}

/// In a batch of valid dates without leap seconds whose earliest and latest
/// date differ, the new timestamp of every record fits and lies in the
/// window, from twenty days to five days before `now`, and a record with an
/// earlier date than another's never gets a later new timestamp, whatever the
/// order of the records.
pub proof fn lemma_chunk_times_in_window(chunk: Seq<Record>, now: Instant, i: int, j: int)
    requires
        0 <= i < chunk.len(),
        0 <= j < chunk.len(),
        all_dates_valid(chunk),
        no_leap_second(dates_of(chunk)),
        earliest(dates_of(chunk)).precedes(latest(dates_of(chunk))),
        i64::MIN + LOOKBACK_SECONDS <= now.secs,
    ensures
        fits(chunk, now, i),
        now.secs - LOOKBACK_SECONDS <= new_instant(chunk, now, i).secs <= now.secs
            - LOOKBACK_SECONDS + WINDOW_SECONDS,
        new_instant(chunk, now, i).nanos == now.nanos,
        dates_of(chunk)[i].precedes(dates_of(chunk)[j]) ==> new_instant(chunk, now, i).secs
            <= new_instant(chunk, now, j).secs,
{
    let dates = dates_of(chunk);
    lemma_remap_within_window(dates, now, i);
    lemma_remap_within_window(dates, now, j);
    if dates[i].precedes(dates[j]) {
        lemma_remap_monotonic(dates, now, i, j);
    }
}

/// Reads the reading dates of a batch. `Err(i)` names the first record whose
/// date is not valid. Every date that was read can be written.
pub fn parse_dates(chunk: &Vec<Record>) -> (r: Result<Vec<Instant>, usize>)
    ensures
        match r {
            Ok(dates) => {
                &&& all_dates_valid(chunk@)
                &&& dates@ == dates_of(chunk@)
                &&& forall|i: int|
                    0 <= i < dates@.len() ==> text_of_instant(#[trigger] dates@[i]).is_some()
            },
            Err(i) => {
                &&& i < chunk@.len()
                &&& date_at(chunk@, i as int).is_none()
                &&& forall|j: int| 0 <= j < i ==> (#[trigger] date_at(chunk@, j)).is_some()
            },
        },
{
    let mut dates: Vec<Instant> = Vec::new();
    let mut i: usize = 0;
    while i < chunk.len()
        invariant
            i <= chunk@.len(),
            dates@.len() == i,
            forall|j: int| 0 <= j < i ==> (#[trigger] date_at(chunk@, j)) == Some(dates@[j]),
            forall|j: int| 0 <= j < i ==> text_of_instant(#[trigger] dates@[j]).is_some(),
        decreases chunk@.len() - i,
    {
        match parse_instant(chunk[i].reading_date.as_str()) {
            Some(t) => {
                dates.push(t);
            },
            None => {
                return Err(i);
            },
        }
        i += 1;
    }
    proof {
        assert(dates@ =~= dates_of(chunk@));
    }
    Ok(dates)
}

/// Turns a batch of records into rows, in order: reads the dates, maps each
/// onto the window that starts twenty days before `now`, and lays out the
/// row. An empty batch gives no rows, and a batch without a span, whose new
/// timestamps are its own, is never out of range.
pub fn process_chunk(chunk: &Vec<Record>, now: Instant) -> (r: Result<Vec<OutputRow>, TransformError>)
    ensures
        match r {
            Ok(rows) => {
                &&& all_dates_valid(chunk@)
                &&& all_times_writable(chunk@, now)
                &&& rows@.len() == chunk@.len()
                &&& forall|i: int|
                    0 <= i < chunk@.len() ==> (#[trigger] rows@[i]).columns() == row_columns(
                        chunk@,
                        now,
                        i,
                    )
            },
            Err(TransformError::InvalidTimestamp { index }) => {
                &&& index < chunk@.len()
                &&& date_at(chunk@, index as int).is_none()
                &&& forall|j: int| 0 <= j < index ==> (#[trigger] date_at(chunk@, j)).is_some()
            },
            Err(TransformError::OutOfRange { index }) => {
                &&& out_of_range_at(chunk@, now, index as int)
                &&& span_nanos(dates_of(chunk@)) > 0
            },
        },
{
    let mut rows: Vec<OutputRow> = Vec::new();
    let dates = match parse_dates(chunk) {
        Ok(dates) => dates,
        Err(index) => {
            return Err(TransformError::InvalidTimestamp { index });
        },
    };
    let moved = match remap_batch(&dates, now) {
        Ok(moved) => moved,
        Err(index) => {
            return Err(TransformError::OutOfRange { index });
        },
    };
    let mut i: usize = 0;
    while i < chunk.len()
        invariant
            i <= chunk@.len(),
            rows@.len() == i,
            all_dates_valid(chunk@),
            dates@ == dates_of(chunk@),
            moved@.len() == chunk@.len(),
            forall|j: int| 0 <= j < dates@.len() ==> text_of_instant(#[trigger] dates@[j]).is_some(),
            forall|j: int| 0 <= j < chunk@.len() ==> #[trigger] fits(chunk@, now, j),
            forall|j: int|
                0 <= j < chunk@.len() ==> (#[trigger] moved@[j]) == new_instant(chunk@, now, j),
            forall|j: int| 0 <= j < i ==> (#[trigger] new_time_text(chunk@, now, j)).is_some(),
            forall|j: int|
                0 <= j < i ==> (#[trigger] rows@[j]).columns() == row_columns(chunk@, now, j),
        decreases chunk@.len() - i,
    {
        let text = match render_instant(moved[i]) {
            Some(text) => text,
            None => {
                proof {
                    assert(fits(chunk@, now, i as int));
                    if span_nanos(dates_of(chunk@)) <= 0 {
                        assert(moved@[i as int] == dates@[i as int]);
                        assert(text_of_instant(dates@[i as int]).is_some());
                    }
                }
                return Err(TransformError::OutOfRange { index: i });
            },
        };
        let row = format_row(&chunk[i], text.as_str());
        rows.push(row);
        i += 1;
    }
    Ok(rows)
}

/// The bytes of the file of a batch: the annotation lines, then the row of
/// each record on a line of its own, in the order of the records. It fails
/// where `process_chunk` does and nowhere else, and the bytes depend on the
/// records and on `now` alone.
pub fn render_chunk(chunk: &Vec<Record>, now: Instant) -> (r: Result<Vec<u8>, TransformError>)
    ensures
        match r {
            Ok(bytes) => {
                &&& all_dates_valid(chunk@)
                &&& all_times_writable(chunk@, now)
                &&& bytes@ == chunk_file(chunk@, now)
            },
            Err(TransformError::InvalidTimestamp { index }) => {
                &&& index < chunk@.len()
                &&& date_at(chunk@, index as int).is_none()
                &&& forall|j: int| 0 <= j < index ==> (#[trigger] date_at(chunk@, j)).is_some()
            },
            Err(TransformError::OutOfRange { index }) => {
                &&& out_of_range_at(chunk@, now, index as int)
                &&& span_nanos(dates_of(chunk@)) > 0
            },
        },
{
    let rows = match process_chunk(chunk, now) {
        Ok(rows) => rows,
        Err(e) => {
            return Err(e);
        },
    };
    proof {
        assert(encoded_rows(rows@) =~= chunk_records(chunk@, now));
    }
    Ok(render_batch(&rows))
}

} // verus!
