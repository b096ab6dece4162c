//! Input records, output rows, and the quoting of their text fields.

use vstd::prelude::*;
use vstd::std_specs::iter::IteratorSpec;

verus! {

/// One reading as it was read: the date-time text, the value as decimal
/// text, and three attributes that are passed through.
#[derive(Clone, Debug)]
pub struct Record {
    pub reading_date: String,
    pub value: String,
    pub display_reference: String,
    pub location: String,
    pub reading_type: String,
}

/// One line of annotated CSV, column by column.
#[derive(Clone, Debug)]
pub struct OutputRow {
    pub result: String,
    pub table: String,
    pub start: String,
    pub stop: String,
    pub time: String,
    pub value: String,
    pub field: String,
    pub measurement: String,
    pub display_reference: String,
    pub location: String,
    pub reading_type: String,
}

/// A field is quoted where it holds a comma or a space.
pub open spec fn must_quote(s: Seq<char>) -> bool {
    exists|k: int| 0 <= k < s.len() && (s[k] == ',' || s[k] == ' ')
}

/// A field as it is written: between double quotes where it must be quoted,
/// unchanged where not. Quotes inside the field stay as they are.
pub open spec fn quoted(s: Seq<char>) -> Seq<char> {
    if must_quote(s) {
        seq!['"'] + s + seq!['"']
    } else {
        s
    }
}

/// The eleven columns of the row of `record` at the time `time`.
pub open spec fn formatted_columns(record: Record, time: Seq<char>) -> Seq<Seq<char>> {
    seq![
        Seq::<char>::empty(),
        Seq::<char>::empty(),
        time,
        time,
        time,
        record.value@,
        "reading"@,
        "metrics"@,
        quoted(record.display_reference@),
        quoted(record.location@),
        record.reading_type@,
    ]
}

impl OutputRow {
    /// The row's columns in the order in which they are written.
    pub open spec fn columns(self) -> Seq<Seq<char>> {
        seq![
            self.result@,
            self.table@,
            self.start@,
            self.stop@,
            self.time@,
            self.value@,
            self.field@,
            self.measurement@,
            self.display_reference@,
            self.location@,
            self.reading_type@,
        ]
    }

    /// The columns as owned strings, in the order in which they are written.
    pub fn to_columns(&self) -> (r: Vec<String>)
        ensures
            r@.len() == 11,
            r@.map_values(|s: String| s@) == self.columns(),
    {
        let mut out: Vec<String> = Vec::new();
        out.push(self.result.clone());
        out.push(self.table.clone());
        out.push(self.start.clone());
        out.push(self.stop.clone());
        out.push(self.time.clone());
        out.push(self.value.clone());
        out.push(self.field.clone());
        out.push(self.measurement.clone());
        out.push(self.display_reference.clone());
        out.push(self.location.clone());
        out.push(self.reading_type.clone());
        assert(out@.map_values(|s: String| s@) =~= self.columns());
        out
    }
}

/// Whether a field holds a comma or a space.
pub fn needs_quotes(s: &str) -> (r: bool)
    ensures
        r == must_quote(s@),
{
    broadcast use vstd::string::next_postcondition, vstd::string::axiom_spec_iter;

    let mut it = s.chars();
    let ghost mut seen: int = 0;
    loop
        invariant
            it.obeys_prophetic_iter_laws(),
            0 <= seen <= s@.len(),
            it.remaining() == s@.skip(seen),
            forall|k: int| 0 <= k < seen ==> s@[k] != ',' && s@[k] != ' ',
        decreases s@.len() - seen,
    {
        match it.next() {
            Some(c) => {
                assert(c == s@[seen]);
                if c == ',' || c == ' ' {
                    return true;
                }
                proof {
                    assert(s@.skip(seen).drop_first() =~= s@.skip(seen + 1));
                    seen = seen + 1;
                }
            },
            None => {
                return false;
            },
        }
    }
}

/// Puts a field between double quotes where it holds a comma or a space.
pub fn quote_field(s: &str) -> (r: String)
    ensures
        r@ == quoted(s@),
{
    if needs_quotes(s) {
        proof {
            reveal_strlit("\"");
        }
        let mut out: String = String::from_str("\"");
        out.append(s);
        out.append("\"");
        assert(out@ =~= seq!['"'] + s@ + seq!['"']);
        out
    } else {
        String::from_str(s)
    }
}

/// Lays out the row of a record whose new timestamp is written `time`.
pub fn format_row(record: &Record, time: &str) -> (r: OutputRow)
    ensures
        r.columns() == formatted_columns(*record, time@),
{
    let row = OutputRow {
        result: String::new(),
        table: String::new(),
        start: String::from_str(time),
        stop: String::from_str(time),
        time: String::from_str(time),
        value: record.value.clone(),
        field: String::from_str("reading"),
        measurement: String::from_str("metrics"),
        display_reference: quote_field(record.display_reference.as_str()),
        location: quote_field(record.location.as_str()),
        reading_type: record.reading_type.clone(),
    };
    assert(row.columns() =~= formatted_columns(*record, time@));
    row
}

} // verus!
