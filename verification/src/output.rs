//! The contents and the name of the file that one batch is written to.

use vstd::prelude::*;
use vstd::utf8::encode_utf8;
use crate::row::OutputRow;

verus! {

/// csv's `Error`, the reason why a record was not written. It is carried
/// through unread.
#[verifier::external_type_specification]
#[verifier::external_body]
pub struct ExCsvError(csv::Error);

/// The fields of a record as bytes, with a comma between one field and the
/// next. Nothing is quoted or escaped.
pub open spec fn fields_bytes(fields: Seq<Seq<char>>) -> Seq<u8>
    decreases fields.len(),
{
    if fields.len() == 0 {
        Seq::<u8>::empty()
    } else if fields.len() == 1 {
        encode_utf8(fields[0])
    } else {
        fields_bytes(fields.drop_last()) + seq![44u8] + encode_utf8(fields.last())
    }
}

/// A record as it stands in the file: its fields with commas between them,
/// and a line feed at the end.
pub open spec fn record_line(fields: Seq<Seq<char>>) -> Seq<u8> {
    fields_bytes(fields) + seq![10u8]
}

/// The four annotation lines that open every file.
pub open spec fn annotation_lines() -> Seq<Seq<char>> {
    seq![
        "#group,false,false,true,true,false,false,true,true,true,true,true"@,
        "#datatype,string,long,dateTime:RFC3339,dateTime:RFC3339,dateTime:RFC3339,double,string,string,string,string,string"@,
        "#default,mean,,,,,,,,,,"@,
        ",result,table,_start,_stop,_time,_value,_field,_measurement,displayReference,location,readingType"@,
    ]
}

/// Lines of text as bytes, each followed by a line feed.
pub open spec fn lines_bytes(lines: Seq<Seq<char>>) -> Seq<u8>
    decreases lines.len(),
{
    if lines.len() == 0 {
        Seq::<u8>::empty()
    } else {
        lines_bytes(lines.drop_last()) + encode_utf8(lines.last()) + seq![10u8]
    }
}

/// Byte strings put one after the other.
pub open spec fn joined(parts: Seq<Seq<u8>>) -> Seq<u8>
    decreases parts.len(),
{
    if parts.len() == 0 {
        Seq::<u8>::empty()
    } else {
        joined(parts.drop_last()) + parts.last()
    }
}

/// A file: the annotation lines, then the records.
pub open spec fn file_bytes(annotations: Seq<Seq<char>>, records: Seq<Seq<u8>>) -> Seq<u8> {
    lines_bytes(annotations) + joined(records)
}

/// The records of a batch of rows, one per row, in order.
pub open spec fn encoded_rows(rows: Seq<OutputRow>) -> Seq<Seq<u8>> {
    rows.map_values(|row: OutputRow| record_line(row.columns()))
}

/// The decimal digit `d` as text.
pub open spec fn digit_text(d: int) -> Seq<char> {
    if d == 0 {
        "0"@
    } else if d == 1 {
        "1"@
    } else if d == 2 {
        "2"@
    } else if d == 3 {
        "3"@
    } else if d == 4 {
        "4"@
    } else if d == 5 {
        "5"@
    } else if d == 6 {
        "6"@
    } else if d == 7 {
        "7"@
    } else if d == 8 {
        "8"@
    } else {
        "9"@
    }
}

/// A number in decimal, without leading zeros.
pub open spec fn decimal_text(n: nat) -> Seq<char>
    decreases n,
{
    if n < 10 {
        digit_text(n as int)
    } else {
        decimal_text(n / 10) + digit_text((n % 10) as int)
    }
}

/// The name of the file of batch `index`.
pub open spec fn file_name_text(index: nat) -> Seq<char> {
    "influx_batch_"@ + decimal_text(index) + ".csv"@
}

/// Writes one record with `csv::Writer::write_record`, on a writer that
/// `csv::WriterBuilder` made over an empty buffer, without headers and with
/// `QuoteStyle::Never`, and takes the buffer back with `into_inner`.
/// Trusted: such a writer copies each field as it is, puts a comma between
/// two fields and a line feed after the last. It reports an error only where
/// the buffer does, which a `Vec` never does, or where a record has another
/// number of fields than the writer's first, and this record is its first.
/// A record of a single field is left out, since csv writes an empty one as
/// two quotes.
#[verifier::external_body]
fn csv_encode(fields: &Vec<String>) -> (r: Result<Vec<u8>, csv::Error>)
    requires
        fields@.len() >= 2,
    ensures
        r.is_ok(),
        r matches Ok(bytes) ==> bytes@ == record_line(fields@.map_values(|s: String| s@)),
{
    let mut builder = csv::WriterBuilder::new();
    builder.has_headers(false).quote_style(csv::QuoteStyle::Never);
    let mut writer = builder.from_writer(Vec::new());
    writer.write_record(fields)?;
    match writer.into_inner() {
        Ok(bytes) => Ok(bytes),
        Err(failed) => Err(csv::Error::from(failed.into_error())),
    }
}

/// One row as a record of the file: its eleven columns as they are, with
/// commas between them and a line feed at the end.
pub fn encode_row(row: &OutputRow) -> (r: Vec<u8>)
    ensures
        r@ == record_line(row.columns()),
{
    let fields = row.to_columns();
    match csv_encode(&fields) {
        Ok(bytes) => bytes,
        Err(_) => vstd::pervasive::unreached(),
    }
}

/// The annotation lines: column grouping, column types, the default
/// aggregation, and the column names.
pub fn annotations() -> (r: Vec<String>)
    ensures
        r@.map_values(|s: String| s@) == annotation_lines(),
{
    let mut out: Vec<String> = Vec::new();
    out.push(String::from_str("#group,false,false,true,true,false,false,true,true,true,true,true"));
    out.push(
        String::from_str(
            "#datatype,string,long,dateTime:RFC3339,dateTime:RFC3339,dateTime:RFC3339,double,string,string,string,string,string",
        ),
    );
    out.push(String::from_str("#default,mean,,,,,,,,,,"));
    out.push(
        String::from_str(
            ",result,table,_start,_stop,_time,_value,_field,_measurement,displayReference,location,readingType",
        ),
    );
    assert(out@.map_values(|s: String| s@) =~= annotation_lines());
    out
}

fn append_bytes(out: &mut Vec<u8>, more: &[u8])
    ensures
        final(out)@ == old(out)@ + more@,
{
    let mut i: usize = 0;
    while i < more.len()
        invariant
            i <= more@.len(),
            out@ == old(out)@ + more@.take(i as int),
        decreases more@.len() - i,
    {
        out.push(more[i]);
        proof {
            assert(more@.take(i + 1) =~= more@.take(i as int).push(more@[i as int]));
            assert(out@ =~= old(out)@ + more@.take(i + 1));
        }
        i += 1;
    }
    proof {
        assert(more@.take(i as int) =~= more@);
    }
}

/// Puts a file together: every annotation line with a line feed after it,
/// then the records as they are.
pub fn assemble_file(annotations: &Vec<String>, records: &Vec<Vec<u8>>) -> (r: Vec<u8>)
    ensures
        r@ == file_bytes(
            annotations@.map_values(|s: String| s@),
            records@.map_values(|b: Vec<u8>| b@),
        ),
{
    let ghost lines = annotations@.map_values(|s: String| s@);
    let ghost parts = records@.map_values(|b: Vec<u8>| b@);
    let mut out: Vec<u8> = Vec::new();
    let mut i: usize = 0;
    while i < annotations.len()
        invariant
            i <= annotations@.len(),
            lines == annotations@.map_values(|s: String| s@),
            out@ == lines_bytes(lines.take(i as int)),
        decreases annotations@.len() - i,
    {
        proof {
            assert(lines.take(i + 1).drop_last() =~= lines.take(i as int));
            assert(lines.take(i + 1).last() == annotations@[i as int]@);
        }
        append_bytes(&mut out, annotations[i].as_str().as_bytes());
        out.push(10u8);
        proof {
            assert(out@ =~= lines_bytes(lines.take(i as int)) + encode_utf8(annotations@[i as int]@)
                + seq![10u8]);
        }
        i += 1;
    }
    proof {
        assert(lines.take(i as int) =~= lines);
        assert(parts.take(0) =~= Seq::<Seq<u8>>::empty());
        assert(out@ =~= lines_bytes(lines) + joined(parts.take(0)));
    }
    let mut j: usize = 0;
    while j < records.len()
        invariant
            j <= records@.len(),
            parts == records@.map_values(|b: Vec<u8>| b@),
            out@ == lines_bytes(lines) + joined(parts.take(j as int)),
        decreases records@.len() - j,
    {
        proof {
            assert(parts.take(j + 1).drop_last() =~= parts.take(j as int));
            assert(parts.take(j + 1).last() == records@[j as int]@);
        }
        append_bytes(&mut out, records[j].as_slice());
        proof {
            assert(out@ =~= lines_bytes(lines) + joined(parts.take(j + 1)));
        }
        j += 1;
    }
    proof {
        assert(parts.take(j as int) =~= parts);
    }
    out
}

/// The contents of the file of a batch of rows: the annotation lines, then
/// one record per row, in the order of the rows.
pub fn render_batch(rows: &Vec<OutputRow>) -> (r: Vec<u8>)
    ensures
        r@ == file_bytes(annotation_lines(), encoded_rows(rows@)),
{
    let mut records: Vec<Vec<u8>> = Vec::new();
    let mut i: usize = 0;
    while i < rows.len()
        invariant
            i <= rows@.len(),
            records@.len() == i,
            forall|k: int|
                0 <= k < i ==> (#[trigger] records@[k])@ == record_line(rows@[k].columns()),
        decreases rows@.len() - i,
    {
        let bytes = encode_row(&rows[i]);
        records.push(bytes);
        i += 1;
    }
    let lines = annotations();
    let out = assemble_file(&lines, &records);
    proof {
        assert(records@.map_values(|b: Vec<u8>| b@) =~= encoded_rows(rows@));
    }
    out
}

fn digit_str(d: usize) -> (r: &'static str)
    requires
        d < 10,
    ensures
        r@ == digit_text(d as int),
{
    if d == 0 {
        "0"
    } else if d == 1 {
        "1"
    } else if d == 2 {
        "2"
    } else if d == 3 {
        "3"
    } else if d == 4 {
        "4"
    } else if d == 5 {
        "5"
    } else if d == 6 {
        "6"
    } else if d == 7 {
        "7"
    } else if d == 8 {
        "8"
    } else {
        "9"
    }
}

/// Writes a number in decimal.
pub fn decimal_string(n: usize) -> (r: String)
    ensures
        r@ == decimal_text(n as nat),
    decreases n,
{
    if n < 10 {
        String::from_str(digit_str(n))
    } else {
        let mut out: String = decimal_string(n / 10);
        out.append(digit_str(n % 10));
        out
    }
}

/// The name of the file that batch `index` is written to, counting batches
/// from zero.
pub fn output_file_name(index: usize) -> (r: String)
    ensures
        r@ == file_name_text(index as nat),
{
    let mut out: String = String::from_str("influx_batch_");
    let digits = decimal_string(index);
    out.append(digits.as_str());
    out.append(".csv");
    out
}

} // verus!
