use vstd::prelude::*;

use crate::render::RenderError;
use crate::schema::views;

verus! {

#[verifier::external_type_specification]
#[verifier::external_body]
pub struct ExCsvError(csv::Error);

/// Whether a field must be enclosed in quotes: it holds a comma, a quote or a
/// line break.
pub open spec fn needs_quotes(f: Seq<char>) -> bool {
    exists|i: int| 0 <= i < f.len() && (f[i] == ',' || f[i] == '"' || f[i] == '\n' || f[i] == '\r')
}

/// The field with every quote doubled.
pub open spec fn doubled_quotes(f: Seq<char>) -> Seq<char>
    decreases f.len(),
{
    if f.len() == 0 {
        seq![]
    } else {
        doubled_quotes(f.drop_last()) + if f.last() == '"' {
            seq!['"', '"']
        } else {
            seq![f.last()]
        }
    }
}

/// One field as it stands in delimited text.
pub open spec fn field_out(f: Seq<char>) -> Seq<char> {
    if needs_quotes(f) {
        seq!['"'] + doubled_quotes(f) + seq!['"']
    } else {
        f
    }
}

/// The fields written out and separated by commas.
pub open spec fn joined(fs: Seq<Seq<char>>) -> Seq<char>
    decreases fs.len(),
{
    if fs.len() == 0 {
        seq![]
    } else if fs.len() == 1 {
        field_out(fs[0])
    } else {
        joined(fs.drop_last()) + seq![','] + field_out(fs.last())
    }
}

/// One record as a line of delimited text. A record that would write nothing
/// (no field, or one empty field) is written as an empty quoted field.
pub open spec fn record_line(fs: Seq<Seq<char>>) -> Seq<char> {
    (if joined(fs).len() == 0 {
        seq!['"', '"']
    } else {
        joined(fs)
    }) + seq!['\n']
}

/// The lines of all records, one after another.
pub open spec fn delimited_text(rows: Seq<Seq<Seq<char>>>) -> Seq<char>
    decreases rows.len(),
{
    if rows.len() == 0 {
        seq![]
    } else {
        delimited_text(rows.drop_last()) + record_line(rows.last())
    }
}

/// The views of a table of strings.
pub open spec fn table_views(rows: Seq<Vec<String>>) -> Seq<Seq<Seq<char>>> {
    rows.map_values(|r: Vec<String>| views(r@))
}

/// Relies on `csv::Writer::write_record` on a writer that `csv::WriterBuilder`
/// made with a comma delimiter and its other settings left as they are (quote
/// when necessary, doubled quotes, `\n` after each record), writing into a
/// `Vec<u8>` that `into_inner` hands back; the bytes are read as UTF-8.
#[verifier::external_body]
fn encode_record(fields: &Vec<String>) -> (r: Result<String, csv::Error>)
    ensures
        r is Ok,
        r->Ok_0@ == record_line(views(fields@)),
{
    let mut w = csv::WriterBuilder::new().delimiter(b',').from_writer(Vec::new());
    w.write_record(fields)?;
    let bytes = w.into_inner().map_err(|e| csv::Error::from(e.into_error()))?;
    String::from_utf8(bytes).map_err(
        |e| csv::Error::from(std::io::Error::new(std::io::ErrorKind::InvalidData, e)),
    )
}

/// Writes the rows as delimited text, one line per row.
pub fn to_delimited_text(rows: &Vec<Vec<String>>) -> (r: Result<String, RenderError>)
    ensures
        r is Ok,
        r->Ok_0@ == delimited_text(table_views(rows@)),
{
    let mut out = String::new();
    let mut i: usize = 0;
    while i < rows.len()
        invariant
            i <= rows@.len(),
            out@ == delimited_text(table_views(rows@.subrange(0, i as int))),
        decreases rows@.len() - i,
    {
        let ghost next = table_views(rows@.subrange(0, i + 1));
        assert(next.drop_last() =~= table_views(rows@.subrange(0, i as int)));
        assert(next.last() == views(rows@[i as int]@));
        match encode_record(&rows[i]) {
            Ok(line) => {
                out.append(line.as_str());
            },
            Err(_) => {
                return Err(RenderError::EncodingFailure);
            },
        }
        i = i + 1;
    }
    assert(rows@.subrange(0, rows@.len() as int) =~= rows@);
    Ok(out)
}

} // verus!
