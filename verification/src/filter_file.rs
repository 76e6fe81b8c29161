//! The flat-file codec for filter lists: a text of comma-separated two-field
//! lines, no header row. The comma-separated framing is done by the csv
//! crate behind trusted wrappers; the two-field check and the record
//! decoding are verified here.

use vstd::prelude::*;

use crate::error::Error;
use crate::filter::{ProgramFilter, Record, spec_decode, spec_encode};

verus! {

/// What the csv writer produces for the given two-field records: one
/// comma-separated line per record. The text is a function of the records
/// alone.
pub uninterp spec fn csv_text_of(rows: Seq<(Seq<char>, Seq<char>)>) -> Seq<char>;

/// What the csv reader parses the given text into: the rows of fields, or
/// nothing when the text is malformed. The outcome is a function of the
/// text alone.
pub uninterp spec fn csv_rows_of(text: Seq<char>) -> Option<Seq<Seq<Seq<char>>>>;

/// The two-field records as rows of fields, the shape the csv reader
/// hands back.
pub open spec fn spec_records_as_rows(rs: Seq<(Seq<char>, Seq<char>)>) -> Seq<Seq<Seq<char>>> {
    rs.map_values(|rec: (Seq<char>, Seq<char>)| seq![rec.0, rec.1])
}

/// Relies on csv::Writer::write_record: serializes each two-field record as
/// one comma-separated line into an in-memory buffer. Writing same-length
/// records into memory cannot fail, the output of UTF-8 fields is UTF-8,
/// and the csv reader parses the written text back into exactly the
/// written rows (quoting protects delimiters, quotes and line breaks).
#[verifier::external_body]
fn csv_encode_records(records: &Vec<Record>) -> (r: Result<String, Error>)
    ensures
        r is Ok,
        (r->Ok_0)@ == csv_text_of(records@.map_values(|x: Record| x@)),
        csv_rows_of((r->Ok_0)@) == Some(
            spec_records_as_rows(records@.map_values(|x: Record| x@)),
        ),
{
    let mut writer = csv::Writer::from_writer(Vec::new());
    for rec in records.iter() {
        if writer.write_record(&[rec.tag.as_str(), rec.value.as_str()]).is_err() {
            return Err(Error::ParsingFile);
        }
    }
    match writer.into_inner() {
        Ok(bytes) => String::from_utf8(bytes).map_err(|_| Error::ParsingFile),
        Err(_) => Err(Error::ParsingFile),
    }
}

/// Relies on csv::Reader::records: parses comma-separated text without a
/// header row into rows of fields, failing on malformed text.
#[verifier::external_body]
fn csv_parse_rows(text: &str) -> (r: Result<Vec<Vec<String>>, Error>)
    ensures
        r is Ok <==> csv_rows_of(text@) is Some,
        r is Ok ==> (r->Ok_0).deep_view() == csv_rows_of(text@)->Some_0,
        r is Err ==> r->Err_0 == Error::ParsingFile,
{
    let mut reader = csv::ReaderBuilder::new().has_headers(false).from_reader(text.as_bytes());
    let mut rows: Vec<Vec<String>> = Vec::new();
    for rec in reader.records() {
        match rec {
            Ok(rec) => rows.push(rec.iter().map(|f| f.to_string()).collect()),
            Err(_) => return Err(Error::ParsingFile),
        }
    }
    Ok(rows)
}

/// Whether every row has exactly two fields.
pub open spec fn spec_rows_two_fields(rows: Seq<Seq<Seq<char>>>) -> bool {
    forall|i: int| 0 <= i < rows.len() ==> (#[trigger] rows[i]).len() == 2
}

/// The records of two-field rows: first field the tag, second the value.
pub open spec fn spec_rows_to_records(rows: Seq<Seq<Seq<char>>>) -> Seq<(Seq<char>, Seq<char>)> {
    rows.map_values(|row: Seq<Seq<char>>| (row[0], row[1]))
}

/// What decoding a filter file text yields: failure when the text is
/// malformed, a row has a field count other than two, or a record's tag is
/// not recognized by exactly one decoder; else the decoded filter.
pub open spec fn spec_decode_text(text: Seq<char>) -> Option<crate::filter::ProgramFilterView> {
    match csv_rows_of(text) {
        None => None,
        Some(rows) => if spec_rows_two_fields(rows) {
            spec_decode(spec_rows_to_records(rows))
        } else {
            None
        },
    }
}

impl ProgramFilter {
    /// Serialize this filter as the flat-file text: every channel record
    /// before every movie record, one comma-separated line per record.
    /// Serializing cannot fail, and decoding the returned text recovers
    /// this filter: the write-then-read round trip is lossless.
    pub fn encode_to_string(&self) -> (r: Result<String, Error>)
        ensures
            r is Ok,
            (r->Ok_0)@ == csv_text_of(spec_encode(self@)),
            spec_decode_text((r->Ok_0)@) == Some(self@),
    {
        let records = self.to_records();
        let r = csv_encode_records(&records);
        proof {
            let recs = records@.map_values(|x: Record| x@);
            let rows = spec_records_as_rows(recs);
            assert forall|i: int| 0 <= i < rows.len() implies (#[trigger] rows[i]).len() == 2 by {
                assert(rows[i] == seq![recs[i].0, recs[i].1]);
            }
            assert(spec_rows_to_records(rows) =~= recs);
            assert(recs =~= spec_encode(self@));
            crate::filter::lemma_encode_decode_round_trip(self@);
        }
        r
    }

    /// Decode a filter from flat-file text. Malformed text, a line whose
    /// field count is not two, and an unrecognized or ambiguous tag all
    /// fail the whole conversion; no partial filter is produced.
    pub fn decode_from_string(text: &str) -> (r: Result<ProgramFilter, Error>)
        ensures
            r is Ok <==> spec_decode_text(text@) is Some,
            r is Ok ==> Some((r->Ok_0)@) == spec_decode_text(text@),
            r is Err ==> r->Err_0 == Error::ParsingFile,
    {
        let rows = match csv_parse_rows(text) {
            Ok(rows) => rows,
            Err(_) => {
                return Err(Error::ParsingFile);
            },
        };
        let ghost rows_v = rows.deep_view();
        let mut records: Vec<Record> = Vec::new();
        let mut i: usize = 0;
        while i < rows.len()
            invariant
                rows_v == rows.deep_view(),
                csv_rows_of(text@) == Some(rows_v),
                i <= rows@.len(),
                rows_v.len() == rows@.len(),
                forall|k: int| 0 <= k < i ==> (#[trigger] rows_v[k]).len() == 2,
                records@.len() == i,
                forall|k: int|
                    0 <= k < i ==> (#[trigger] records@[k])@ == (rows_v[k][0], rows_v[k][1]),
            decreases rows@.len() - i,
        {
            let row = &rows[i];
            proof {
                assert(rows_v[i as int] == rows@[i as int].deep_view());
            }
            if row.len() != 2 {
                proof {
                    assert(!spec_rows_two_fields(rows_v));
                }
                return Err(Error::ParsingFile);
            }
            records.push(Record { tag: row[0].clone(), value: row[1].clone() });
            i += 1;
        }
        proof {
            assert(records@.map_values(|x: Record| x@) =~= spec_rows_to_records(rows_v));
        }
        match ProgramFilter::try_from_records(&records) {
            Ok(filter) => Ok(filter),
            Err(_) => Err(Error::ParsingFile),
        }
    }
}

} // verus!
