//! The output sink: an append-only table with one row per record and a
//! header row in front of the first row ever written.
//!
//! Nothing here writes.  The sink's books decide which bytes a batch adds
//! to the output; the caller appends them.

use crate::error::SinkError;
use crate::model::{record_views, Record, RecordView};
use vstd::prelude::*;

verus! {

/// The line that `csv::Writer::write_record` writes for a record of the
/// given fields under the writer's default settings, terminator included;
/// `None` where the writer reports an error.
pub uninterp spec fn csv_record(fields: Seq<Seq<char>>) -> Option<Seq<u8>>;

/// The characters of each of `fields`.
pub open spec fn field_views(fields: Seq<String>) -> Seq<Seq<char>> {
    fields.map_values(|s: String| s@)
}

/// The column names, in output order.
pub open spec fn header_fields() -> Seq<Seq<char>> {
    seq!["country"@, "name"@, "description"@, "id"@]
}

/// The rows of `records`, one after the other; `None` where a row cannot be
/// encoded.
pub open spec fn rows_bytes(records: Seq<RecordView>) -> Option<Seq<u8>>
    decreases records.len(),
{
    if records.len() == 0 {
        Some(Seq::empty())
    } else {
        match (rows_bytes(records.drop_last()), csv_record(records.last().fields())) {
            (Some(front), Some(row)) => Some(front + row),
            _ => None,
        }
    }
}

/// What a batch adds to the output: nothing for an empty batch, else its
/// rows, behind the header row where that is still due.
pub open spec fn batch_bytes(header_due: bool, records: Seq<RecordView>) -> Option<Seq<u8>> {
    if records.len() == 0 {
        Some(Seq::empty())
    } else if header_due {
        match (csv_record(header_fields()), rows_bytes(records)) {
            (Some(header), Some(rows)) => Some(header + rows),
            _ => None,
        }
    } else {
        rows_bytes(records)
    }
}

/// Whether the header row is still due after a batch: it stays due only
/// while nothing has been emitted.
pub open spec fn header_due_after(header_due: bool, records: Seq<RecordView>) -> bool {
    header_due && records.len() == 0
}

/// What a whole run adds to the output when its batches are emitted in
/// order; `None` where some row cannot be encoded.
pub open spec fn run_bytes(header_due: bool, batches: Seq<Seq<RecordView>>) -> Option<Seq<u8>>
    decreases batches.len(),
{
    if batches.len() == 0 {
        Some(Seq::empty())
    } else {
        match (
            batch_bytes(header_due, batches[0]),
            run_bytes(header_due_after(header_due, batches[0]), batches.drop_first()),
        ) {
            (Some(first), Some(rest)) => Some(first + rest),
            _ => None,
        }
    }
}

/// The records of all batches, in emission order.
pub open spec fn all_records(batches: Seq<Seq<RecordView>>) -> Seq<RecordView>
    decreases batches.len(),
{
    if batches.len() == 0 {
        Seq::empty()
    } else {
        batches[0] + all_records(batches.drop_first())
    }
}

/// Builds a `csv::Writer` with default settings over an empty buffer
/// (`csv::Writer::from_writer`), writes one record of the given fields into
/// it (`write_record`) and takes the buffer back (`into_inner`).  An error
/// from either call becomes `None`.  The contract claims only that the
/// outcome is a function of the fields.
#[verifier::external_body]
fn write_record(fields: &Vec<String>) -> (r: Option<Vec<u8>>)
    ensures
        r matches Some(line) ==> csv_record(field_views(fields@)) == Some(line@),
        r is None ==> csv_record(field_views(fields@)) is None,
{
    let mut writer = csv::Writer::from_writer(Vec::new());
    writer.write_record(fields).ok()?;
    writer.into_inner().ok()
}

/// The rows of two lists of records, one after the other, are the rows of
/// the lists joined.
pub proof fn lemma_rows_concat(a: Seq<RecordView>, b: Seq<RecordView>)
    requires
        rows_bytes(a) is Some,
        rows_bytes(b) is Some,
    ensures
        rows_bytes(a + b) == Some(rows_bytes(a)->Some_0 + rows_bytes(b)->Some_0),
    decreases b.len(),
{
    if b.len() == 0 {
        assert(a + b =~= a);
        assert(rows_bytes(a)->Some_0 + rows_bytes(b)->Some_0 =~= rows_bytes(a)->Some_0);
    } else {
        assert((a + b).drop_last() =~= a + b.drop_last());
        assert((a + b).last() == b.last());
        lemma_rows_concat(a, b.drop_last());
        let row = csv_record(b.last().fields())->Some_0;
        assert((rows_bytes(a)->Some_0 + rows_bytes(b.drop_last())->Some_0) + row =~= rows_bytes(
            a,
        )->Some_0 + (rows_bytes(b.drop_last())->Some_0 + row));
    }
}

/// A run that starts with the header written adds the rows of its records
/// and nothing else.
pub proof fn lemma_run_without_header(batches: Seq<Seq<RecordView>>)
    requires
        run_bytes(false, batches) is Some,
    ensures
        rows_bytes(all_records(batches)) == run_bytes(false, batches),
    decreases batches.len(),
{
    if batches.len() > 0 {
        lemma_run_without_header(batches.drop_first());
        lemma_rows_concat(batches[0], all_records(batches.drop_first()));
    }
}

/// A run that starts with the header due adds nothing if it has no record,
/// and else the header row once, in front of the rows of its records.
pub proof fn lemma_run_with_header(batches: Seq<Seq<RecordView>>)
    requires
        run_bytes(true, batches) is Some,
    ensures
        all_records(batches).len() == 0 ==> run_bytes(true, batches) == Some(Seq::<u8>::empty()),
        all_records(batches).len() > 0 ==> {
            &&& csv_record(header_fields()) is Some
            &&& run_bytes(false, batches) is Some
            &&& run_bytes(true, batches) == Some(
                csv_record(header_fields())->Some_0 + run_bytes(false, batches)->Some_0,
            )
        },
    decreases batches.len(),
{
    if batches.len() > 0 {
        let rest = batches.drop_first();
        if batches[0].len() == 0 {
            lemma_run_with_header(rest);
            assert(all_records(batches) =~= all_records(rest));
            if all_records(batches).len() > 0 {
                let header = csv_record(header_fields())->Some_0;
                let tail = run_bytes(false, rest)->Some_0;
                assert(Seq::<u8>::empty() + (header + tail) =~= header + (Seq::<u8>::empty()
                    + tail));
            }
        } else {
            let header = csv_record(header_fields())->Some_0;
            let rows = rows_bytes(batches[0])->Some_0;
            let tail = run_bytes(false, rest)->Some_0;
            assert((header + rows) + tail =~= header + (rows + tail));
        }
    }
}

/// A run against a sink that already holds something adds the rows of its
/// records and no header.
pub proof fn lemma_run_against_populated_sink(existing_len: nat, batches: Seq<Seq<RecordView>>)
    requires
        existing_len > 0,
        run_bytes(false, batches) is Some,
    ensures
        run_bytes(Sink::opened(existing_len).header_due, batches) == rows_bytes(
            all_records(batches),
        ),
{
    lemma_run_without_header(batches);
}

/// Running twice over the same batches, first against an empty sink and
/// then against what the first run left there, writes the header once and
/// every row twice: the second run appends exactly the rows of the first
/// behind it and leaves what was there untouched.
pub proof fn lemma_second_run_doubles_rows(batches: Seq<Seq<RecordView>>)
    requires
        run_bytes(true, batches) is Some,
        run_bytes(true, batches)->Some_0.len() > 0,
    ensures
        ({
            let header = csv_record(header_fields())->Some_0;
            let rows = rows_bytes(all_records(batches))->Some_0;
            let first = run_bytes(true, batches)->Some_0;
            let second = run_bytes(Sink::opened(first.len()).header_due, batches);
            &&& first == header + rows
            &&& second == Some(rows)
            &&& first + second->Some_0 == header + rows + rows
        }),
{
    lemma_run_with_header(batches);
    lemma_run_without_header(batches);
}

/// The books of the sink.
#[derive(Clone, Copy, Debug, PartialEq, Eq, Structural)]
pub struct Sink {
    /// Whether the header row has yet to be emitted.
    pub header_due: bool,
}

impl Sink {
    /// The books of a sink that holds `existing_len` bytes.
    pub open spec fn opened(existing_len: nat) -> Sink {
        Sink { header_due: existing_len == 0 }
    }

    /// Opens the books for a sink that holds `existing_len` bytes: the
    /// header row is due exactly when the sink is empty.
    pub fn open(existing_len: u64) -> (r: Sink)
        ensures
            r == Sink::opened(existing_len as nat),
    {
        Sink { header_due: existing_len == 0 }
    }

    /// The bytes that `records` add to the output.
    ///
    /// An empty batch adds nothing.  The first batch with a record is
    /// preceded by the header row if the sink was empty when it was opened.
    /// Once a batch has been handed out the header is never emitted again,
    /// whether or not the caller manages to write it.  A batch that cannot
    /// be encoded hands out nothing and leaves the books as they were.
    pub fn emit(&mut self, records: &Vec<Record>) -> (r: Result<Vec<u8>, SinkError>)
        ensures
            r matches Ok(bytes) ==> {
                &&& batch_bytes(old(self).header_due, record_views(records@)) == Some(bytes@)
                &&& final(self).header_due == header_due_after(
                    old(self).header_due,
                    record_views(records@),
                )
            },
            r matches Err(e) ==> {
                &&& e == SinkError::Encode
                &&& batch_bytes(old(self).header_due, record_views(records@)) is None
                &&& *final(self) == *old(self)
            },
    {
        match serialize_data(self.header_due, records) {
            Ok(bytes) => {
                if records.len() > 0 {
                    self.header_due = false;
                }
                Ok(bytes)
            },
            Err(e) => Err(e),
        }
    }
}

/// The column names, in output order.
pub fn header_row() -> (r: Vec<String>)
    ensures
        field_views(r@) == header_fields(),
{
    let mut r: Vec<String> = Vec::new();
    r.push("country".to_owned());
    r.push("name".to_owned());
    r.push("description".to_owned());
    r.push("id".to_owned());
    assert(field_views(r@) =~= header_fields());
    r
}

/// Serializes `records` as rows, behind the header row if `header_due` and
/// there is a record at all.
pub fn serialize_data(header_due: bool, records: &Vec<Record>) -> (r: Result<Vec<u8>, SinkError>)
    ensures
        r matches Ok(bytes) ==> batch_bytes(header_due, record_views(records@)) == Some(bytes@),
        r matches Err(e) ==> e == SinkError::Encode && batch_bytes(
            header_due,
            record_views(records@),
        ) is None,
{
    let mut out: Vec<u8> = Vec::new();
    if records.len() == 0 {
        return Ok(out);
    }
    let ghost views = record_views(records@);
    let ghost header: Seq<u8> = Seq::empty();
    if header_due {
        match write_record(&header_row()) {
            Some(mut line) => {
                proof {
                    header = line@;
                }
                out.append(&mut line);
            },
            None => {
                return Err(SinkError::Encode);
            },
        }
    }
    let mut i: usize = 0;
    assert(views.take(0) =~= Seq::<RecordView>::empty());
    assert(out@ =~= header + Seq::<u8>::empty());
    while i < records.len()
        invariant
            i <= records.len(),
            views == record_views(records@),
            header_due ==> csv_record(header_fields()) == Some(header),
            !header_due ==> header == Seq::<u8>::empty(),
            rows_bytes(views.take(i as int)) is Some,
            out@ == header + rows_bytes(views.take(i as int))->Some_0,
        decreases records.len() - i,
    {
        let fields = records[i].fields();
        proof {
            assert(views.take(i as int + 1).drop_last() =~= views.take(i as int));
            assert(views.take(i as int + 1).last() == records[i as int]@);
            assert(field_views(fields@) == records[i as int]@.fields());
        }
        match write_record(&fields) {
            Some(mut line) => {
                out.append(&mut line);
                assert(out@ =~= header + rows_bytes(views.take(i as int + 1))->Some_0);
            },
            None => {
                proof {
                    lemma_rows_need_every_row(views, i as int);
                }
                return Err(SinkError::Encode);
            },
        }
        i += 1;
    }
    proof {
        assert(views.take(i as int) =~= views);
        assert(Seq::<u8>::empty() + rows_bytes(views)->Some_0 =~= rows_bytes(views)->Some_0);
    }
    Ok(out)
}

/// A list of records has no rows when one of its records cannot be encoded.
pub proof fn lemma_rows_need_every_row(records: Seq<RecordView>, at: int)
    requires
        0 <= at < records.len(),
        csv_record(records[at].fields()) is None,
    ensures
        rows_bytes(records) is None,
    decreases records.len(),
{
    if at < records.len() - 1 {
        assert(records.drop_last()[at] == records[at]);
        lemma_rows_need_every_row(records.drop_last(), at);
    }
}

} // verus!
