//! Counting the records of one gzip-compressed, headerless CSV stream.
use vstd::prelude::*;
use crate::counter::{plus, row_count, Counter};
use crate::timestamp::Instant;

verus! {

/// Zero-based index of the last-modified column in
/// `(bucket, key, size, last_modified, etag)`.
pub const TIMESTAMP_COLUMN: usize = 3;

#[verifier::external_type_specification]
#[verifier::external_body]
#[verifier::reject_recursive_types(R)]
pub struct ExCsvReader<R>(csv::Reader<R>);

#[verifier::external_type_specification]
#[verifier::external_body]
pub struct ExByteRecord(csv::ByteRecord);

#[verifier::external_type_specification]
#[verifier::external_body]
#[verifier::reject_recursive_types(R)]
pub struct ExGzDecoder<R>(flate2::read::GzDecoder<R>);

/// Relies on csv's `ByteRecord::new`: an empty record buffer.
pub assume_specification[ csv::ByteRecord::new ]() -> csv::ByteRecord;

/// Relies on csv's `ByteRecord::get`: the bytes of field `i`, if the record has one.
pub assume_specification[ csv::ByteRecord::get ](record: &csv::ByteRecord, i: usize) -> Option<&[u8]>;

/// Why a stream could not be counted.
#[derive(Clone, Copy, Debug, PartialEq, Eq, Structural)]
pub enum CountError {
    /// Reading failed, or the compressed framing is corrupt.
    ReadFailed,
    /// The stream holds more records than a counter can hold.
    TooManyRecords,
}

/// What one attempt to read a record gave.
#[derive(Clone, Copy, Debug, PartialEq, Eq, Structural)]
pub enum RowOutcome {
    /// A record was read into the buffer.
    Record,
    /// A record was read but is not a well-formed field sequence.
    Malformed,
    /// The stream is exhausted.
    End,
    /// Reading or decompressing the underlying bytes failed.
    Failed,
}

/// Relies on flate2's `read::GzDecoder::new`: a reader of the decompressed bytes of `input`.
#[verifier::external_body]
fn gunzip<R: std::io::Read>(input: R) -> flate2::read::GzDecoder<R> {
    flate2::read::GzDecoder::new(input)
}

/// Relies on csv's `ReaderBuilder`: a comma-separated reader of `input` with no header row.
#[verifier::external_body]
fn headerless_csv<R: std::io::Read>(input: R) -> csv::Reader<R> {
    csv::ReaderBuilder::new().has_headers(false).from_reader(input)
}

/// Relies on csv's `Reader::read_byte_record`: reads the next record into `record`;
/// `Ok(false)` at the end, an I/O error when the bytes below cannot be had, another
/// error for a record that is not well formed.
#[verifier::external_body]
fn read_row<R: std::io::Read>(reader: &mut csv::Reader<R>, record: &mut csv::ByteRecord) -> RowOutcome {
    match reader.read_byte_record(record) {
        Ok(true) => RowOutcome::Record,
        Ok(false) => RowOutcome::End,
        Err(e) if e.is_io_error() => RowOutcome::Failed,
        Err(_) => RowOutcome::Malformed,
    }
}

/// Where a scan stands after one read.
#[derive(Clone, Copy, Debug)]
pub enum Scan {
    /// Keep reading, with this counter.
    Continue(Counter),
    /// The stream is done with, with this result.
    Finished(Result<Counter, CountError>),
}

/// The bytes of an optional field, as a sequence.
pub open spec fn field_view(field: Option<&[u8]>) -> Option<Seq<u8>> {
    match field {
        Some(f) => Some(f@),
        None => None,
    }
}

/// Decides what one read means for `counter`: a record is counted, a malformed
/// record counts toward `total` only, the end of the stream finishes the scan
/// with `counter`, and a failed read finishes it with an error. `field` is the
/// record's timestamp column, looked at only when a record was read.
pub fn advance(counter: Counter, outcome: RowOutcome, field: Option<&[u8]>, cutoff: Instant) -> (r: Scan)
    requires
        counter.total < u64::MAX,
        counter.recent <= counter.total,
    ensures
        (match outcome {
            RowOutcome::Record => r is Continue && r->Continue_0@ == plus(
                counter@,
                row_count(field_view(field), cutoff),
            ),
            RowOutcome::Malformed => r is Continue && r->Continue_0@ == plus(counter@, (1nat, 0nat)),
            RowOutcome::End => r == Scan::Finished(Ok(counter)),
            RowOutcome::Failed => r == Scan::Finished(Err(CountError::ReadFailed)),
        }),
        r is Continue ==> r->Continue_0.recent <= r->Continue_0.total,
{
    let mut next = counter;
    match outcome {
        RowOutcome::Record => {
            next.record(field, cutoff);
            Scan::Continue(next)
        },
        RowOutcome::Malformed => {
            next.record(None, cutoff);
            Scan::Continue(next)
        },
        RowOutcome::End => Scan::Finished(Ok(counter)),
        RowOutcome::Failed => Scan::Finished(Err(CountError::ReadFailed)),
    }
}

/// Counts the records of the gzip-compressed CSV stream `input`, and those of them
/// whose last-modified timestamp lies strictly after `cutoff`. A record whose
/// timestamp is missing, malformed or not UTF-8 counts toward `total` only.
pub fn count<R: std::io::Read>(input: R, cutoff: Instant) -> (r: Result<Counter, CountError>)
    ensures
        r.is_ok() ==> r.unwrap().recent <= r.unwrap().total,
{
    let mut reader = headerless_csv(gunzip(input));
    let mut record = csv::ByteRecord::new();
    let mut counter = Counter::new();
    loop
        invariant
            counter.recent <= counter.total,
        decreases u64::MAX - counter.total,
    {
        if counter.total == u64::MAX {
            return Err(CountError::TooManyRecords);
        }
        let outcome = read_row(&mut reader, &mut record);
        let field = if outcome == RowOutcome::Record {
            record.get(TIMESTAMP_COLUMN)
        } else {
            None
        };
        match advance(counter, outcome, field, cutoff) {
            Scan::Continue(next) => {
                counter = next;
            },
            Scan::Finished(result) => {
                return result;
            },
        }
    }
}

} // verus!
