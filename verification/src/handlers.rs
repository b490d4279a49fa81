//! The two request handlers: taking a report in, and giving all records out.

use vstd::prelude::*;
use vstd::string::StringExecFns;
use crate::gps_data::{record_spec, IncomingData, Record, StoredData};
use crate::store::{append_to, records_of, snapshot_of, RecordLog, RecordStore, StoreError};
use crate::wire::{decode_spec, DecodeError};

verus! {

/// Why a report was not taken in.
#[derive(Clone, Copy, Debug, PartialEq, Eq, Structural)]
pub enum IngestError {
    /// The payload does not decode: the sender's fault.
    BadPayload(DecodeError),
    /// The store could not be reached: the server's fault, and transient.
    StoreUnavailable,
}

/// Why the records were not given out.
#[derive(Clone, Copy, Debug, PartialEq, Eq, Structural)]
pub enum QueryError {
    /// The store could not be reached.
    StoreUnavailable,
}

/// The status of a request that the sender got wrong.
pub const STATUS_BAD_REQUEST: u16 = 400;

/// The status of a request that the server could not serve.
pub const STATUS_SERVER_ERROR: u16 = 500;

impl IngestError {
    /// The status that tells the sender whose fault the failure is.
    pub open spec fn status_spec(self) -> u16 {
        match self {
            IngestError::BadPayload(_) => STATUS_BAD_REQUEST,
            IngestError::StoreUnavailable => STATUS_SERVER_ERROR,
        }
    }

    /// The failure in words.
    pub open spec fn message_spec(self) -> Seq<char> {
        match self {
            IngestError::BadPayload(e) => "Failed to parse payload: "@ + e.message_spec(),
            IngestError::StoreUnavailable => "Failed to lock data store"@,
        }
    }

    /// The status to answer with: a rejected payload is the sender's fault,
    /// a store out of reach the server's.
    pub fn status_code(&self) -> (code: u16)
        ensures
            code == self.status_spec(),
    {
        match self {
            IngestError::BadPayload(_) => STATUS_BAD_REQUEST,
            IngestError::StoreUnavailable => STATUS_SERVER_ERROR,
        }
    }

    /// The failure in words, with the reason for a rejected payload.
    pub fn message(&self) -> (text: String)
        ensures
            text@ == self.message_spec(),
    {
        match self {
            IngestError::BadPayload(e) => {
                let mut text = String::from_str("Failed to parse payload: ");
                text.append(e.message().as_str());
                text
            },
            IngestError::StoreUnavailable => String::from_str("Failed to lock data store"),
        }
    }
}

impl QueryError {
    /// The status to answer with: always the server's fault.
    pub fn status_code(&self) -> (code: u16)
        ensures
            code == STATUS_SERVER_ERROR,
    {
        STATUS_SERVER_ERROR
    }

    /// The failure in words.
    pub fn message(&self) -> (text: String)
        ensures
            text@ == "Failed to read data store"@,
    {
        String::from_str("Failed to read data store")
    }
}

/// What taking `report` in answers, given whether the store can be reached.
/// A payload that does not decode is rejected before the store is asked.
pub open spec fn ingest_result(report: IncomingData, available: bool) -> Result<(), IngestError> {
    match record_spec(report) {
        Err(e) => Err(IngestError::BadPayload(e)),
        Ok(_) => if available {
            Ok(())
        } else {
            Err(IngestError::StoreUnavailable)
        },
    }
}

/// The records after `report` was handled: one more at the end if the
/// report was taken in, else the same as before.
pub open spec fn log_after(log: Seq<Record>, report: IncomingData, available: bool) -> Seq<
    Record,
> {
    match record_spec(report) {
        Ok(record) => if available {
            log.push(record)
        } else {
            log
        },
        Err(_) => log,
    }
}

/// What a query answers: all records of the log in their order, given the
/// log, or a failure when the store cannot be reached.
pub open spec fn query_result(access: Option<Seq<Record>>) -> Result<Seq<Record>, QueryError> {
    match access {
        Some(log) => Ok(log),
        None => Err(QueryError::StoreUnavailable),
    }
}

/// The answer to a query as plain values.
pub open spec fn answer_of(r: Result<Vec<StoredData>, QueryError>) -> Result<
    Seq<Record>,
    QueryError,
> {
    match r {
        Ok(records) => Ok(records_of(records@)),
        Err(e) => Err(e),
    }
}

/// What the store's answer to an append means for the sender of the report.
pub fn ingest_outcome(appended: Result<(), StoreError>) -> (r: Result<(), IngestError>)
    ensures
        r == match appended {
            Ok(_) => Ok::<(), IngestError>(()),
            Err(_) => Err::<(), IngestError>(IngestError::StoreUnavailable),
        },
{
    match appended {
        Ok(_) => Ok(()),
        Err(StoreError::Unavailable) => Err(IngestError::StoreUnavailable),
    }
}

/// What the store's answer to a snapshot means for the one who asked.
pub fn query_outcome(copied: Result<Vec<StoredData>, StoreError>) -> (r: Result<
    Vec<StoredData>,
    QueryError,
>)
    ensures
        r == match copied {
            Ok(records) => Ok::<Vec<StoredData>, QueryError>(records),
            Err(_) => Err::<Vec<StoredData>, QueryError>(QueryError::StoreUnavailable),
        },
{
    match copied {
        Ok(records) => Ok(records),
        Err(StoreError::Unavailable) => Err(QueryError::StoreUnavailable),
    }
}

/// Takes `report` in, on a log that the caller holds: `access` is the log,
/// or nothing when the store cannot be reached. The payload is decoded
/// first; only a report that decodes touches the log, and it adds exactly
/// one record at its end.
pub fn ingest_with(access: Option<&mut RecordLog>, report: &IncomingData) -> (r: Result<
    (),
    IngestError,
>)
    ensures
        r == ingest_result(*report, access is Some),
        access matches Some(log) ==> final(log)@ == log_after(log@, *report, true),
{
    match report.to_record() {
        Ok(record) => ingest_outcome(append_to(access, record)),
        Err(e) => Err(IngestError::BadPayload(e)),
    }
}

/// Gives out a copy of all records of a log that the caller holds, oldest
/// first: `access` is the log, or nothing when the store cannot be reached.
/// Nothing is left out, added or moved.
pub fn query_with(access: Option<&RecordLog>) -> (r: Result<Vec<StoredData>, QueryError>)
    ensures
        answer_of(r) == query_result(
            match access {
                Some(log) => Some(log@),
                None => None,
            },
        ),
{
    query_outcome(snapshot_of(access))
}

/// Takes `report` in: decodes its payload, and appends the record to the
/// shared store. The payload is decoded before the lock is asked for, and a
/// report that does not decode never reaches the store. Whether the store
/// can be reached is the lock's to say.
pub fn ingest(store: &RecordStore, report: &IncomingData) -> (r: Result<(), IngestError>)
    ensures
        r == ingest_result(*report, true) || r == ingest_result(*report, false),
{
    match report.to_record() {
        Ok(record) => ingest_outcome(store.append(record)),
        Err(e) => Err(IngestError::BadPayload(e)),
    }
}

/// Gives out a copy of all records in the shared store, oldest first, or
/// fails if the store cannot be reached.
pub fn query_all(store: &RecordStore) -> (r: Result<Vec<StoredData>, QueryError>)
    ensures
        r is Ok || answer_of(r) == query_result(None),
{
    query_outcome(store.snapshot())
}

/// The records after the reports of `reports` were handled one after
/// another, the store within reach each time.
pub open spec fn log_after_all(log: Seq<Record>, reports: Seq<IncomingData>) -> Seq<Record>
    decreases reports.len(),
{
    if reports.len() == 0 {
        log
    } else {
        log_after(log_after_all(log, reports.drop_last()), reports.last(), true)
    }
}

/// A report is taken in exactly when its payload decodes and the store can
/// be reached; then, and only then, the log grows, by that report's record.
pub proof fn lemma_ingest_outcomes(log: Seq<Record>, report: IncomingData, available: bool)
    ensures
        ingest_result(report, available) is Ok <==> record_spec(report) is Ok && available,
        ingest_result(report, available) is Ok ==> log_after(log, report, available) == log.push(
            record_spec(report).unwrap(),
        ),
        ingest_result(report, available) is Err ==> log_after(log, report, available) == log,
{
}

/// Append, then query: after two reports were taken in, one after the
/// other, a query gives out a sequence whose last two records are the record
/// of the first report and then the record of the second, and before them
/// the records that were there, as they were.
pub proof fn lemma_append_then_query(
    log: Seq<Record>,
    first: IncomingData,
    first_available: bool,
    second: IncomingData,
    second_available: bool,
)
    requires
        ingest_result(first, first_available) is Ok,
        ingest_result(second, second_available) is Ok,
    ensures
        ({
            let end = log_after(
                log_after(log, first, first_available),
                second,
                second_available,
            );
            &&& query_result(Some(end)) matches Ok(all)
            &&& all.len() == log.len() + 2
            &&& all[all.len() - 2] == record_spec(first).unwrap()
            &&& all[all.len() - 1] == record_spec(second).unwrap()
            &&& all.subrange(0, log.len() as int) == log
        }),
{
    let end = log_after(log_after(log, first, first_available), second, second_available);
    assert(end.subrange(0, log.len() as int) =~= log);
}

/// No partial writes: a report whose payload does not decode is rejected
/// for that reason, whether or not the store can be reached, and a query
/// after it gives out what a query before it would have: the same records,
/// none more.
pub proof fn lemma_no_partial_write(log: Seq<Record>, report: IncomingData, available: bool)
    requires
        decode_spec(report.payload@) is Err,
    ensures
        query_result(Some(log_after(log, report, available))) == query_result(Some(log)),
        record_spec(report) matches Err(e) && ingest_result(report, available) == Err::<
            (),
            IngestError,
        >(IngestError::BadPayload(e)),
{
}

/// None lost, none twice: when reports whose payloads all decode are taken
/// in one after another, the log grows by exactly one record for each, and
/// the new records are those of the reports, in the order of the appends.
pub proof fn lemma_every_ingest_counts(log: Seq<Record>, reports: Seq<IncomingData>)
    requires
        forall|i: int| 0 <= i < reports.len() ==> record_spec(#[trigger] reports[i]) is Ok,
    ensures
        forall|i: int| 0 <= i < reports.len() ==> ingest_result(#[trigger] reports[i], true) is Ok,
        log_after_all(log, reports).len() == log.len() + reports.len(),
        log_after_all(log, reports).subrange(0, log.len() as int) == log,
        forall|i: int|
            0 <= i < reports.len() ==> log_after_all(log, reports)[log.len() + i] == record_spec(
                #[trigger] reports[i],
            ).unwrap(),
    decreases reports.len(),
{
    if reports.len() == 0 {
        assert(log_after_all(log, reports).subrange(0, log.len() as int) =~= log);
    } else {
        let head = reports.drop_last();
        assert forall|i: int| 0 <= i < head.len() implies record_spec(#[trigger] head[i]) is Ok by {
            assert(head[i] == reports[i]);
        }
        lemma_every_ingest_counts(log, head);
        let before = log_after_all(log, head);
        let end = log_after_all(log, reports);
        assert(record_spec(reports.last()) is Ok);
        assert(end == before.push(record_spec(reports.last()).unwrap()));
        assert(end.subrange(0, log.len() as int) =~= before.subrange(0, log.len() as int));
        assert forall|i: int| 0 <= i < reports.len() implies end[log.len() + i] == record_spec(
            #[trigger] reports[i],
        ).unwrap() by {
            if i < head.len() {
                assert(head[i] == reports[i]);
                assert(end[log.len() + i] == before[log.len() + i]);
            }
        }
    }
}

} // verus!
