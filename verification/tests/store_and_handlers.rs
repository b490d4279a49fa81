use buddy::csv::{append_csv_row, csv_export};
use buddy::decimal::append_decimal;
use buddy::gps_data::{IncomingData, StoredData};
use buddy::handlers::{
    ingest, ingest_outcome, ingest_with, query_all, query_outcome, query_with, IngestError,
    QueryError, STATUS_BAD_REQUEST, STATUS_SERVER_ERROR,
};
use buddy::store::{append_to, snapshot_of, RecordLog, RecordStore, StoreError};
use buddy::wire::{DecodeError, PayloadSlice};

fn report(id: &str, payload: &str, date: &str, time: &str) -> IncomingData {
    IncomingData {
        id: id.to_string(),
        payload: payload.to_string(),
        date: date.to_string(),
        time: time.to_string(),
    }
}

fn record(id: &str, longitude: u16, latitude: u16, battery: u8, timestamp: &str) -> StoredData {
    StoredData {
        id: id.to_string(),
        longitude,
        latitude,
        battery,
        timestamp: timestamp.to_string(),
    }
}

#[test]
fn builds_the_record_of_a_report() {
    let r = report("dev1", "0A1B2C3D4E", "2024-01-01", "12:00:00").to_record();
    assert_eq!(r, Ok(record("dev1", 2587, 11325, 78, "2024-01-01 12:00:00")));
}

#[test]
fn timestamp_is_date_space_time_as_they_are() {
    let r = report("", "0000000000", "", "").to_record().unwrap();
    assert_eq!(r.timestamp, " ");
    assert_eq!(r.id, "");
    let r = report("x", "0000000000", "a b", " c").to_record().unwrap();
    assert_eq!(r.timestamp, "a b  c");
}

#[test]
fn builds_nothing_from_a_bad_payload() {
    assert_eq!(
        report("dev1", "0A1B", "2024-01-01", "12:00:00").to_record(),
        Err(DecodeError::WrongLength { expected: 10, actual: 4 })
    );
    assert_eq!(
        report("dev1", "0A1B2C3D4X", "2024-01-01", "12:00:00").to_record(),
        Err(DecodeError::InvalidHex { slice: PayloadSlice::Battery })
    );
}

#[test]
fn records_compare_by_their_fields() {
    let a = record("dev1", 1, 2, 3, "t");
    assert_eq!(a, a.clone());
    assert_ne!(a, record("dev2", 1, 2, 3, "t"));
    assert_ne!(a, record("dev1", 9, 2, 3, "t"));
    assert_ne!(a, record("dev1", 1, 9, 3, "t"));
    assert_ne!(a, record("dev1", 1, 2, 9, "t"));
    assert_ne!(a, record("dev1", 1, 2, 3, "u"));
    let r = report("dev1", "0A1B2C3D4E", "d", "t");
    let c = r.clone();
    assert_eq!((c.id, c.payload, c.date, c.time), (r.id, r.payload, r.date, r.time));
}

#[test]
fn log_keeps_the_order_of_appends() {
    let mut log = RecordLog::new();
    assert_eq!(log.len(), 0);
    assert_eq!(log.snapshot(), vec![]);
    log.append(record("a", 1, 2, 3, "t1"));
    log.append(record("b", 4, 5, 6, "t2"));
    log.append(record("a", 1, 2, 3, "t1"));
    assert_eq!(log.len(), 3);
    assert_eq!(
        log.snapshot(),
        vec![record("a", 1, 2, 3, "t1"), record("b", 4, 5, 6, "t2"), record("a", 1, 2, 3, "t1")]
    );
}

#[test]
fn a_snapshot_does_not_see_later_appends() {
    let mut log = RecordLog::new();
    log.append(record("a", 1, 2, 3, "t1"));
    let before = log.snapshot();
    log.append(record("b", 4, 5, 6, "t2"));
    assert_eq!(before, vec![record("a", 1, 2, 3, "t1")]);
    assert_eq!(log.snapshot().len(), 2);

    let store = RecordStore::new();
    assert_eq!(store.append(record("a", 1, 2, 3, "t1")), Ok(()));
    let before = store.snapshot().unwrap();
    assert_eq!(store.append(record("b", 4, 5, 6, "t2")), Ok(()));
    assert_eq!(before, vec![record("a", 1, 2, 3, "t1")]);
    assert_eq!(
        store.snapshot(),
        Ok(vec![record("a", 1, 2, 3, "t1"), record("b", 4, 5, 6, "t2")])
    );
}

#[test]
fn a_new_store_is_empty() {
    assert_eq!(RecordStore::new().snapshot(), Ok(vec![]));
    assert_eq!(query_all(&RecordStore::new()), Ok(vec![]));
}

#[test]
fn a_store_out_of_reach_is_unavailable() {
    assert_eq!(append_to(None, record("a", 1, 2, 3, "t")), Err(StoreError::Unavailable));
    assert_eq!(snapshot_of(None), Err(StoreError::Unavailable));
    assert_eq!(query_with(None), Err(QueryError::StoreUnavailable));
    assert_eq!(
        ingest_with(None, &report("dev1", "0A1B2C3D4E", "d", "t")),
        Err(IngestError::StoreUnavailable)
    );
    assert_eq!(ingest_outcome(Err(StoreError::Unavailable)), Err(IngestError::StoreUnavailable));
    assert_eq!(ingest_outcome(Ok(())), Ok(()));
    assert_eq!(query_outcome(Err(StoreError::Unavailable)), Err(QueryError::StoreUnavailable));
    assert_eq!(
        query_outcome(Ok(vec![record("a", 1, 2, 3, "t")])),
        Ok(vec![record("a", 1, 2, 3, "t")])
    );
}

#[test]
fn a_bad_payload_is_rejected_before_the_store_is_asked() {
    assert_eq!(
        ingest_with(None, &report("dev1", "nope", "d", "t")),
        Err(IngestError::BadPayload(DecodeError::WrongLength { expected: 10, actual: 4 }))
    );
}

#[test]
fn a_log_within_reach_is_used() {
    let mut log = RecordLog::new();
    assert_eq!(append_to(Some(&mut log), record("a", 1, 2, 3, "t")), Ok(()));
    assert_eq!(snapshot_of(Some(&log)), Ok(vec![record("a", 1, 2, 3, "t")]));
    assert_eq!(ingest_with(Some(&mut log), &report("b", "0001000203", "d", "t")), Ok(()));
    assert_eq!(
        query_with(Some(&log)),
        Ok(vec![record("a", 1, 2, 3, "t"), record("b", 1, 2, 3, "d t")])
    );
}

#[test]
fn end_to_end_example() {
    let store = RecordStore::new();
    assert_eq!(ingest(&store, &report("dev1", "0A1B2C3D4E", "2024-01-01", "12:00:00")), Ok(()));
    assert_eq!(
        query_all(&store),
        Ok(vec![record("dev1", 2587, 11325, 78, "2024-01-01 12:00:00")])
    );
}

#[test]
fn append_then_query() {
    let store = RecordStore::new();
    assert_eq!(ingest(&store, &report("dev0", "0000000000", "2024-01-01", "00:00:00")), Ok(()));
    assert_eq!(ingest(&store, &report("dev1", "0A1B2C3D4E", "2024-01-01", "12:00:00")), Ok(()));
    assert_eq!(ingest(&store, &report("dev1", "ffffffffff", "2024-01-02", "13:00:00")), Ok(()));
    let all = query_all(&store).unwrap();
    assert_eq!(all.len(), 3);
    assert_eq!(all[1], record("dev1", 2587, 11325, 78, "2024-01-01 12:00:00"));
    assert_eq!(all[2], record("dev1", 65535, 65535, 255, "2024-01-02 13:00:00"));
    assert_eq!(all[0], record("dev0", 0, 0, 0, "2024-01-01 00:00:00"));
}

#[test]
fn the_same_report_twice_is_two_records() {
    let store = RecordStore::new();
    let r = report("dev1", "0A1B2C3D4E", "2024-01-01", "12:00:00");
    assert_eq!(ingest(&store, &r), Ok(()));
    assert_eq!(ingest(&store, &r), Ok(()));
    let one = record("dev1", 2587, 11325, 78, "2024-01-01 12:00:00");
    assert_eq!(query_all(&store), Ok(vec![one.clone(), one]));
}

#[test]
fn no_partial_writes() {
    let store = RecordStore::new();
    assert_eq!(ingest(&store, &report("dev1", "0A1B2C3D4E", "2024-01-01", "12:00:00")), Ok(()));
    let before = query_all(&store).unwrap();
    assert_eq!(
        ingest(&store, &report("dev2", "0A1B2C3D4", "2024-01-01", "12:00:01")),
        Err(IngestError::BadPayload(DecodeError::WrongLength { expected: 10, actual: 9 }))
    );
    assert_eq!(
        ingest(&store, &report("dev2", "0A1B2C3G4E", "2024-01-01", "12:00:02")),
        Err(IngestError::BadPayload(DecodeError::InvalidHex { slice: PayloadSlice::Latitude }))
    );
    assert_eq!(
        ingest(&store, &report("dev2", "", "2024-01-01", "12:00:03")),
        Err(IngestError::BadPayload(DecodeError::WrongLength { expected: 10, actual: 0 }))
    );
    let after = query_all(&store).unwrap();
    assert_eq!(after.len(), before.len());
    assert_eq!(after, before);

    let mut log = RecordLog::new();
    assert_eq!(
        ingest_with(Some(&mut log), &report("dev2", "GGGGGGGGGG", "d", "t")),
        Err(IngestError::BadPayload(DecodeError::InvalidHex { slice: PayloadSlice::Longitude }))
    );
    assert_eq!(log.len(), 0);
}

#[test]
fn every_ingest_counts() {
    let store = RecordStore::new();
    let n: u16 = 200;
    for i in 0..n {
        let payload = format!("{:04x}{:04X}{:02x}", i, n - i, i % 256);
        assert_eq!(ingest(&store, &report(&format!("dev{}", i), &payload, "d", "t")), Ok(()));
    }
    let all = query_all(&store).unwrap();
    assert_eq!(all.len(), 200);
    for i in 0..n {
        assert_eq!(
            all[i as usize],
            record(&format!("dev{}", i), i, n - i, (i % 256) as u8, "d t")
        );
    }
}

#[test]
fn failures_say_whose_fault_they_are() {
    let bad = IngestError::BadPayload(DecodeError::WrongLength { expected: 10, actual: 3 });
    assert_eq!(bad.status_code(), 400);
    assert_eq!(bad.status_code(), STATUS_BAD_REQUEST);
    assert_eq!(
        bad.message(),
        "Failed to parse payload: Payload must be exactly 10 characters long, got 3"
    );
    let bad = IngestError::BadPayload(DecodeError::InvalidHex { slice: PayloadSlice::Latitude });
    assert_eq!(bad.status_code(), 400);
    assert_eq!(bad.message(), "Failed to parse payload: invalid digit found in the latitude field");
    assert_eq!(IngestError::StoreUnavailable.status_code(), 500);
    assert_eq!(IngestError::StoreUnavailable.status_code(), STATUS_SERVER_ERROR);
    assert_eq!(IngestError::StoreUnavailable.message(), "Failed to lock data store");
    assert_eq!(QueryError::StoreUnavailable.status_code(), 500);
    assert_eq!(QueryError::StoreUnavailable.message(), "Failed to read data store");
}

#[test]
fn writes_numbers_in_decimal() {
    for (n, text) in [
        (0u64, "0"),
        (7, "7"),
        (9, "9"),
        (10, "10"),
        (78, "78"),
        (100, "100"),
        (255, "255"),
        (2587, "2587"),
        (65535, "65535"),
        (1000000, "1000000"),
        (u64::MAX, "18446744073709551615"),
    ] {
        let mut out = String::new();
        append_decimal(&mut out, n);
        assert_eq!(out, text);
    }
    let mut out = String::from("n=");
    append_decimal(&mut out, 42);
    assert_eq!(out, "n=42");
}

#[test]
fn exports_the_header_alone_for_no_records() {
    assert_eq!(csv_export(&vec![]), "id,timestamp,longitude,latitude,battery\n");
}

#[test]
fn exports_one_line_for_each_record() {
    let records = vec![
        record("dev1", 2587, 11325, 78, "2024-01-01 12:00:00"),
        record("dev2", 0, 65535, 255, "2024-01-02 00:00:01"),
    ];
    assert_eq!(
        csv_export(&records),
        "id,timestamp,longitude,latitude,battery\n\
         dev1,2024-01-01 12:00:00,2587,11325,78\n\
         dev2,2024-01-02 00:00:01,0,65535,255\n"
    );
    let mut line = String::new();
    append_csv_row(&mut line, &records[0]);
    assert_eq!(line, "dev1,2024-01-01 12:00:00,2587,11325,78\n");
}

#[test]
fn exports_fields_as_they_are() {
    let records = vec![record("a,b", 1, 2, 3, "\"t\"")];
    assert_eq!(
        csv_export(&records),
        "id,timestamp,longitude,latitude,battery\na,b,\"t\",1,2,3\n"
    );
}

#[test]
fn exports_what_was_ingested() {
    let store = RecordStore::new();
    assert_eq!(ingest(&store, &report("dev1", "0A1B2C3D4E", "2024-01-01", "12:00:00")), Ok(()));
    assert_eq!(
        csv_export(&query_all(&store).unwrap()),
        "id,timestamp,longitude,latitude,battery\ndev1,2024-01-01 12:00:00,2587,11325,78\n"
    );
}
