//! The report as a tracker sends it, and the record that is kept of it.

use vstd::prelude::*;
use vstd::std_specs::cmp::PartialEqSpecImpl;
use vstd::string::StringExecFns;
use crate::wire::{decode, decode_spec, DecodeError};

verus! {

/// One report as it arrives: who sent it, the payload, and when.
#[derive(Debug)]
pub struct IncomingData {
    pub id: String,
    pub payload: String,
    pub date: String,
    pub time: String,
}

/// One decoded report as the store keeps it and the dashboard shows it.
#[derive(Debug)]
pub struct StoredData {
    pub id: String,
    pub longitude: u16,
    pub latitude: u16,
    pub battery: u8,
    pub timestamp: String,
}

/// A record as plain values.
pub struct Record {
    pub id: Seq<char>,
    pub longitude: u16,
    pub latitude: u16,
    pub battery: u8,
    pub timestamp: Seq<char>,
}

impl View for StoredData {
    type V = Record;

    open spec fn view(&self) -> Record {
        Record {
            id: self.id@,
            longitude: self.longitude,
            latitude: self.latitude,
            battery: self.battery,
            timestamp: self.timestamp@,
        }
    }
}

impl Clone for IncomingData {
    fn clone(&self) -> (r: Self)
        ensures
            r == *self,
    {
        IncomingData {
            id: self.id.clone(),
            payload: self.payload.clone(),
            date: self.date.clone(),
            time: self.time.clone(),
        }
    }
}

impl Clone for StoredData {
    fn clone(&self) -> (r: Self)
        ensures
            r@ == self@,
    {
        StoredData {
            id: self.id.clone(),
            longitude: self.longitude,
            latitude: self.latitude,
            battery: self.battery,
            timestamp: self.timestamp.clone(),
        }
    }
}

impl PartialEq for StoredData {
    fn eq(&self, other: &Self) -> (r: bool) {
        self.id == other.id && self.longitude == other.longitude && self.latitude
            == other.latitude && self.battery == other.battery && self.timestamp
            == other.timestamp
    }
}

impl PartialEqSpecImpl for StoredData {
    open spec fn obeys_eq_spec() -> bool {
        true
    }

    open spec fn eq_spec(&self, other: &Self) -> bool {
        self@ == other@
    }
}

/// The time of a report as the record shows it: date, one space, time.
pub open spec fn timestamp_spec(date: Seq<char>, time: Seq<char>) -> Seq<char> {
    date + seq![' '] + time
}

/// The record that a report gives, or why its payload is rejected.
pub open spec fn record_spec(report: IncomingData) -> Result<Record, DecodeError> {
    match decode_spec(report.payload@) {
        Ok((longitude, latitude, battery)) => Ok(
            Record {
                id: report.id@,
                longitude,
                latitude,
                battery,
                timestamp: timestamp_spec(report.date@, report.time@),
            },
        ),
        Err(e) => Err(e),
    }
}

impl IncomingData {
    /// Decodes the payload into longitude, latitude and battery level.
    pub fn parse_hex_payload(&self) -> (r: Result<(u16, u16, u8), DecodeError>)
        ensures
            r == decode_spec(self.payload@),
    {
        decode(self.payload.as_str())
    }

    /// Builds the record of this report. Nothing is built from a payload
    /// that does not decode.
    pub fn to_record(&self) -> (r: Result<StoredData, DecodeError>)
        ensures
            match record_spec(*self) {
                Ok(record) => r is Ok && r.unwrap()@ == record,
                Err(e) => r == Err::<StoredData, DecodeError>(e),
            },
    {
        match self.parse_hex_payload() {
            Ok((longitude, latitude, battery)) => {
                let mut timestamp = self.date.clone();
                timestamp.append(" ");
                timestamp.append(self.time.as_str());
                proof {
                    reveal_strlit(" ");
                    assert(" "@ =~= seq![' ']);
                }
                Ok(StoredData { id: self.id.clone(), longitude, latitude, battery, timestamp })
            },
            Err(e) => Err(e),
        }
    }
}

} // verus!
