//! The record store: an append-only sequence of records, and the lock
//! through which request handlers share one such sequence.

use std::ops::{Deref, DerefMut};
use std::sync::{LockResult, PoisonError, RwLock, RwLockReadGuard, RwLockWriteGuard};
use vstd::prelude::*;
use crate::gps_data::{Record, StoredData};

verus! {

/// Why the store could not serve a request.
#[derive(Clone, Copy, Debug, PartialEq, Eq, Structural)]
pub enum StoreError {
    /// The lock on the records is poisoned: a holder of it panicked.
    Unavailable,
}

/// The records of `s` as plain values, in the same order.
pub open spec fn records_of(s: Seq<StoredData>) -> Seq<Record> {
    Seq::new(s.len(), |i: int| s[i]@)
}

/// The records in the order in which they were appended. Nothing is ever
/// changed or taken out.
pub struct RecordLog {
    records: Vec<StoredData>,
}

impl View for RecordLog {
    type V = Seq<Record>;

    closed spec fn view(&self) -> Seq<Record> {
        records_of(self.records@)
    }
}

impl RecordLog {
    /// A log without records.
    pub fn new() -> (log: Self)
        ensures
            log@ == Seq::<Record>::empty(),
    {
        let log = RecordLog { records: Vec::new() };
        assert(log@ =~= Seq::<Record>::empty());
        log
    }

    /// The number of records.
    pub fn len(&self) -> (n: usize)
        ensures
            n == self@.len(),
    {
        self.records.len()
    }

    /// Adds `record` at the end and leaves what is there as it is.
    pub fn append(&mut self, record: StoredData)
        ensures
            final(self)@ == old(self)@.push(record@),
    {
        self.records.push(record);
        assert(self@ =~= old(self)@.push(record@));
    }

    /// A copy of all records, oldest first.
    pub fn snapshot(&self) -> (copy: Vec<StoredData>)
        ensures
            records_of(copy@) == self@,
    {
        let mut copy: Vec<StoredData> = Vec::new();
        let mut i: usize = 0;
        while i < self.records.len()
            invariant
                i <= self.records.len(),
                copy.len() == i,
                forall|k: int| 0 <= k < i ==> (#[trigger] copy[k])@ == self.records[k]@,
            decreases self.records.len() - i,
        {
            copy.push(self.records[i].clone());
            i = i + 1;
        }
        assert(records_of(copy@) =~= self@);
        copy
    }
}

/// Appends `record` once the lock has answered: `access` is the log when
/// the lock was granted, and nothing when it is poisoned. A granted log gets
/// the record at its end; without one the store is unavailable.
pub fn append_to(access: Option<&mut RecordLog>, record: StoredData) -> (r: Result<(), StoreError>)
    ensures
        match access {
            Some(log) => r is Ok && final(log)@ == log@.push(record@),
            None => r == Err::<(), StoreError>(StoreError::Unavailable),
        },
{
    match access {
        Some(log) => {
            log.append(record);
            Ok(())
        },
        None => Err(StoreError::Unavailable),
    }
}

/// Copies the records once the lock has answered: `access` is the log when
/// the lock was granted, and nothing when it is poisoned.
pub fn snapshot_of(access: Option<&RecordLog>) -> (r: Result<Vec<StoredData>, StoreError>)
    ensures
        match access {
            Some(log) => r is Ok && records_of(r.unwrap()@) == log@,
            None => r == Err::<Vec<StoredData>, StoreError>(StoreError::Unavailable),
        },
{
    match access {
        Some(log) => Ok(log.snapshot()),
        None => Err(StoreError::Unavailable),
    }
}

/// `std::sync::RwLock`, carried as it is: nothing inside it is visible.
#[verifier::external_type_specification]
#[verifier::external_body]
#[verifier::reject_recursive_types(T)]
pub struct ExRwLock<T: ?Sized>(RwLock<T>);

/// `std::sync::RwLockReadGuard`: shared access, held until it is dropped.
#[verifier::external_type_specification]
#[verifier::external_body]
#[verifier::reject_recursive_types(T)]
pub struct ExRwLockReadGuard<'a, T: ?Sized>(RwLockReadGuard<'a, T>);

/// `std::sync::RwLockWriteGuard`: exclusive access, held until it is dropped.
#[verifier::external_type_specification]
#[verifier::external_body]
#[verifier::reject_recursive_types(T)]
pub struct ExRwLockWriteGuard<'a, T: ?Sized + 'a>(RwLockWriteGuard<'a, T>);

/// `std::sync::PoisonError`: what a poisoned lock answers with.
#[verifier::external_type_specification]
#[verifier::external_body]
#[verifier::reject_recursive_types(T)]
pub struct ExPoisonError<T>(PoisonError<T>);

/// `std::sync::RwLock::new`: a lock around `log`. Nothing is claimed of it.
#[verifier::external_body]
fn lock_around(log: RecordLog) -> (lock: RwLock<RecordLog>) {
    RwLock::new(log)
}

/// `std::sync::RwLock::read`: waits for shared access. Nothing is claimed of
/// the outcome: the lock may be poisoned, and what it guards is whatever the
/// writers before have left. std lets the call panic or wait for ever when
/// the calling thread holds the lock already; here every guard is dropped by
/// the function that asked for it, and nothing that runs under a guard asks
/// for the lock.
#[verifier::external_body]
fn lock_for_read<'a>(lock: &'a RwLock<RecordLog>) -> (held: LockResult<
    RwLockReadGuard<'a, RecordLog>,
>) {
    lock.read()
}

/// `std::sync::RwLock::write`: waits for exclusive access. Nothing is
/// claimed of the outcome, and the calling thread must not hold the lock
/// already, both as for reading.
#[verifier::external_body]
fn lock_for_write<'a>(lock: &'a RwLock<RecordLog>) -> (held: LockResult<
    RwLockWriteGuard<'a, RecordLog>,
>) {
    lock.write()
}

/// `Deref::deref` of `std::sync::RwLockReadGuard`: the log behind a read
/// guard. Nothing is claimed of what it holds.
#[verifier::external_body]
fn guarded<'a, 'b>(guard: &'a RwLockReadGuard<'b, RecordLog>) -> (log: &'a RecordLog) {
    guard.deref()
}

/// `DerefMut::deref_mut` of `std::sync::RwLockWriteGuard`: the log behind a
/// write guard. Nothing is claimed of what it holds.
#[verifier::external_body]
fn guarded_mut<'a, 'b>(guard: &'a mut RwLockWriteGuard<'b, RecordLog>) -> (log: &'a mut RecordLog) {
    guard.deref_mut()
}

/// One log behind a readers-writer lock, for handlers that run at the same
/// time. Readers share the lock; a writer has it alone. The log itself is
/// never handed out: callers get copies.
pub struct RecordStore {
    lock: RwLock<RecordLog>,
}

impl RecordStore {
    /// A store without records.
    pub fn new() -> (store: Self) {
        RecordStore { lock: lock_around(RecordLog::new()) }
    }

    /// Adds `record` at the end of the records, or fails with
    /// `Unavailable` if the lock is poisoned. What happens once the lock has
    /// answered is `append_to`.
    pub fn append(&self, record: StoredData) -> (r: Result<(), StoreError>)
        ensures
            r is Ok || r == Err::<(), StoreError>(StoreError::Unavailable),
    {
        let mut held = lock_for_write(&self.lock);
        let access = match &mut held {
            Ok(guard) => Some(guarded_mut(guard)),
            Err(_) => None,
        };
        append_to(access, record)
    }

    /// A copy of the records as they are when the lock is granted, or
    /// `Unavailable` if the lock is poisoned. What happens once the lock has
    /// answered is `snapshot_of`.
    pub fn snapshot(&self) -> (r: Result<Vec<StoredData>, StoreError>)
        ensures
            r is Ok || r == Err::<Vec<StoredData>, StoreError>(StoreError::Unavailable),
    {
        let held = lock_for_read(&self.lock);
        let access = match &held {
            Ok(guard) => Some(guarded(guard)),
            Err(_) => None,
        };
        snapshot_of(access)
    }
}

} // verus!
