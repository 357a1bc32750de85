//! The cache of mapped libraries behind a readers-writer lock: many lookups
//! at once, one refresh at a time.

use super::iterate;
use crate::modules::{reflects_enumeration, spec_lookup, table_of, Modules, RecordView};
use crate::path::is_plain_name;
use crate::range::ByteRange;
use vstd::prelude::*;

verus! {

/// The raw readers-writer lock of `parking_lot`.
#[verifier::external_type_specification]
#[verifier::external_body]
pub struct ExRawRwLock(parking_lot::RawRwLock);

/// A readers-writer lock around a value.
#[verifier::external_type_specification]
#[verifier::external_body]
#[verifier::reject_recursive_types(R)]
#[verifier::reject_recursive_types(T)]
pub struct ExRwLock<R, T: ?Sized>(parking_lot::lock_api::RwLock<R, T>);

/// Shared access to the table in a lock, for as long as this value lives.
///
/// Holds a `parking_lot::RwLockReadGuard`. Its type asks for a trait of
/// `lock_api` on the raw lock, which cannot be declared here, so the guard
/// is kept out of sight in this struct.
#[verifier::external_body]
struct ReadAccess<'a> {
    guard: parking_lot::RwLockReadGuard<'a, Modules>,
}

/// Exclusive access to the table in a lock, for as long as this value lives.
///
/// Holds a `parking_lot::RwLockWriteGuard`, kept out of sight as the read
/// guard is.
#[verifier::external_body]
struct WriteAccess<'a> {
    guard: parking_lot::RwLockWriteGuard<'a, Modules>,
}

/// A new lock around `table`. Calls `RwLock::new`.
#[verifier::external_body]
fn lock_new(table: Modules) -> (lock: parking_lot::RwLock<Modules>) {
    parking_lot::RwLock::new(table)
}

/// Waits for shared access to the table in `lock`. Calls `RwLock::read`,
/// which returns once no writer holds the lock.
#[verifier::external_body]
fn lock_read<'a>(lock: &'a parking_lot::RwLock<Modules>) -> (access: ReadAccess<'a>) {
    ReadAccess { guard: lock.read() }
}

/// Waits for exclusive access to the table in `lock`. Calls `RwLock::write`,
/// which returns once no reader and no other writer holds the lock.
#[verifier::external_body]
fn lock_write<'a>(lock: &'a parking_lot::RwLock<Modules>) -> (access: WriteAccess<'a>) {
    WriteAccess { guard: lock.write() }
}

/// The table that a read guard gives access to. Calls the guard's `deref`.
/// Which table that is depends on what other threads did before the lock was
/// taken.
#[verifier::external_body]
fn read_guard_table<'a, 'b>(access: &'b ReadAccess<'a>) -> (table: &'b Modules) {
    &*access.guard
}

/// The table that a write guard gives access to, to be changed in place.
/// Calls the guard's `deref_mut`.
#[verifier::external_body]
fn write_guard_table<'a, 'b>(access: &'b mut WriteAccess<'a>) -> (table: &'b mut Modules) {
    &mut *access.guard
}

/// Map of cached libraries, shared by every thread of the process.
pub struct LibraryMap {
    inner: parking_lot::RwLock<Modules>,
}

impl LibraryMap {
    /// Constructs a map from what the loader lists now.
    pub fn new() -> (map: LibraryMap) {
        let records = iterate();
        let table = Modules::load(&records);
        LibraryMap { inner: lock_new(table) }
    }

    /// Replaces the contents of the map by what the loader lists now, with
    /// every lookup and every other refresh shut out meanwhile.
    pub fn update(&self) {
        let mut access = lock_write(&self.inner);
        let records = iterate();
        let table = write_guard_table(&mut access);
        table.update(&records);
    }

    /// The range cached for `name`, or the empty range where the map holds
    /// none. Never refreshes: the answer is as old as the last refresh.
    ///
    /// Which table answers depends on what was loaded and refreshed before,
    /// by this thread and by others. Whichever it is, it is the table of some
    /// enumeration, and the answer is what that table answers for `name`. So
    /// a name that is no file name is never found.
    pub fn get(&self, name: &[u8]) -> (range: ByteRange)
        ensures
            exists|records: Seq<RecordView>|
                range == spec_lookup(#[trigger] table_of(records), name@),
            !is_plain_name(name@) ==> range == ByteRange::spec_empty(),
    {
        let access = lock_read(&self.inner);
        let table = read_guard_table(&access);
        let range = table.get(name);
        proof {
            assert(reflects_enumeration(table@));
            let records = choose|records: Seq<RecordView>| table@ == table_of(records);
            assert(range == spec_lookup(table_of(records), name@));
        }
        range
    }
}

} // verus!
