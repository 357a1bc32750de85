//! Asking the loader which libraries are mapped, and the cache of its answer.

use crate::modules::LibraryRecord;
use crate::range::ByteRange;
use findshlibs::{SharedLibrary, TargetSharedLibrary};
use vstd::prelude::*;

pub mod map;

verus! {

/// Every shared library that is mapped into this process at the time of the
/// call: for each, its path, the address at which it is loaded and the
/// length of its image.
///
/// Calls `findshlibs::TargetSharedLibrary::each`, and for each library that it
/// hands out `name`, `actual_load_addr` and `len`. The answer is a snapshot
/// of the process, so nothing is claimed of it: it may be empty, its order
/// means nothing, and two calls may differ.
#[verifier::external_body]
pub(crate) fn iterate() -> (records: Vec<LibraryRecord>) {
    let mut records = Vec::new();
    TargetSharedLibrary::each(|library| {
        let path = library.name().as_encoded_bytes().to_vec();
        let range = ByteRange { base: library.actual_load_addr().0, len: library.len() };
        records.push(LibraryRecord { path, range });
    });
    records
}

} // verus!
