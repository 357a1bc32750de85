//! An open library: its name and the handle that the loader gave for it.
//!
//! Opening and closing are the loader's work and happen outside this
//! library. What is decided here is what follows from them: a library that
//! was opened makes the cache stale, so the cache is refreshed before the
//! library is handed out; a failure to open leaves the cache alone.

use crate::cache::map::LibraryMap;
use crate::error::{loader_kind, loader_text, spec_classify, OpenError};
use crate::modules::{spec_lookup, table_of, RecordView};
use crate::path::{is_plain_name, name_of, normalized};
use crate::range::ByteRange;
use vstd::prelude::*;
use vstd::slice::*;

verus! {

/// The address that the loader gave for an open library. It is never zero.
#[derive(Clone, Copy, Debug)]
pub struct RawHandle {
    address: usize,
}

impl RawHandle {
    #[verifier::type_invariant]
    spec fn non_null(self) -> bool {
        self.address != 0
    }

    /// The address as a number.
    pub closed spec fn spec_address(&self) -> usize {
        self.address
    }

    /// The handle at `address`, or `None` for the null address.
    pub fn new(address: usize) -> (r: Option<RawHandle>)
        ensures
            r is Some <==> address != 0,
            r matches Some(handle) ==> handle.spec_address() == address,
    {
        if address == 0 {
            None
        } else {
            Some(RawHandle { address })
        }
    }

    /// The address as a number.
    #[verifier::when_used_as_spec(spec_address)]
    pub fn address(&self) -> (address: usize)
        ensures
            address == self.spec_address(),
            address != 0,
    {
        proof {
            use_type_invariant(self);
        }
        self.address
    }
}

/// A library that the loader has opened, known by the file name of the path
/// it was opened as.
///
/// Where its image lies is not kept here: it is asked of the cache each time,
/// since a library may be mapped anew elsewhere.
pub struct Library {
    name: Vec<u8>,
    handle: RawHandle,
}

impl Library {
    /// The name under which the library is known.
    pub closed spec fn spec_name(&self) -> Seq<u8> {
        self.name@
    }

    /// The handle that the loader gave for the library.
    pub closed spec fn spec_handle(&self) -> RawHandle {
        self.handle
    }

    /// Finishes the opening of the library `name`, of which `opened` is what
    /// the loader answered.
    ///
    /// Where the loader gave a handle, the cache is refreshed and the library
    /// is returned. It is known by the file name of `name`, under which the
    /// cache lists it, whatever directories `name` went through; a `name`
    /// that names no file is kept as it stands, and nothing is ever found
    /// under it. Where the loader failed, the cache is left alone and the
    /// failure is returned as the error that `OpenError::classify` makes of
    /// its kind and its message.
    pub fn load(
        name: &[u8],
        opened: Result<RawHandle, libloading::Error>,
        cache: &LibraryMap,
    ) -> (r: Result<Library, OpenError>)
        ensures
            r is Ok <==> opened is Ok,
            match r {
                Ok(library) => library.spec_name() == normalized(name@) && Ok::<
                    RawHandle,
                    libloading::Error,
                >(library.spec_handle()) == opened,
                Err(error) => opened is Err && error@ == spec_classify(
                    loader_kind(opened->Err_0),
                    loader_text(opened->Err_0),
                ),
            },
    {
        match opened {
            Ok(handle) => {
                cache.update();
                let known = match name_of(name) {
                    Some(file) => file,
                    None => slice_to_vec(name),
                };
                Ok(Library::from_raw(known, handle))
            },
            Err(error) => Err(OpenError::from_libloading(error)),
        }
    }

    /// A library from the name by which it is to be known, taken as it
    /// stands, and a handle that the loader gave for it.
    pub fn from_raw(name: Vec<u8>, handle: RawHandle) -> (library: Library)
        ensures
            library.spec_name() == name@,
            library.spec_handle() == handle,
    {
        Library { name, handle }
    }

    /// Returns the name of this library.
    pub fn name(&self) -> (name: &[u8])
        ensures
            name@ == self.spec_name(),
    {
        self.name.as_slice()
    }

    /// Returns the handle of this library.
    pub fn handle(&self) -> (handle: RawHandle)
        ensures
            handle == self.spec_handle(),
    {
        self.handle
    }

    /// Where the cache has the image of this library: what it holds under the
    /// library's name, or the empty range where it holds nothing. The answer
    /// is only as good as the last refresh of the cache.
    ///
    /// Whatever the cache holds is the table of some enumeration, and the
    /// answer is what that table answers for the library's name.
    pub fn bytes(&self, cache: &LibraryMap) -> (range: ByteRange)
        ensures
            exists|records: Seq<RecordView>|
                range == spec_lookup(#[trigger] table_of(records), self.spec_name()),
            !is_plain_name(self.spec_name()) ==> range == ByteRange::spec_empty(),
    {
        cache.get(self.name())
    }

    /// Gives up the library for closing: its name and its handle.
    pub fn into_raw(self) -> (parts: (Vec<u8>, RawHandle))
        ensures
            parts.0@ == self.spec_name(),
            parts.1 == self.spec_handle(),
    {
        (self.name, self.handle)
    }
}

} // verus!
