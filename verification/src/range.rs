//! Byte ranges: where a mapped library image lies in the address space.

use vstd::prelude::*;

verus! {

/// Where a library's image lies: the address of its first byte and its length.
///
/// A range only describes memory that the system loader owns. It is advisory and
/// says nothing of whether that memory is still mapped.
#[derive(Clone, Copy, Debug, PartialEq, Eq, Structural)]
pub struct ByteRange {
    pub base: usize,
    pub len: usize,
}

impl ByteRange {
    /// The range that stands for "no such library": no bytes at address zero.
    pub open spec fn spec_empty() -> ByteRange {
        ByteRange { base: 0, len: 0 }
    }

    /// A range is empty when it holds no bytes, wherever it starts.
    pub open spec fn spec_is_empty(self) -> bool {
        self.len == 0
    }

    /// The empty range.
    pub fn empty() -> (r: ByteRange)
        ensures
            r == ByteRange::spec_empty(),
            r.spec_is_empty(),
    {
        ByteRange { base: 0, len: 0 }
    }

    /// The range of `len` bytes that starts at `base`.
    pub fn new(base: usize, len: usize) -> (r: ByteRange)
        ensures
            r.base == base,
            r.len == len,
    {
        ByteRange { base, len }
    }

    /// Whether the range holds no bytes.
    #[verifier::when_used_as_spec(spec_is_empty)]
    pub fn is_empty(self) -> (b: bool)
        ensures
            b == self.spec_is_empty(),
    {
        self.len == 0
    }
}

} // verus!
