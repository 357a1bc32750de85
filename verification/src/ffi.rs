//! C strings as bytes: a run of bytes that ends in its only zero byte.
//!
//! The loader takes the names of libraries and symbols as C strings. A name
//! that already ends in a zero byte is used as it is; any other is copied and
//! given one. A zero byte anywhere else cannot be expressed and is refused.

use vstd::array::*;
use vstd::prelude::*;
use vstd::slice::*;

verus! {

/// Bytes that make a C string: the last byte is zero and no other is.
pub open spec fn is_c_string(bytes: Seq<u8>) -> bool {
    &&& bytes.len() > 0
    &&& bytes.last() == 0
    &&& forall|i: int| 0 <= i < bytes.len() - 1 ==> bytes[i] != 0
}

/// Whether `bytes` holds a zero byte before its last byte.
pub open spec fn has_interior_nul(bytes: Seq<u8>) -> bool {
    exists|i: int| 0 <= i < bytes.len() - 1 && bytes[i] == 0
}

/// Whether `bytes` ends in a zero byte.
pub open spec fn ends_in_nul(bytes: Seq<u8>) -> bool {
    bytes.len() > 0 && bytes.last() == 0
}

/// `bytes` with a closing zero byte, added where `bytes` has none.
pub open spec fn with_nul(bytes: Seq<u8>) -> Seq<u8> {
    if ends_in_nul(bytes) {
        bytes
    } else {
        bytes.push(0)
    }
}

/// A C string, either borrowed from the bytes it was made of or owned.
pub enum CStrCow<'a> {
    /// The bytes given already were a C string, or were empty.
    Borrowed(&'a [u8]),
    /// The bytes given were copied and closed with a zero byte.
    Owned(Vec<u8>),
}

impl<'a> View for CStrCow<'a> {
    type V = Seq<u8>;

    /// The bytes of the string, the closing zero byte included.
    open spec fn view(&self) -> Seq<u8> {
        match self {
            CStrCow::Borrowed(bytes) => bytes@,
            CStrCow::Owned(bytes) => bytes@,
        }
    }
}

impl<'a> CStrCow<'a> {
    /// A value is well formed when its bytes make a C string.
    pub open spec fn wf(&self) -> bool {
        is_c_string(self@)
    }

    /// The bytes of the string, the closing zero byte included.
    pub fn to_bytes_with_nul(&self) -> (bytes: &[u8])
        ensures
            bytes@ == self@,
    {
        match self {
            CStrCow::Borrowed(bytes) => bytes,
            CStrCow::Owned(bytes) => bytes.as_slice(),
        }
    }

    /// The bytes of the string without the closing zero byte.
    pub fn to_bytes(&self) -> (bytes: &[u8])
        requires
            self.wf(),
        ensures
            bytes@ == self@.drop_last(),
    {
        let all = self.to_bytes_with_nul();
        slice_subrange(all, 0, all.len() - 1)
    }

    /// Whether the string borrows the bytes it was made of.
    pub fn is_borrowed(&self) -> (b: bool)
        ensures
            b == (self is Borrowed),
    {
        match self {
            CStrCow::Borrowed(_) => true,
            CStrCow::Owned(_) => false,
        }
    }
}

/// The empty C string: one zero byte.
pub const EMPTY: [u8; 1] = [0];

/// Whether `bytes` holds a zero byte before its last byte.
fn find_interior_nul(bytes: &[u8]) -> (found: bool)
    ensures
        found == has_interior_nul(bytes@),
{
    let n: usize = bytes.len();
    if n == 0 {
        return false;
    }
    let mut i: usize = 0;
    while i < n - 1
        invariant
            n == bytes@.len(),
            n > 0,
            i <= n - 1,
            forall|k: int| 0 <= k < i ==> bytes@[k] != 0,
        decreases n - i,
    {
        if bytes[i] == 0 {
            return true;
        }
        i = i + 1;
    }
    false
}

/// Converts bytes into a C string.
///
/// Empty bytes give the empty C string. Bytes that end in a zero byte are
/// borrowed as they are. Other bytes are copied and closed with a zero byte.
/// Returns `None` exactly when the bytes hold a zero byte before the last byte.
pub fn bytes_to_cstr_cow<'a>(bytes: &'a [u8]) -> (r: Option<CStrCow<'a>>)
    ensures
        r is None <==> has_interior_nul(bytes@),
        match r {
            Some(cstr) => {
                &&& cstr.wf()
                &&& cstr@ == with_nul(bytes@)
                &&& cstr is Borrowed <==> bytes@.len() == 0 || ends_in_nul(bytes@)
            },
            None => true,
        },
{
    let n: usize = bytes.len();
    if n == 0 {
        let empty: &[u8] = EMPTY.as_slice();
        assert(empty@ =~= seq![0u8]);
        assert(with_nul(bytes@) =~= seq![0u8]);
        return Some(CStrCow::Borrowed(empty));
    }
    if find_interior_nul(bytes) {
        return None;
    }
    if bytes[n - 1] == 0 {
        Some(CStrCow::Borrowed(bytes))
    } else {
        let mut owned = slice_to_vec(bytes);
        owned.push(0);
        Some(CStrCow::Owned(owned))
    }
}

/// Converts `string` to a C string and calls `f` with the bytes of that
/// string, the closing zero byte included.
///
/// Returns `None`, without calling `f`, exactly when `string` holds a zero
/// byte before its last byte.
pub fn with_osstr_to_cstr<F, O>(string: &[u8], f: F) -> (r: Option<O>)
    where F: FnOnce(&[u8]) -> O
    requires
        forall|cstr: &[u8]| cstr@ == with_nul(string@) ==> f.requires((cstr,)),
    ensures
        r is None <==> has_interior_nul(string@),
        match r {
            Some(out) => exists|cstr: &[u8]|
                cstr@ == with_nul(string@) && #[trigger] f.ensures((cstr,), out),
            None => true,
        },
{
    match bytes_to_cstr_cow(string) {
        Some(cow) => {
            let cstr = cow.to_bytes_with_nul();
            let out = f(cstr);
            assert(cstr@ == with_nul(string@) && f.ensures((cstr,), out));
            let r = Some(out);
            assert(r->Some_0 == out);
            r
        },
        None => None,
    }
}

} // verus!
