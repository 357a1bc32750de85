//! The key under which a library is registered: the file name of its path.
//!
//! A path is a sequence of bytes in the platform's own encoding, cut into
//! segments by `/`. Empty segments and segments that read `.` name nothing
//! and are passed over. The file name is the last segment that is left,
//! unless that segment reads `..`, which names a directory and no file.

use crate::text::{last_index_of, lemma_last_index_of, lemma_last_index_of_is};
use vstd::prelude::*;
use vstd::slice::*;

verus! {

/// The byte that separates the segments of a path.
pub const SEPARATOR: u8 = 0x2F;

/// The byte of a full stop.
pub const DOT: u8 = 0x2E;

/// The segment that stands for the directory itself.
pub open spec fn cur_dir() -> Seq<u8> {
    seq![DOT]
}

/// The segment that stands for the directory above.
pub open spec fn parent_dir() -> Seq<u8> {
    seq![DOT, DOT]
}

/// A segment that can be a file name: it is not empty, holds no separator
/// and reads neither `.` nor `..`.
pub open spec fn is_plain_name(name: Seq<u8>) -> bool {
    &&& name.len() > 0
    &&& !name.contains(SEPARATOR)
    &&& name != cur_dir()
    &&& name != parent_dir()
}

/// The file name of `path`, if it has one.
pub open spec fn file_name(path: Seq<u8>) -> Option<Seq<u8>>
    decreases path.len(),
{
    if path.len() == 0 {
        None
    } else {
        let k = last_index_of(path, SEPARATOR);
        let segment = path.subrange(k + 1, path.len() as int);
        if segment.len() == 0 || segment == cur_dir() {
            if 0 < k < path.len() {
                file_name(path.subrange(0, k))
            } else {
                None
            }
        } else if segment == parent_dir() {
            None
        } else {
            Some(segment)
        }
    }
}

/// The name under which a library opened as `path` is known: the file name
/// of the path, or the path as it stands where it names no file.
pub open spec fn normalized(path: Seq<u8>) -> Seq<u8> {
    match file_name(path) {
        Some(name) => name,
        None => path,
    }
}

/// A path that ends in a separator and a plain name has that name as its
/// file name, whatever stands before the separator.
pub proof fn lemma_file_name_of_join(dir: Seq<u8>, name: Seq<u8>)
    requires
        is_plain_name(name),
    ensures
        file_name(dir + seq![SEPARATOR] + name) == Some(name),
{
    let path = dir + seq![SEPARATOR] + name;
    let k = dir.len() as int;
    assert(path[k] == SEPARATOR);
    assert forall|j: int| k < j < path.len() implies path[j] != SEPARATOR by {
        assert(path[j] == name[j - k - 1]);
    }
    lemma_last_index_of_is(path, SEPARATOR, k);
    assert(path.subrange(k + 1, path.len() as int) =~= name);
}

/// A plain name is its own file name.
pub proof fn lemma_file_name_of_plain(name: Seq<u8>)
    requires
        is_plain_name(name),
    ensures
        file_name(name) == Some(name),
{
    lemma_last_index_of_is(name, SEPARATOR, -1);
    assert(name.subrange(0, name.len() as int) =~= name);
}

/// A file name is always a plain name.
pub proof fn lemma_file_name_is_plain(path: Seq<u8>)
    ensures
        file_name(path) matches Some(name) ==> is_plain_name(name),
    decreases path.len(),
{
    if path.len() > 0 {
        let k = last_index_of(path, SEPARATOR);
        lemma_last_index_of(path, SEPARATOR);
        let segment = path.subrange(k + 1, path.len() as int);
        if segment.len() == 0 || segment == cur_dir() {
            if 0 < k < path.len() {
                lemma_file_name_is_plain(path.subrange(0, k));
            }
        } else if segment != parent_dir() {
            assert forall|j: int| 0 <= j < segment.len() implies segment[j] != SEPARATOR by {
                assert(segment[j] == path[k + 1 + j]);
            }
        }
    }
}

/// Two paths that end in the same plain name have the same key, wherever
/// their directories lie: directories are stripped before names are compared.
pub proof fn law_same_name_same_key(dir_a: Seq<u8>, dir_b: Seq<u8>, name: Seq<u8>)
    requires
        is_plain_name(name),
    ensures
        file_name(dir_a + seq![SEPARATOR] + name) == file_name(dir_b + seq![SEPARATOR] + name),
        file_name(dir_a + seq![SEPARATOR] + name) == Some(name),
        file_name(name) == Some(name),
{
    lemma_file_name_of_join(dir_a, name);
    lemma_file_name_of_join(dir_b, name);
    lemma_file_name_of_plain(name);
}

/// Taking the file name twice gives what taking it once gives.
pub proof fn law_file_name_idempotent(path: Seq<u8>)
    ensures
        file_name(path) matches Some(name) ==> file_name(name) == Some(name),
{
    lemma_file_name_is_plain(path);
    if let Some(name) = file_name(path) {
        lemma_file_name_of_plain(name);
    }
}

/// Whether `bytes` can be a file name: not empty, without a separator, and
/// reading neither `.` nor `..`.
pub fn is_name(bytes: &[u8]) -> (b: bool)
    ensures
        b == is_plain_name(bytes@),
{
    let n: usize = bytes.len();
    if n == 0 {
        return false;
    }
    if n == 1 && bytes[0] == DOT {
        assert(bytes@ =~= cur_dir());
        return false;
    }
    if n == 2 && bytes[0] == DOT && bytes[1] == DOT {
        assert(bytes@ =~= parent_dir());
        return false;
    }
    let mut i: usize = 0;
    while i < n
        invariant
            n == bytes@.len(),
            i <= n,
            forall|k: int| 0 <= k < i ==> bytes@[k] != SEPARATOR,
        decreases n - i,
    {
        if bytes[i] == SEPARATOR {
            assert(bytes@.contains(SEPARATOR));
            return false;
        }
        i = i + 1;
    }
    proof {
        if bytes@ == cur_dir() {
            assert(bytes@.len() == 1 && bytes@[0] == cur_dir()[0]);
        }
        if bytes@ == parent_dir() {
            assert(bytes@.len() == 2 && bytes@[0] == parent_dir()[0] && bytes@[1]
                == parent_dir()[1]);
        }
    }
    true
}

/// Where the last separator of `path[..end]` stands, if there is one.
fn find_last_separator(path: &[u8], end: usize) -> (r: Option<usize>)
    requires
        end <= path@.len(),
    ensures
        match r {
            Some(k) => k < end && k as int == last_index_of(
                path@.subrange(0, end as int),
                SEPARATOR,
            ),
            None => last_index_of(path@.subrange(0, end as int), SEPARATOR) == -1,
        },
{
    let ghost s = path@.subrange(0, end as int);
    let mut i: usize = end;
    while i > 0
        invariant
            i <= end <= path@.len(),
            s == path@.subrange(0, end as int),
            forall|k: int| i <= k < end ==> s[k] != SEPARATOR,
        decreases i,
    {
        i = i - 1;
        if path[i] == SEPARATOR {
            proof {
                lemma_last_index_of_is(s, SEPARATOR, i as int);
            }
            return Some(i);
        }
    }
    proof {
        lemma_last_index_of_is(s, SEPARATOR, -1);
    }
    None
}

/// Returns the file name of a library path: the key under which the library
/// is registered.
///
/// Returns `None` for a path that names no file: an empty path, the root, or
/// one whose last segment reads `..`.
pub fn name_of(path: &[u8]) -> (r: Option<Vec<u8>>)
    ensures
        match r {
            Some(name) => file_name(path@) == Some(name@) && is_plain_name(name@),
            None => file_name(path@) is None,
        },
{
    let mut end: usize = path.len();
    assert(path@.subrange(0, end as int) =~= path@);
    while end > 0
        invariant
            end <= path@.len(),
            file_name(path@.subrange(0, end as int)) == file_name(path@),
        decreases end,
    {
        let ghost prefix = path@.subrange(0, end as int);
        let found = find_last_separator(path, end);
        let start: usize = match found {
            Some(k) => k + 1,
            None => 0,
        };
        assert(prefix.subrange(start as int, end as int) =~= path@.subrange(
            start as int,
            end as int,
        ));
        let len: usize = end - start;
        let is_cur_dir = len == 1 && path[start] == DOT;
        let is_parent_dir = len == 2 && path[start] == DOT && path[start + 1] == DOT;
        proof {
            let segment = path@.subrange(start as int, end as int);
            if is_cur_dir {
                assert(segment =~= cur_dir());
            } else if len == 1 {
                assert(segment[0] != cur_dir()[0]);
            }
            if is_parent_dir {
                assert(segment =~= parent_dir());
            } else if len == 2 {
                assert(segment[0] != parent_dir()[0] || segment[1] != parent_dir()[1]);
            }
        }
        if len == 0 || is_cur_dir {
            match found {
                Some(k) => {
                    assert(prefix.subrange(0, k as int) =~= path@.subrange(0, k as int));
                    if k == 0 {
                        return None;
                    }
                    end = k;
                },
                None => {
                    return None;
                },
            }
        } else if is_parent_dir {
            return None;
        } else {
            proof {
                lemma_file_name_is_plain(path@);
            }
            return Some(slice_to_vec(slice_subrange(path, start, end)));
        }
    }
    assert(path@.subrange(0, 0) =~= Seq::<u8>::empty());
    None
}

} // verus!
