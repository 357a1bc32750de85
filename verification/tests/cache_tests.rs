use link::library::RawHandle;
use link::range::ByteRange;
use link::{Library, LibraryMap, OpenError};

#[test]
fn empty_range_holds_nothing() {
    let range = ByteRange::empty();
    assert!(range.is_empty());
    assert_eq!(range, ByteRange::new(0, 0));
    assert!(ByteRange::new(0x1000, 0).is_empty());
    assert!(!ByteRange::new(0x1000, 1).is_empty());
    assert_eq!(ByteRange::new(7, 9).base, 7);
    assert_eq!(ByteRange::new(7, 9).len, 9);
}

#[test]
fn map_answers_empty_for_a_name_never_loaded() {
    let map = LibraryMap::new();
    assert!(map.get(b"libdefinitely-not-loaded.so.99").is_empty());
    assert!(map.get(b"").is_empty());
    map.update();
    assert!(map.get(b"libdefinitely-not-loaded.so.99").is_empty());
}

fn mapped_names(map: &LibraryMap) -> Vec<&'static [u8]> {
    let candidates: [&'static [u8]; 6] = [
        b"libc.so.6",
        b"libgcc_s.so.1",
        b"libm.so.6",
        b"ld-linux-x86-64.so.2",
        b"ld-linux-aarch64.so.1",
        b"linux-vdso.so.1",
    ];
    candidates.iter().copied().filter(|name| !map.get(name).is_empty()).collect()
}

#[test]
fn map_finds_what_the_process_has_mapped() {
    let map = LibraryMap::new();
    assert!(!mapped_names(&map).is_empty());
}

#[test]
fn map_refresh_is_idempotent() {
    let map = LibraryMap::new();
    let names = mapped_names(&map);
    let first: Vec<ByteRange> = names.iter().map(|name| map.get(name)).collect();
    map.update();
    let second: Vec<ByteRange> = names.iter().map(|name| map.get(name)).collect();
    map.update();
    let third: Vec<ByteRange> = names.iter().map(|name| map.get(name)).collect();
    assert_eq!(first, second);
    assert_eq!(second, third);
}

#[test]
fn null_is_no_handle() {
    assert!(RawHandle::new(0).is_none());
    assert_eq!(RawHandle::new(0x1000).unwrap().address(), 0x1000);
    assert_eq!(RawHandle::new(usize::MAX).unwrap().address(), usize::MAX);
}

#[test]
fn opened_library_is_handed_out_with_name_and_handle() {
    let map = LibraryMap::new();
    let handle = RawHandle::new(0x5555_0000).unwrap();
    let library = match Library::load(b"libc.so.6", Ok(handle), &map) {
        Ok(library) => library,
        Err(_) => panic!("a handle was given"),
    };
    assert_eq!(library.name(), b"libc.so.6");
    assert_eq!(library.handle().address(), 0x5555_0000);
    assert_eq!(library.bytes(&map), map.get(b"libc.so.6"));
    let (name, handle) = library.into_raw();
    assert_eq!(name, b"libc.so.6".to_vec());
    assert_eq!(handle.address(), 0x5555_0000);
}

#[test]
fn failed_open_is_returned_as_an_error() {
    let map = LibraryMap::new();
    let result = Library::load(b"libfoo.so", Err(libloading::Error::DlOpenUnknown), &map);
    assert!(matches!(result, Err(OpenError::Other(text))
        if text == "dlopen failed, but system did not report the error"));
}

#[test]
fn library_never_mapped_has_no_bytes() {
    let map = LibraryMap::new();
    let library = Library::from_raw(b"libnever.so".to_vec(), RawHandle::new(1).unwrap());
    assert_eq!(library.name(), b"libnever.so");
    assert!(library.bytes(&map).is_empty());
}

#[test]
fn map_never_finds_what_is_no_file_name() {
    let map = LibraryMap::new();
    for other in ["", ".", "..", "/", "/lib/x86_64-linux-gnu/libc.so.6", "lib/libc.so.6", "libc.so.6/"] {
        assert_eq!(map.get(other.as_bytes()), ByteRange::empty(), "{:?}", other);
    }
    let library = Library::from_raw(b"/usr/lib/libc.so.6".to_vec(), RawHandle::new(1).unwrap());
    assert_eq!(library.bytes(&map), ByteRange::empty());
}

#[test]
fn library_opened_by_path_is_known_by_its_file_name() {
    let map = LibraryMap::new();
    let handle = RawHandle::new(0x5555_0000).unwrap();
    for path in ["/usr/lib/libc.so.6", "/lib/x86_64-linux-gnu/libc.so.6", "./libc.so.6", "libc.so.6"] {
        let library = match Library::load(path.as_bytes(), Ok(handle), &map) {
            Ok(library) => library,
            Err(_) => panic!("a handle was given"),
        };
        assert_eq!(library.name(), b"libc.so.6", "{:?}", path);
        assert_eq!(library.bytes(&map), map.get(b"libc.so.6"), "{:?}", path);
    }
}

#[test]
fn library_opened_by_a_name_that_finds_bytes() {
    let map = LibraryMap::new();
    let names = mapped_names(&map);
    let handle = RawHandle::new(0x5555_0000).unwrap();
    for name in names {
        let mut path = b"/some/dir/".to_vec();
        path.extend_from_slice(name);
        let library = match Library::load(&path, Ok(handle), &map) {
            Ok(library) => library,
            Err(_) => panic!("a handle was given"),
        };
        assert_eq!(library.name(), name);
        assert!(!library.bytes(&map).is_empty());
    }
}

#[test]
fn library_opened_by_what_names_no_file_keeps_what_was_given() {
    let map = LibraryMap::new();
    let handle = RawHandle::new(0x5555_0000).unwrap();
    for path in ["", "/", "..", "/usr/lib/.."] {
        let library = match Library::load(path.as_bytes(), Ok(handle), &map) {
            Ok(library) => library,
            Err(_) => panic!("a handle was given"),
        };
        assert_eq!(library.name(), path.as_bytes(), "{:?}", path);
        assert!(library.bytes(&map).is_empty(), "{:?}", path);
    }
}

#[test]
fn failed_open_is_classified_by_its_own_kind_and_text() {
    let map = LibraryMap::new();
    let result = Library::load(b"libfoo.so", Err(libloading::Error::DlSymUnknown), &map);
    assert!(matches!(result, Err(OpenError::Other(text))
        if text == "dlsym failed, but system did not report the error"));
    let result = Library::load(b"libfoo.so", Err(libloading::Error::IncompatibleSize), &map);
    assert!(matches!(result, Err(OpenError::Other(text))
        if text == "requested type cannot possibly work"));
}
