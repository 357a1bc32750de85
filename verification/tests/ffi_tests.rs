use link::ffi::{bytes_to_cstr_cow, with_osstr_to_cstr, CStrCow};

#[test]
fn empty_bytes_give_the_empty_string() {
    let cstr = bytes_to_cstr_cow(b"").unwrap();
    assert!(cstr.is_borrowed());
    assert_eq!(cstr.to_bytes_with_nul(), b"\0");
    assert_eq!(cstr.to_bytes(), b"");
}

#[test]
fn closed_bytes_are_borrowed() {
    let bytes = b"malloc\0";
    let cstr = bytes_to_cstr_cow(bytes).unwrap();
    assert!(matches!(cstr, CStrCow::Borrowed(_)));
    assert_eq!(cstr.to_bytes_with_nul(), b"malloc\0");
    assert_eq!(cstr.to_bytes(), b"malloc");
}

#[test]
fn open_bytes_are_copied_and_closed() {
    let cstr = bytes_to_cstr_cow(b"malloc").unwrap();
    assert!(matches!(cstr, CStrCow::Owned(_)));
    assert!(!cstr.is_borrowed());
    assert_eq!(cstr.to_bytes_with_nul(), b"malloc\0");
    assert_eq!(cstr.to_bytes(), b"malloc");
}

#[test]
fn lone_zero_byte_is_the_empty_string() {
    let cstr = bytes_to_cstr_cow(b"\0").unwrap();
    assert!(cstr.is_borrowed());
    assert_eq!(cstr.to_bytes_with_nul(), b"\0");
}

#[test]
fn interior_zero_byte_is_refused() {
    assert!(bytes_to_cstr_cow(b"a\0b").is_none());
    assert!(bytes_to_cstr_cow(b"a\0b\0").is_none());
    assert!(bytes_to_cstr_cow(b"\0a").is_none());
    assert!(bytes_to_cstr_cow(b"\0\0").is_none());
    assert!(bytes_to_cstr_cow(b"ab\0\0").is_none());
}

#[test]
fn closure_gets_the_closed_bytes() {
    let seen = with_osstr_to_cstr(b"free", |cstr| cstr.to_vec());
    assert_eq!(seen, Some(b"free\0".to_vec()));
    let seen = with_osstr_to_cstr(b"free\0", |cstr| cstr.len());
    assert_eq!(seen, Some(5));
    let seen = with_osstr_to_cstr(b"", |cstr| cstr.to_vec());
    assert_eq!(seen, Some(b"\0".to_vec()));
}

#[test]
fn closure_is_not_called_on_refusal() {
    let mut called = false;
    let seen = with_osstr_to_cstr(b"fr\0ee", |_| {
        called = true;
    });
    assert!(seen.is_none());
    assert!(!called);
}
