use link::error::{from_desc, Kind};
use link::OpenError;

fn missing(text: &str) -> Option<String> {
    match from_desc(text) {
        Some(OpenError::MissingDependency(name)) => Some(name),
        _ => None,
    }
}

fn invalid(text: &str) -> Option<String> {
    match from_desc(text) {
        Some(OpenError::InvalidArchitecture(name)) => Some(name),
        _ => None,
    }
}

fn other(error: OpenError) -> Option<String> {
    match error {
        OpenError::Other(text) => Some(text),
        _ => None,
    }
}

#[test]
fn missing_dependency_is_recognised() {
    let text = "libfoo.so: cannot open shared object file: No such file or directory";
    assert_eq!(missing(text), Some("libfoo.so".to_string()));
}

#[test]
fn invalid_architecture_is_recognised() {
    let text = "/usr/lib32/libbar.so: wrong ELF class: ELFCLASS32";
    assert_eq!(invalid(text), Some("/usr/lib32/libbar.so".to_string()));
}

#[test]
fn sixty_four_bit_class_is_not_recognised() {
    assert!(from_desc("/usr/lib/libbar.so: wrong ELF class: ELFCLASS64").is_none());
}

#[test]
fn patterns_do_not_mix() {
    assert!(from_desc("libfoo.so: cannot open shared object file: ELFCLASS32").is_none());
    assert!(from_desc("libfoo.so: wrong ELF class: No such file or directory").is_none());
}

#[test]
fn message_without_two_colons_is_not_recognised() {
    assert!(from_desc("").is_none());
    assert!(from_desc("no colon at all").is_none());
    assert!(from_desc("cannot open shared object file: No such file or directory").is_none());
}

fn undefined(text: &str) -> Option<String> {
    match from_desc(text) {
        Some(OpenError::UndefinedSymbol(name)) => Some(name),
        _ => None,
    }
}

#[test]
fn undefined_symbol_is_recognised() {
    let text = "/usr/lib/libfoo.so: undefined symbol: frobnicate";
    assert_eq!(undefined(text), Some("frobnicate".to_string()));
    let text = "libfoo.so:undefined symbol:  frobnicate, version FOO_1.0 ";
    assert_eq!(undefined(text), Some("frobnicate, version FOO_1.0".to_string()));
}

#[test]
fn undefined_symbol_without_a_name_is_not_diagnosed() {
    assert!(from_desc("/usr/lib/libfoo.so: undefined symbol: ").is_none());
    assert!(from_desc("/usr/lib/libfoo.so: undefined symbol:").is_none());
    assert!(from_desc("undefined symbol: frobnicate").is_none());
}

#[test]
fn reason_and_error_are_trimmed() {
    let text = "libfoo.so: \t cannot open shared object file \u{a0}:\u{2003}No such file or directory \n";
    assert_eq!(missing(text), Some("libfoo.so".to_string()));
}

#[test]
fn library_part_is_kept_as_it_stands() {
    let text = " libfoo.so : cannot open shared object file: No such file or directory";
    assert_eq!(missing(text), Some(" libfoo.so ".to_string()));
}

#[test]
fn library_part_may_hold_colons() {
    let text = "a: b:c: wrong ELF class: ELFCLASS32";
    assert_eq!(invalid(text), Some("a: b:c".to_string()));
}

#[test]
fn library_part_may_be_empty() {
    let text = ": cannot open shared object file: No such file or directory";
    assert_eq!(missing(text), Some(String::new()));
}

#[test]
fn inner_white_space_is_not_trimmed() {
    assert!(from_desc("libfoo.so: cannot open  shared object file: No such file or directory")
        .is_none());
}

#[test]
fn library_part_outside_ascii() {
    let text = "/opt/b\u{fc}cher/lib\u{e9}.so: cannot open shared object file: No such file or directory";
    assert_eq!(missing(text), Some("/opt/b\u{fc}cher/lib\u{e9}.so".to_string()));
}

#[test]
fn classify_open_with_known_pattern() {
    let text = "libfoo.so: cannot open shared object file: No such file or directory";
    let error = OpenError::classify(Kind::Open, text.to_string());
    assert!(matches!(error, OpenError::MissingDependency(name) if name == "libfoo.so"));
}

#[test]
fn classify_open_with_unknown_pattern_keeps_the_text() {
    let text = "libfoo.so: file too short";
    let error = OpenError::classify(Kind::Open, text.to_string());
    assert_eq!(other(error), Some(text.to_string()));
}

#[test]
fn classify_other_kind_never_diagnoses() {
    let text = "libfoo.so: cannot open shared object file: No such file or directory";
    let error = OpenError::classify(Kind::Other, text.to_string());
    assert_eq!(other(error), Some(text.to_string()));
}

#[test]
fn loader_error_without_description_is_generic() {
    let error = OpenError::from_libloading(libloading::Error::DlOpenUnknown);
    assert_eq!(
        other(error),
        Some("dlopen failed, but system did not report the error".to_string())
    );
}

#[test]
fn loader_error_of_another_call_is_generic() {
    let error = OpenError::from_libloading(libloading::Error::IncompatibleSize);
    assert_eq!(other(error), Some("requested type cannot possibly work".to_string()));
}

#[test]
fn message_names_kind_and_quotes_text() {
    assert_eq!(
        OpenError::MissingDependency("libfoo.so".to_string()).message(),
        "missing dependency: \"libfoo.so\""
    );
    assert_eq!(
        OpenError::InvalidArchitecture("/lib32/libbar.so".to_string()).message(),
        "invalid architecture: \"/lib32/libbar.so\""
    );
    assert_eq!(
        OpenError::UndefinedSymbol("frobnicate".to_string()).message(),
        "undefined symbol: \"frobnicate\""
    );
    assert_eq!(
        OpenError::Other("file too short".to_string()).message(),
        "open failed: \"file too short\""
    );
}

#[test]
fn message_escapes_what_does_not_print() {
    assert_eq!(
        OpenError::Other("a\"b\n".to_string()).message(),
        "open failed: \"a\\\"b\\n\""
    );
}
