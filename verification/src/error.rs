//! Why a library could not be opened: a small taxonomy recovered, as far as
//! it goes, from the loader's own message.

use crate::text::{chars_of, find_last, last_index_of, range_is, trim, trim_range};
use vstd::prelude::*;
use vstd::string::*;

verus! {

/// Why opening a library failed.
pub enum OpenError {
    /// The library found is built for another machine than the process runs on.
    InvalidArchitecture(String),
    /// The library, or one that it is linked against, could not be found.
    MissingDependency(String),
    /// A symbol that the library needs is in no loaded library.
    UndefinedSymbol(String),
    /// Any other failure; it carries the loader's message as it came.
    Other(String),
}

/// An `OpenError` with its texts as sequences of characters.
pub enum OpenErrorView {
    InvalidArchitecture(Seq<char>),
    MissingDependency(Seq<char>),
    UndefinedSymbol(Seq<char>),
    Other(Seq<char>),
}

impl View for OpenError {
    type V = OpenErrorView;

    open spec fn view(&self) -> OpenErrorView {
        match self {
            OpenError::InvalidArchitecture(name) => OpenErrorView::InvalidArchitecture(name@),
            OpenError::MissingDependency(name) => OpenErrorView::MissingDependency(name@),
            OpenError::UndefinedSymbol(name) => OpenErrorView::UndefinedSymbol(name@),
            OpenError::Other(text) => OpenErrorView::Other(text@),
        }
    }
}

/// Which call of the loader an error came from.
#[derive(Clone, Copy, Debug, PartialEq, Eq, Structural)]
pub enum Kind {
    /// Opening a library.
    Open,
    /// Anything else.
    Other,
}

/// A loader message in three parts, cut at its last two colons: what comes
/// before them as it stands, and the two parts after them trimmed.
pub struct Parts {
    pub library: Seq<char>,
    pub why: Seq<char>,
    pub error: Seq<char>,
}

/// The three parts of `desc`, where it holds two colons or more.
pub open spec fn spec_parts(desc: Seq<char>) -> Option<Parts> {
    let j = last_index_of(desc, ':');
    let i = last_index_of(desc.subrange(0, j), ':');
    if j >= 0 && i >= 0 {
        Some(
            Parts {
                library: desc.subrange(0, i),
                why: trim(desc.subrange(i + 1, j)),
                error: trim(desc.subrange(j + 1, desc.len() as int)),
            },
        )
    } else {
        None
    }
}

/// The diagnosis of a loader message, where it follows a known pattern.
///
/// A message reads `library: why: error`. Three patterns are known: the
/// loader could not open a shared object because there is no such file; the
/// object found has the 32-bit ELF class; a symbol, named where the error
/// would stand, is undefined.
pub open spec fn spec_from_desc(desc: Seq<char>) -> Option<OpenErrorView> {
    match spec_parts(desc) {
        Some(parts) => {
            if parts.why == "cannot open shared object file"@ && parts.error
                == "No such file or directory"@ {
                Some(OpenErrorView::MissingDependency(parts.library))
            } else if parts.why == "wrong ELF class"@ && parts.error == "ELFCLASS32"@ {
                Some(OpenErrorView::InvalidArchitecture(parts.library))
            } else if parts.why == "undefined symbol"@ && parts.error.len() > 0 {
                Some(OpenErrorView::UndefinedSymbol(parts.error))
            } else {
                None
            }
        },
        None => None,
    }
}

/// The error that a failure of kind `kind` with the message `desc` stands for:
/// the diagnosis of the message where opening failed and the message follows a
/// known pattern, else the message itself.
pub open spec fn spec_classify(kind: Kind, desc: Seq<char>) -> OpenErrorView {
    match kind {
        Kind::Open => match spec_from_desc(desc) {
            Some(error) => error,
            None => OpenErrorView::Other(desc),
        },
        Kind::Other => OpenErrorView::Other(desc),
    }
}

/// Diagnoses a loader message.
///
/// Returns `None` for a message that follows no known pattern.
pub fn from_desc(desc: &str) -> (r: Option<OpenError>)
    ensures
        match r {
            Some(error) => spec_from_desc(desc@) == Some(error@),
            None => spec_from_desc(desc@) is None,
        },
{
    let chars = chars_of(desc);
    let n: usize = chars.len();
    let j: usize = match find_last(&chars, n, ':') {
        Some(j) => j,
        None => {
            assert(chars@.subrange(0, n as int) =~= desc@);
            return None;
        },
    };
    assert(chars@.subrange(0, n as int) =~= desc@);
    let i: usize = match find_last(&chars, j, ':') {
        Some(i) => i,
        None => {
            return None;
        },
    };
    let (why_lo, why_hi) = trim_range(&chars, i + 1, j);
    let (error_lo, error_hi) = trim_range(&chars, j + 1, n);
    let missing = range_is(&chars, why_lo, why_hi, "cannot open shared object file") && range_is(
        &chars,
        error_lo,
        error_hi,
        "No such file or directory",
    );
    let wrong_class = range_is(&chars, why_lo, why_hi, "wrong ELF class") && range_is(
        &chars,
        error_lo,
        error_hi,
        "ELFCLASS32",
    );
    let undefined = range_is(&chars, why_lo, why_hi, "undefined symbol") && error_lo < error_hi;
    if missing {
        Some(OpenError::MissingDependency(desc.substring_char(0, i).to_owned()))
    } else if wrong_class {
        Some(OpenError::InvalidArchitecture(desc.substring_char(0, i).to_owned()))
    } else if undefined {
        Some(OpenError::UndefinedSymbol(desc.substring_char(error_lo, error_hi).to_owned()))
    } else {
        None
    }
}

/// The loader's own error type. Nothing inside it is visible here.
#[verifier::external_type_specification]
#[verifier::external_body]
pub struct ExLoaderError(libloading::Error);

/// The call of the loader that `error` came from: `Kind::Open` for the
/// variant `DlOpen` of `libloading::Error`, `Kind::Other` for every other.
pub uninterp spec fn loader_kind(error: libloading::Error) -> Kind;

/// The message of `error`: what the `Display` of `libloading::Error` prints.
pub uninterp spec fn loader_text(error: libloading::Error) -> Seq<char>;

/// Takes a loader error apart: the call that it came from and its message.
///
/// Reads `libloading::Error`: the message is what its `Display` prints, the
/// kind is `Kind::Open` for its variant `DlOpen` and `Kind::Other` for every
/// other. Both depend on the error alone; the contract gives each a name and
/// says no more of either.
#[verifier::external_body]
fn map_error(error: libloading::Error) -> (r: (Kind, String))
    ensures
        r.0 == loader_kind(error),
        r.1@ == loader_text(error),
{
    let desc = error.to_string();
    match error {
        libloading::Error::DlOpen { .. } => (Kind::Open, desc),
        _ => (Kind::Other, desc),
    }
}

/// What the text of a string looks like when it is printed quoted and escaped
/// for a developer to read.
pub uninterp spec fn quoted(text: Seq<char>) -> Seq<char>;

/// `text` in double quotes, with the characters escaped that would not print
/// as themselves.
///
/// Calls `format!` with `{:?}` on a `str`. The result is a function of the
/// text alone; the contract gives it a name and says no more of it.
#[verifier::external_body]
fn quote(text: &str) -> (r: String)
    ensures
        r@ == quoted(text@),
{
    format!("{:?}", text)
}

/// The message that an error prints.
pub open spec fn spec_message(error: OpenErrorView) -> Seq<char> {
    match error {
        OpenErrorView::InvalidArchitecture(name) => "invalid architecture: "@ + quoted(name),
        OpenErrorView::MissingDependency(name) => "missing dependency: "@ + quoted(name),
        OpenErrorView::UndefinedSymbol(name) => "undefined symbol: "@ + quoted(name),
        OpenErrorView::Other(text) => "open failed: "@ + quoted(text),
    }
}

impl OpenError {
    /// The error for a failure of kind `kind` whose message is `desc`.
    ///
    /// No message is refused: one that follows no known pattern is kept whole
    /// in `OpenError::Other`.
    pub fn classify(kind: Kind, desc: String) -> (r: OpenError)
        ensures
            r@ == spec_classify(kind, desc@),
    {
        match kind {
            Kind::Open => match from_desc(desc.as_str()) {
                Some(error) => error,
                None => OpenError::Other(desc),
            },
            Kind::Other => OpenError::Other(desc),
        }
    }

    /// The error that a failure of the loader stands for: what `classify`
    /// makes of the kind and the message of that very failure.
    pub fn from_libloading(error: libloading::Error) -> (r: OpenError)
        ensures
            r@ == spec_classify(loader_kind(error), loader_text(error)),
    {
        let (kind, desc) = map_error(error);
        OpenError::classify(kind, desc)
    }

    /// A line that names the kind of the error and quotes what it is about.
    pub fn message(&self) -> (r: String)
        ensures
            r@ == spec_message(self@),
    {
        match self {
            OpenError::InvalidArchitecture(name) => String::from_str(
                "invalid architecture: ",
            ).concat(quote(name.as_str()).as_str()),
            OpenError::MissingDependency(name) => String::from_str("missing dependency: ").concat(
                quote(name.as_str()).as_str(),
            ),
            OpenError::UndefinedSymbol(name) => String::from_str("undefined symbol: ").concat(
                quote(name.as_str()).as_str(),
            ),
            OpenError::Other(text) => String::from_str("open failed: ").concat(
                quote(text.as_str()).as_str(),
            ),
        }
    }
}

} // verus!
