//! A live registry of the shared libraries mapped into a process.

pub use cache::map::LibraryMap;
pub use error::OpenError;
pub use library::Library;

pub mod cache;
pub mod error;
pub mod ffi;
pub mod library;
pub mod modules;
pub mod path;
pub mod range;
pub mod text;
