//! The library's error type.
use vstd::prelude::*;

use crate::text::{chars_of, extend_str, string_of};

verus! {

/// Everything that can go wrong while building a bundle. Errors that come
/// from outside code carry that code's message.
#[derive(Debug, Clone, PartialEq, Eq)]
pub enum CodeGrabberError {
    Io(String),
    Glob(String),
    Walk(String),
    Config(String),
    TomlDe(String),
    TomlSer(String),
    Tokenizer(String),
}

/// The results of the library.
pub type Result<T> = std::result::Result<T, CodeGrabberError>;

/// The label that introduces each kind of error in its message.
pub open spec fn error_prefix(e: CodeGrabberError) -> Seq<char> {
    match e {
        CodeGrabberError::Io(_) => "I/O error: "@,
        CodeGrabberError::Glob(_) => "glob error: "@,
        CodeGrabberError::Walk(_) => "walk error: "@,
        CodeGrabberError::Config(_) => "configuration error: "@,
        CodeGrabberError::TomlDe(_) => "TOML parse error: "@,
        CodeGrabberError::TomlSer(_) => "TOML write error: "@,
        CodeGrabberError::Tokenizer(_) => "tokenizer error: "@,
    }
}

/// The detail carried by an error.
pub open spec fn error_detail(e: CodeGrabberError) -> Seq<char> {
    match e {
        CodeGrabberError::Io(m) => m@,
        CodeGrabberError::Glob(m) => m@,
        CodeGrabberError::Walk(m) => m@,
        CodeGrabberError::Config(m) => m@,
        CodeGrabberError::TomlDe(m) => m@,
        CodeGrabberError::TomlSer(m) => m@,
        CodeGrabberError::Tokenizer(m) => m@,
    }
}

impl CodeGrabberError {
    /// The message of the error, e.g. `I/O error: file not found`.
    pub fn message(&self) -> (r: String)
        ensures
            r@ == error_prefix(*self) + error_detail(*self),
    {
        let (prefix, detail) = match self {
            CodeGrabberError::Io(m) => ("I/O error: ", m),
            CodeGrabberError::Glob(m) => ("glob error: ", m),
            CodeGrabberError::Walk(m) => ("walk error: ", m),
            CodeGrabberError::Config(m) => ("configuration error: ", m),
            CodeGrabberError::TomlDe(m) => ("TOML parse error: ", m),
            CodeGrabberError::TomlSer(m) => ("TOML write error: ", m),
            CodeGrabberError::Tokenizer(m) => ("tokenizer error: ", m),
        };
        let mut out = chars_of(prefix);
        extend_str(&mut out, detail.as_str());
        string_of(&out)
    }
}

} // verus!
