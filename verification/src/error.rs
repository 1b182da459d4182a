//! The error type of the library and its mathematical model.

use vstd::prelude::*;

verus! {

/// `syntect::Error`, carried through unread.
#[verifier::external_type_specification]
#[verifier::external_body]
pub struct ExSyntectError(syntect::Error);

/// `katex::Error`, carried through unread.
#[verifier::external_type_specification]
#[verifier::external_body]
pub struct ExKatexError(katex::Error);

/// `std::io::Error`, carried through unread.
#[verifier::external_type_specification]
#[verifier::external_body]
pub struct ExIoError(std::io::Error);

/// Everything that can go wrong while a document is processed.
#[derive(Debug)]
pub enum ConfigurafoxError {
    MalformedAttrs { key_name: String, msg: String },
    MissingAttr { key_name: String, msg: String },
    MissingBody { msg: String },
    /// Markup that the parser refused, with the path of its source.
    ParseHTMLError { path: String, error: String },
    IO(std::io::Error),
    /// The highlighting engine failed.
    SyntectError(syntect::Error),
    /// The math engine failed.
    KatexError(katex::Error),
    /// A domain violation, described in words.
    Other(String),
}

/// What an error says, without the engine's own payload: the model that
/// contracts compare errors by.
pub enum Failure {
    MalformedAttrs { key_name: Seq<char>, msg: Seq<char> },
    MissingAttr { key_name: Seq<char>, msg: Seq<char> },
    MissingBody { msg: Seq<char> },
    ParseHTMLError { path: Seq<char>, error: Seq<char> },
    IO,
    SyntectError,
    KatexError,
    Other(Seq<char>),
}

impl View for ConfigurafoxError {
    type V = Failure;

    open spec fn view(&self) -> Failure {
        match *self {
            ConfigurafoxError::MalformedAttrs { key_name, msg } => Failure::MalformedAttrs {
                key_name: key_name@,
                msg: msg@,
            },
            ConfigurafoxError::MissingAttr { key_name, msg } => Failure::MissingAttr {
                key_name: key_name@,
                msg: msg@,
            },
            ConfigurafoxError::MissingBody { msg } => Failure::MissingBody { msg: msg@ },
            ConfigurafoxError::ParseHTMLError { path, error } => Failure::ParseHTMLError {
                path: path@,
                error: error@,
            },
            ConfigurafoxError::IO(_) => Failure::IO,
            ConfigurafoxError::SyntectError(_) => Failure::SyntectError,
            ConfigurafoxError::KatexError(_) => Failure::KatexError,
            ConfigurafoxError::Other(msg) => Failure::Other(msg@),
        }
    }
}


impl From<syntect::Error> for ConfigurafoxError {
    fn from(v: syntect::Error) -> (error: Self) {
        ConfigurafoxError::SyntectError(v)
    }
}

impl vstd::std_specs::convert::FromSpecImpl<syntect::Error> for ConfigurafoxError {
    open spec fn obeys_from_spec() -> bool {
        true
    }

    open spec fn from_spec(v: syntect::Error) -> Self {
        ConfigurafoxError::SyntectError(v)
    }
}

impl From<std::io::Error> for ConfigurafoxError {
    fn from(v: std::io::Error) -> (error: Self) {
        ConfigurafoxError::IO(v)
    }
}

impl vstd::std_specs::convert::FromSpecImpl<std::io::Error> for ConfigurafoxError {
    open spec fn obeys_from_spec() -> bool {
        true
    }

    open spec fn from_spec(v: std::io::Error) -> Self {
        ConfigurafoxError::IO(v)
    }
}

} // verus!
