//! The errors of the build endpoints.

use vstd::prelude::*;

verus! {

broadcast use vstd::string::group_string_axioms;

/// `urlencoded::UrlDecodingError`: a request whose query could not be read.
#[verifier::external_type_specification]
#[verifier::external_body]
pub struct ExUrlDecodingError(urlencoded::UrlDecodingError);

/// `std::string::FromUtf8Error`: bytes that are not UTF-8.
#[verifier::external_type_specification]
#[verifier::external_body]
pub struct ExFromUtf8Error(std::string::FromUtf8Error);

/// The errors of the build endpoints: those of the query decoder and of the
/// `cargo` command, and errors of our own.
#[derive(Debug)]
pub enum CIError {
    UrlDecoding(urlencoded::UrlDecodingError),
    CmdIo(std::io::Error),
    Utf8(std::string::FromUtf8Error),
    Unknown(String),
}

/// `Error::description` of `urlencoded::UrlDecodingError`: the error's own
/// description. Nothing is stated of the text: Verus does not see which
/// variant the error is, and no name can stand for a function of it.
#[verifier::external_body]
#[allow(deprecated)]
fn url_decoding_description(e: &urlencoded::UrlDecodingError) -> String {
    std::error::Error::description(e).to_string()
}

/// `Error::description` of `std::io::Error`: the description of the error's
/// kind or its custom message. Nothing is stated of the text: the error is
/// opaque here.
#[verifier::external_body]
#[allow(deprecated)]
fn io_error_description(e: &std::io::Error) -> String {
    std::error::Error::description(e).to_string()
}

/// `Error::description` of `std::string::FromUtf8Error`. Nothing is stated
/// of the text, which `std` does not document.
#[verifier::external_body]
#[allow(deprecated)]
fn utf8_error_description(e: &std::string::FromUtf8Error) -> String {
    std::error::Error::description(e).to_string()
}

impl CIError {
    /// The description of the error: the inner error's own, or the message
    /// of an error of our own.
    pub fn description(&self) -> (r: String)
        ensures
            self is Unknown ==> r@ == self->Unknown_0@,
    {
        match self {
            CIError::UrlDecoding(e) => url_decoding_description(e),
            CIError::CmdIo(e) => io_error_description(e),
            CIError::Utf8(e) => utf8_error_description(e),
            CIError::Unknown(e) => e.clone(),
        }
    }

    /// The message shown to a user, which is the description.
    pub fn to_string(&self) -> (r: String)
        ensures
            self is Unknown ==> r@ == self->Unknown_0@,
    {
        self.description()
    }
}

impl From<std::string::FromUtf8Error> for CIError {
    fn from(err: std::string::FromUtf8Error) -> (r: CIError) {
        CIError::Utf8(err)
    }
}

impl vstd::std_specs::convert::FromSpecImpl<std::string::FromUtf8Error> for CIError {
    open spec fn obeys_from_spec() -> bool {
        true
    }

    open spec fn from_spec(err: std::string::FromUtf8Error) -> CIError {
        CIError::Utf8(err)
    }
}

impl From<std::io::Error> for CIError {
    fn from(err: std::io::Error) -> (r: CIError) {
        CIError::CmdIo(err)
    }
}

impl vstd::std_specs::convert::FromSpecImpl<std::io::Error> for CIError {
    open spec fn obeys_from_spec() -> bool {
        true
    }

    open spec fn from_spec(err: std::io::Error) -> CIError {
        CIError::CmdIo(err)
    }
}

impl From<urlencoded::UrlDecodingError> for CIError {
    fn from(err: urlencoded::UrlDecodingError) -> (r: CIError) {
        CIError::UrlDecoding(err)
    }
}

impl vstd::std_specs::convert::FromSpecImpl<urlencoded::UrlDecodingError> for CIError {
    open spec fn obeys_from_spec() -> bool {
        true
    }

    open spec fn from_spec(err: urlencoded::UrlDecodingError) -> CIError {
        CIError::UrlDecoding(err)
    }
}

/// The error of a request that carries no logger.
#[derive(Debug)]
pub enum LoggerError {
    NoLogger,
}

} // verus!
