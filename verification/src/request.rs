//! Failed downloads, as plain values: the HTTP status and address of a
//! refused request, or the message of a request or a document that could
//! not be read.
use vstd::prelude::*;

use crate::text::{chars_of, decimal, push_decimal, push_str_chars, string_of};

verus! {

/// A download that failed.
pub enum RequestError {
    /// The server answered with a status other than success.
    DownloadError { code: u16, url: String },
    /// The request did not complete.
    ReqwestError(String),
}

/// A JSON document that could not be had: its download failed, or it did
/// not parse.
pub enum JsonDownloadError {
    RequestError(RequestError),
    SerdeError(String),
}

/// An error as plain values: its kind (0 a refused request, 1 a request
/// that did not complete, 2 a document that did not parse), the HTTP
/// status of a refused request, and the address or message.
pub open spec fn request_error_view(e: RequestError) -> (u8, u16, Seq<char>) {
    match e {
        RequestError::DownloadError { code, url } => (0u8, code, url@),
        RequestError::ReqwestError(m) => (1u8, 0u16, m@),
    }
}

pub open spec fn json_error_view(e: JsonDownloadError) -> (u8, u16, Seq<char>) {
    match e {
        JsonDownloadError::RequestError(r) => request_error_view(r),
        JsonDownloadError::SerdeError(m) => (2u8, 0u16, m@),
    }
}

/// Whether an error is the server's `404 Not Found`.
pub open spec fn is_not_found_view(e: (u8, u16, Seq<char>)) -> bool {
    e.0 == 0 && e.1 == 404
}

/// A failed download as the launcher words it.
pub open spec fn request_error_text(e: RequestError) -> Seq<char> {
    "could not send request: "@ + match e {
        RequestError::DownloadError { code, url } => "download error with code "@ + decimal(code as nat) + ", url "@ + url@,
        RequestError::ReqwestError(m) => "reqwest library error: "@ + m@,
    }
}

impl RequestError {
    /// The error as the launcher shows it.
    pub fn message(&self) -> (res: String)
        ensures
            res@ == request_error_text(*self),
    {
        let mut out = chars_of("could not send request: ");
        match self {
            RequestError::DownloadError { code, url } => {
                push_str_chars(&mut out, "download error with code ");
                push_decimal(&mut out, *code as u64);
                push_str_chars(&mut out, ", url ");
                push_str_chars(&mut out, url.as_str());
            },
            RequestError::ReqwestError(m) => {
                push_str_chars(&mut out, "reqwest library error: ");
                push_str_chars(&mut out, m.as_str());
            },
        }
        let res = string_of(out.as_slice());
        assert(res@ =~= request_error_text(*self));
        res
    }
}

/// Whether a failure is a `404 Not Found` answer.
pub trait Is404NotFound {
    fn is_not_found(&self) -> bool;
}

impl Is404NotFound for RequestError {
    fn is_not_found(&self) -> (b: bool)
        ensures
            b == is_not_found_view(request_error_view(*self)),
    {
        match self {
            RequestError::DownloadError { code, .. } => *code == 404,
            RequestError::ReqwestError(_) => false,
        }
    }
}

impl Is404NotFound for JsonDownloadError {
    fn is_not_found(&self) -> (b: bool)
        ensures
            b == is_not_found_view(json_error_view(*self)),
    {
        match self {
            JsonDownloadError::RequestError(r) => r.is_not_found(),
            JsonDownloadError::SerdeError(_) => false,
        }
    }
}

} // verus!
