//! The errors that a query can end in.

use vstd::prelude::*;
use vstd::string::StringExecFns;

verus! {

/// An error of the service, with the message given to the client.
#[derive(Debug)]
pub enum AppError {
    /// The configuration is wrong.
    Config(String),
    /// The exchange or the store failed.
    Internal(String),
    /// Nothing is there under that name.
    NotFound(String),
    /// The request is not acceptable.
    BadRequest(String),
}

impl AppError {
    /// The HTTP status that the error is answered with: 400 for a bad request,
    /// 404 for what is not found, 500 for everything else.
    pub fn status_code(&self) -> (r: u16)
        ensures
            r == (match *self {
                AppError::BadRequest(_) => 400u16,
                AppError::NotFound(_) => 404u16,
                _ => 500u16,
            }),
    {
        match self {
            AppError::BadRequest(_) => 400,
            AppError::NotFound(_) => 404,
            _ => 500,
        }
    }

    /// The message that goes into the `error` field of the answer.
    pub fn detail(&self) -> (r: &str)
        ensures
            r@ == (match *self {
                AppError::Config(m) => m@,
                AppError::Internal(m) => m@,
                AppError::NotFound(m) => m@,
                AppError::BadRequest(m) => m@,
            }),
    {
        match self {
            AppError::Config(m) => m.as_str(),
            AppError::Internal(m) => m.as_str(),
            AppError::NotFound(m) => m.as_str(),
            AppError::BadRequest(m) => m.as_str(),
        }
    }

    /// The error in words, with its kind in front.
    pub fn message(&self) -> (r: String)
        ensures
            r@ == (match *self {
                AppError::Config(m) => "Configuration error: "@ + m@,
                AppError::Internal(m) => "Internal server error: "@ + m@,
                AppError::NotFound(m) => "Not found: "@ + m@,
                AppError::BadRequest(m) => "Bad request: "@ + m@,
            }),
    {
        let (kind, detail) = match self {
            AppError::Config(m) => ("Configuration error: ", m),
            AppError::Internal(m) => ("Internal server error: ", m),
            AppError::NotFound(m) => ("Not found: ", m),
            AppError::BadRequest(m) => ("Bad request: ", m),
        };
        let mut text = kind.to_owned();
        text.append(detail.as_str());
        text
    }

    /// A bad request with the message given.
    pub fn bad_request(message: &str) -> (r: AppError)
        ensures
            r matches AppError::BadRequest(m) && m@ == message@,
    {
        AppError::BadRequest(message.to_owned())
    }

    /// An internal error with the message given.
    pub fn internal(message: &str) -> (r: AppError)
        ensures
            r matches AppError::Internal(m) && m@ == message@,
    {
        AppError::Internal(message.to_owned())
    }
}

} // verus!
