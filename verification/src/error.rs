//! How a request is refused.

use vstd::prelude::*;

verus! {

/// Why a request was refused, with the message for the caller.
#[derive(Debug)]
pub enum AppError {
    Unauthorized(String),
    BadRequest(String),
    PayloadTooLarge(String),
    Internal(String),
}

/// An [`AppError`] with its message as a sequence of characters.
pub enum Refusal {
    Unauthorized(Seq<char>),
    BadRequest(Seq<char>),
    PayloadTooLarge(Seq<char>),
    Internal(Seq<char>),
}

impl Refusal {
    /// The HTTP status code of the refusal.
    pub open spec fn status(self) -> u16 {
        match self {
            Refusal::Unauthorized(_) => 401,
            Refusal::BadRequest(_) => 400,
            Refusal::PayloadTooLarge(_) => 413,
            Refusal::Internal(_) => 500,
        }
    }

    /// The message for the caller.
    pub open spec fn message(self) -> Seq<char> {
        match self {
            Refusal::Unauthorized(m) => m,
            Refusal::BadRequest(m) => m,
            Refusal::PayloadTooLarge(m) => m,
            Refusal::Internal(m) => m,
        }
    }
}

impl View for AppError {
    type V = Refusal;

    open spec fn view(&self) -> Refusal {
        match self {
            AppError::Unauthorized(m) => Refusal::Unauthorized(m@),
            AppError::BadRequest(m) => Refusal::BadRequest(m@),
            AppError::PayloadTooLarge(m) => Refusal::PayloadTooLarge(m@),
            AppError::Internal(m) => Refusal::Internal(m@),
        }
    }
}

impl AppError {
    pub fn unauthorized(message: &str) -> (r: AppError)
        ensures
            r@ == Refusal::Unauthorized(message@),
    {
        AppError::Unauthorized(message.to_owned())
    }

    pub fn bad_request(message: &str) -> (r: AppError)
        ensures
            r@ == Refusal::BadRequest(message@),
    {
        AppError::BadRequest(message.to_owned())
    }

    pub fn payload_too_large(message: &str) -> (r: AppError)
        ensures
            r@ == Refusal::PayloadTooLarge(message@),
    {
        AppError::PayloadTooLarge(message.to_owned())
    }

    pub fn internal(message: &str) -> (r: AppError)
        ensures
            r@ == Refusal::Internal(message@),
    {
        AppError::Internal(message.to_owned())
    }

    /// The HTTP status code to answer with.
    pub fn status(&self) -> (r: u16)
        ensures
            r == self@.status(),
    {
        match self {
            AppError::Unauthorized(_) => 401,
            AppError::BadRequest(_) => 400,
            AppError::PayloadTooLarge(_) => 413,
            AppError::Internal(_) => 500,
        }
    }

    /// The message to answer with.
    pub fn message(&self) -> (r: &str)
        ensures
            r@ == self@.message(),
    {
        match self {
            AppError::Unauthorized(m) => m.as_str(),
            AppError::BadRequest(m) => m.as_str(),
            AppError::PayloadTooLarge(m) => m.as_str(),
            AppError::Internal(m) => m.as_str(),
        }
    }
}

/// Every refusal is answered with the status code of its kind and its own message.
pub proof fn law_refusal(message: Seq<char>)
    ensures
        Refusal::Unauthorized(message).status() == 401,
        Refusal::BadRequest(message).status() == 400,
        Refusal::PayloadTooLarge(message).status() == 413,
        Refusal::Internal(message).status() == 500,
        Refusal::Unauthorized(message).message() == message,
        Refusal::BadRequest(message).message() == message,
        Refusal::PayloadTooLarge(message).message() == message,
        Refusal::Internal(message).message() == message,
{
}

/// An error is viewed as its kind and what its message holds.
pub proof fn law_error_view(message: String)
    ensures
        AppError::Unauthorized(message)@ == Refusal::Unauthorized(message@),
        AppError::BadRequest(message)@ == Refusal::BadRequest(message@),
        AppError::PayloadTooLarge(message)@ == Refusal::PayloadTooLarge(message@),
        AppError::Internal(message)@ == Refusal::Internal(message@),
{
}

}
