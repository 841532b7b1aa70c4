//! Structured failures returned by flow operations.

use vstd::prelude::*;

verus! {

/// Machine-readable class of a [`CatgaError`].
#[derive(Clone, Copy, Debug, PartialEq, Eq, Structural)]
pub enum ErrorCode {
    /// The input or the stored record breaks a rule.
    Validation,
    /// The referenced record or registration does not exist.
    NotFound,
    /// Another writer changed the record first.
    Conflict,
    /// The caller is not authenticated.
    Unauthorized,
    /// The caller lacks a permission.
    Forbidden,
    /// The operation was cancelled.
    Cancelled,
    /// The operation exceeded its deadline.
    Timeout,
    /// The provider does not offer the operation.
    Unsupported,
    /// The operation may succeed when it is repeated.
    Transient,
    /// A dependency cannot be reached.
    Unavailable,
    /// The library met a state that it cannot explain.
    Internal,
}

impl ErrorCode {
    /// Whether repeating the operation may succeed; the retry loops repeat exactly these.
    pub open spec fn spec_is_retryable(self) -> bool {
        self == ErrorCode::Transient
    }

    /// Whether repeating the operation may succeed.
    #[verifier::when_used_as_spec(spec_is_retryable)]
    pub fn is_retryable(self) -> (result: bool)
        ensures
            result == self.spec_is_retryable(),
    {
        self == ErrorCode::Transient
    }
}

/// Mathematical model of a [`CatgaError`].
pub struct ErrorView {
    pub code: ErrorCode,
    pub message: Seq<char>,
    pub details: Option<Seq<char>>,
}

pub open spec fn text_option(value: Option<String>) -> Option<Seq<char>> {
    match value {
        Some(text) => Some(text@),
        None => None,
    }
}

/// A failure with a machine-readable code and a human-readable message.
#[derive(Debug)]
pub struct CatgaError {
    code: ErrorCode,
    message: String,
    details: Option<String>,
}

/// Result of a fallible flow operation.
pub type CatgaResult<T> = Result<T, CatgaError>;

impl View for CatgaError {
    type V = ErrorView;

    closed spec fn view(&self) -> ErrorView {
        ErrorView {
            code: self.code,
            message: self.message@,
            details: text_option(self.details),
        }
    }
}

impl Clone for CatgaError {
    fn clone(&self) -> (result: Self)
        ensures
            result@ == self@,
    {
        CatgaError {
            code: self.code,
            message: self.message.clone(),
            details: clone_text_option(&self.details),
        }
    }
}

/// Clones optional text.
pub fn clone_text_option(value: &Option<String>) -> (result: Option<String>)
    ensures
        text_option(result) == text_option(*value),
{
    match value {
        Some(text) => Some(text.clone()),
        None => None,
    }
}

/// The failure with `code` and `message` and no details.
pub open spec fn plain_error(code: ErrorCode, message: Seq<char>) -> ErrorView {
    ErrorView { code, message, details: None }
}

/// The rejection of an invalid input or record.
pub open spec fn validation(message: Seq<char>) -> ErrorView {
    plain_error(ErrorCode::Validation, message)
}

/// The model of a result without a value.
pub open spec fn unit_result(result: CatgaResult<()>) -> Result<(), ErrorView> {
    match result {
        Ok(_) => Ok(()),
        Err(failure) => Err(failure@),
    }
}

/// The model of the result of a conditional write.
pub open spec fn flag_result(result: CatgaResult<bool>) -> Result<bool, ErrorView> {
    match result {
        Ok(flag) => Ok(flag),
        Err(failure) => Err(failure@),
    }
}

impl CatgaError {
    /// Creates a failure without details.
    pub fn new(code: ErrorCode, message: &str) -> (result: Self)
        ensures
            result@ == plain_error(code, message@),
    {
        CatgaError { code, message: message.to_owned(), details: None }
    }

    /// Attaches details.
    pub fn with_details(self, details: String) -> (result: Self)
        ensures
            result@ == (ErrorView { details: Some(details@), ..self@ }),
    {
        CatgaError { code: self.code, message: self.message, details: Some(details) }
    }

    /// Returns the machine-readable code.
    pub fn code(&self) -> (result: ErrorCode)
        ensures
            result == self@.code,
    {
        self.code
    }

    /// Returns the human-readable message.
    pub fn message(&self) -> (result: &str)
        ensures
            result@ == self@.message,
    {
        self.message.as_str()
    }

    /// Returns the details, if any were attached.
    pub fn details(&self) -> (result: Option<&str>)
        ensures
            match (result, self@.details) {
                (Some(text), Some(details)) => text@ == details,
                (None, None) => true,
                _ => false,
            },
    {
        match &self.details {
            Some(text) => Some(text.as_str()),
            None => None,
        }
    }

    /// Whether repeating the operation may succeed.
    pub fn is_retryable(&self) -> (result: bool)
        ensures
            result == self@.code.spec_is_retryable(),
    {
        self.code.is_retryable()
    }
}

} // verus!
