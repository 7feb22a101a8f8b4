//! The envelope in which every answer travels: a code, a message and,
//! sometimes, data. A known error keeps the transport status of a success
//! and says in its code that it is one; an unknown error changes both.

use vstd::prelude::*;

verus! {

/// Code of a success.
pub const SUCCESS_CODE: u32 = 200;

/// Code of an error that the service knows how to name.
pub const CUSTOM_ERROR_CODE: u32 = 233;

/// Code of an error that it does not.
pub const SYSTEM_ERROR_CODE: u32 = 500;

/// Transport status of a success, and of a known error.
pub const STATUS_OK: u16 = 200;

/// Transport status of a request without a good token.
pub const STATUS_UNAUTHORIZED: u16 = 401;

/// Transport status of an answer for a file that could not be read.
pub const STATUS_NOT_FOUND: u16 = 404;

/// Transport status of an unknown error.
pub const STATUS_INTERNAL_SERVER_ERROR: u16 = 500;

/// An answer: what happened, in a code and in words, and what comes with it.
#[derive(Debug)]
pub struct ApiResponse<T> {
    pub code: u32,
    pub message: String,
    pub data: Option<T>,
}

impl<T> ApiResponse<T> {
    /// The transport status that goes with the code.
    pub open spec fn status(self) -> u16 {
        if self.code == SYSTEM_ERROR_CODE {
            STATUS_INTERNAL_SERVER_ERROR
        } else {
            STATUS_OK
        }
    }

    /// The transport status that goes with the code.
    pub fn status_code(&self) -> (status: u16)
        ensures
            status == self.status(),
    {
        if self.code == SYSTEM_ERROR_CODE {
            STATUS_INTERNAL_SERVER_ERROR
        } else {
            STATUS_OK
        }
    }
}

/// The answer to a request that went well.
pub fn success_response<T>(data: Option<T>, message: &str) -> (answer: ApiResponse<T>)
    ensures
        answer.code == SUCCESS_CODE,
        answer.message@ == message@,
        answer.data == data,
        answer.status() == STATUS_OK,
{
    ApiResponse { code: SUCCESS_CODE, message: message.to_owned(), data }
}

/// The answer to a request that failed in a way the service can name.
pub fn custom_error_response<T>(message: &str, data: Option<T>) -> (answer: ApiResponse<T>)
    ensures
        answer.code == CUSTOM_ERROR_CODE,
        answer.message@ == message@,
        answer.data == data,
        answer.status() == STATUS_OK,
{
    ApiResponse { code: CUSTOM_ERROR_CODE, message: message.to_owned(), data }
}

/// The answer to a request that failed in a way it cannot.
pub fn error_response<T>(message: &str, data: Option<T>) -> (answer: ApiResponse<T>)
    ensures
        answer.code == SYSTEM_ERROR_CODE,
        answer.message@ == message@,
        answer.data == data,
        answer.status() == STATUS_INTERNAL_SERVER_ERROR,
{
    ApiResponse { code: SYSTEM_ERROR_CODE, message: message.to_owned(), data }
}

/// The two kinds of error.
#[derive(Clone, Copy, Debug, PartialEq, Eq, Structural)]
pub enum ResponseErrorType {
    CustomError,
    SystemError,
}

/// An error on its way to becoming an answer.
#[derive(Debug)]
pub struct ResponseErrorWrapper {
    pub message: String,
    pub error_type: ResponseErrorType,
}

impl ResponseErrorWrapper {
    /// The code that the kind of error travels under.
    pub open spec fn code(self) -> u32 {
        match self.error_type {
            ResponseErrorType::CustomError => CUSTOM_ERROR_CODE,
            ResponseErrorType::SystemError => SYSTEM_ERROR_CODE,
        }
    }

    /// The answer that the error becomes: its message under the code of its
    /// kind, with no data.
    pub fn error_response(&self) -> (answer: ApiResponse<()>)
        ensures
            answer.code == self.code(),
            answer.message@ == self.message@,
            answer.data is None,
            answer.status() == self.status(),
    {
        match self.error_type {
            ResponseErrorType::CustomError => custom_error_response::<()>(
                self.message.as_str(),
                None,
            ),
            ResponseErrorType::SystemError => error_response::<()>(self.message.as_str(), None),
        }
    }

    /// The transport status of the error.
    pub open spec fn status(self) -> u16 {
        match self.error_type {
            ResponseErrorType::CustomError => STATUS_OK,
            ResponseErrorType::SystemError => STATUS_INTERNAL_SERVER_ERROR,
        }
    }

    /// The transport status of the error.
    pub fn status_code(&self) -> (status: u16)
        ensures
            status == self.status(),
    {
        match self.error_type {
            ResponseErrorType::CustomError => STATUS_OK,
            ResponseErrorType::SystemError => STATUS_INTERNAL_SERVER_ERROR,
        }
    }

    /// The error in words: its message.
    pub fn to_text(&self) -> (text: String)
        ensures
            text@ == self.message@,
    {
        self.message.clone()
    }
}

/// An error that the service can name.
pub fn custom_error(message: &str) -> (error: ResponseErrorWrapper)
    ensures
        error.message@ == message@,
        error.error_type == ResponseErrorType::CustomError,
{
    ResponseErrorWrapper { message: message.to_owned(), error_type: ResponseErrorType::CustomError }
}

/// An error that it cannot.
pub fn system_error(message: &str) -> (error: ResponseErrorWrapper)
    ensures
        error.message@ == message@,
        error.error_type == ResponseErrorType::SystemError,
{
    ResponseErrorWrapper { message: message.to_owned(), error_type: ResponseErrorType::SystemError }
}

/// The three answers under one name.
#[derive(Clone, Copy, Debug)]
pub struct ResponseHandler;

impl ResponseHandler {
    pub fn success<T>(data: Option<T>, message: &str) -> (answer: ApiResponse<T>)
        ensures
            answer.code == SUCCESS_CODE,
            answer.message@ == message@,
            answer.data == data,
    {
        success_response(data, message)
    }

    pub fn custom_error<T>(message: &str, data: Option<T>) -> (answer: ApiResponse<T>)
        ensures
            answer.code == CUSTOM_ERROR_CODE,
            answer.message@ == message@,
            answer.data == data,
    {
        custom_error_response(message, data)
    }

    pub fn error<T>(message: &str, data: Option<T>) -> (answer: ApiResponse<T>)
        ensures
            answer.code == SYSTEM_ERROR_CODE,
            answer.message@ == message@,
            answer.data == data,
    {
        error_response(message, data)
    }
}

} // verus!
