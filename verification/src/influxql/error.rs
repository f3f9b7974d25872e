//! Errors raised while a JSON response is read.

use vstd::prelude::*;
use vstd::std_specs::convert::FromSpecImpl;

use crate::types::DataFrameError;

verus! {

/// An error occurred during parsing InfluxDB JSON response
#[derive(Debug)]
pub enum ResponseError {
    /// Input is not valid JSON, or not the JSON of a response
    JsonError(serde_json::Error),
    /// The entire request failed
    ResponseError(String),
    /// The request succeeded, but one of the statement failed
    StatementError(String),
    /// A generic error occurred
    ValueError(String),
    /// Input is not a valid ISO8601 datetime
    DatetimeError(chrono::ParseError),
    /// Error while creating dataframe
    DataFrameError(DataFrameError),
}

/// What a `ResponseError` says: its kind, and the message where it has one.
pub enum ResponseErrorView {
    JsonError,
    ResponseError(Seq<char>),
    StatementError(Seq<char>),
    ValueError(Seq<char>),
    DatetimeError,
    DataFrameError(DataFrameError),
}

impl View for ResponseError {
    type V = ResponseErrorView;

    open spec fn view(&self) -> ResponseErrorView {
        match *self {
            ResponseError::JsonError(_) => ResponseErrorView::JsonError,
            ResponseError::ResponseError(message) => ResponseErrorView::ResponseError(message@),
            ResponseError::StatementError(message) => ResponseErrorView::StatementError(message@),
            ResponseError::ValueError(message) => ResponseErrorView::ValueError(message@),
            ResponseError::DatetimeError(_) => ResponseErrorView::DatetimeError,
            ResponseError::DataFrameError(error) => ResponseErrorView::DataFrameError(error),
        }
    }
}

impl DeepView for ResponseError {
    type V = ResponseErrorView;

    open spec fn deep_view(&self) -> ResponseErrorView {
        self@
    }
}

impl ResponseError {
    /// The message of the error.
    pub fn message(&self) -> (text: String)
        ensures
            text@ == match self@ {
                ResponseErrorView::JsonError => "invalid JSON"@,
                ResponseErrorView::ResponseError(message) => "response error "@ + message,
                ResponseErrorView::StatementError(message) => "statement error "@ + message,
                ResponseErrorView::ValueError(message) => "value error "@ + message,
                ResponseErrorView::DatetimeError => "could not parse datetime"@,
                ResponseErrorView::DataFrameError(_) => "could not create dataframe"@,
            },
    {
        match self {
            ResponseError::JsonError(_) => "invalid JSON".to_owned(),
            ResponseError::ResponseError(message) => "response error ".to_owned().concat(
                message.as_str(),
            ),
            ResponseError::StatementError(message) => "statement error ".to_owned().concat(
                message.as_str(),
            ),
            ResponseError::ValueError(message) => "value error ".to_owned().concat(message.as_str()),
            ResponseError::DatetimeError(_) => "could not parse datetime".to_owned(),
            ResponseError::DataFrameError(_) => "could not create dataframe".to_owned(),
        }
    }
}

impl From<serde_json::Error> for ResponseError {
    fn from(error: serde_json::Error) -> (converted: ResponseError)
        ensures
            converted == ResponseError::JsonError(error),
    {
        ResponseError::JsonError(error)
    }
}

impl FromSpecImpl<serde_json::Error> for ResponseError {
    open spec fn obeys_from_spec() -> bool {
        true
    }

    open spec fn from_spec(error: serde_json::Error) -> ResponseError {
        ResponseError::JsonError(error)
    }
}

impl From<chrono::ParseError> for ResponseError {
    fn from(error: chrono::ParseError) -> (converted: ResponseError)
        ensures
            converted == ResponseError::DatetimeError(error),
    {
        ResponseError::DatetimeError(error)
    }
}

impl FromSpecImpl<chrono::ParseError> for ResponseError {
    open spec fn obeys_from_spec() -> bool {
        true
    }

    open spec fn from_spec(error: chrono::ParseError) -> ResponseError {
        ResponseError::DatetimeError(error)
    }
}

impl From<DataFrameError> for ResponseError {
    fn from(error: DataFrameError) -> (converted: ResponseError)
        ensures
            converted == ResponseError::DataFrameError(error),
    {
        ResponseError::DataFrameError(error)
    }
}

impl FromSpecImpl<DataFrameError> for ResponseError {
    open spec fn obeys_from_spec() -> bool {
        true
    }

    open spec fn from_spec(error: DataFrameError) -> ResponseError {
        ResponseError::DataFrameError(error)
    }
}

} // verus!
