//! Errors of a client that sends Flux queries.

use vstd::prelude::*;
use vstd::std_specs::convert::FromSpecImpl;

use super::error::{ResponseError, ResponseErrorView};

verus! {

/// An error occurred during interfacing with an InfluxDB server
#[derive(Debug)]
pub enum ClientError {
    /// Error occurred within the Reqwest library
    ReqwestError(reqwest::Error),
    /// Error occurred while parsing a URL
    UrlError(url::ParseError),
    /// Error occurred while parsing a datetime
    ParseDatetimeError(chrono::ParseError),
    /// Error occurred while parsing format
    ResponseError(ResponseError),
}

/// What a `ClientError` says.
pub enum ClientErrorView {
    ReqwestError,
    UrlError,
    ParseDatetimeError,
    ResponseError(ResponseErrorView),
}

impl View for ClientError {
    type V = ClientErrorView;

    open spec fn view(&self) -> ClientErrorView {
        match *self {
            ClientError::ReqwestError(_) => ClientErrorView::ReqwestError,
            ClientError::UrlError(_) => ClientErrorView::UrlError,
            ClientError::ParseDatetimeError(_) => ClientErrorView::ParseDatetimeError,
            ClientError::ResponseError(error) => ClientErrorView::ResponseError(error@),
        }
    }
}

impl ClientError {
    /// The message of the error.
    pub fn message(&self) -> (text: String)
        ensures
            text@ == match self@ {
                ClientErrorView::ReqwestError => "Reqwest error"@,
                ClientErrorView::UrlError => "URL parse error"@,
                ClientErrorView::ParseDatetimeError => "Chrono parse error"@,
                ClientErrorView::ResponseError(_) => "Format parse error"@,
            },
    {
        match self {
            ClientError::ReqwestError(_) => "Reqwest error".to_owned(),
            ClientError::UrlError(_) => "URL parse error".to_owned(),
            ClientError::ParseDatetimeError(_) => "Chrono parse error".to_owned(),
            ClientError::ResponseError(_) => "Format parse error".to_owned(),
        }
    }
}

impl From<reqwest::Error> for ClientError {
    fn from(error: reqwest::Error) -> (converted: ClientError)
        ensures
            converted == ClientError::ReqwestError(error),
    {
        ClientError::ReqwestError(error)
    }
}

impl FromSpecImpl<reqwest::Error> for ClientError {
    open spec fn obeys_from_spec() -> bool {
        true
    }

    open spec fn from_spec(error: reqwest::Error) -> ClientError {
        ClientError::ReqwestError(error)
    }
}

impl From<url::ParseError> for ClientError {
    fn from(error: url::ParseError) -> (converted: ClientError)
        ensures
            converted == ClientError::UrlError(error),
    {
        ClientError::UrlError(error)
    }
}

impl FromSpecImpl<url::ParseError> for ClientError {
    open spec fn obeys_from_spec() -> bool {
        true
    }

    open spec fn from_spec(error: url::ParseError) -> ClientError {
        ClientError::UrlError(error)
    }
}

impl From<chrono::ParseError> for ClientError {
    fn from(error: chrono::ParseError) -> (converted: ClientError)
        ensures
            converted == ClientError::ParseDatetimeError(error),
    {
        ClientError::ParseDatetimeError(error)
    }
}

impl FromSpecImpl<chrono::ParseError> for ClientError {
    open spec fn obeys_from_spec() -> bool {
        true
    }

    open spec fn from_spec(error: chrono::ParseError) -> ClientError {
        ClientError::ParseDatetimeError(error)
    }
}

impl From<ResponseError> for ClientError {
    fn from(error: ResponseError) -> (converted: ClientError)
        ensures
            converted == ClientError::ResponseError(error),
    {
        ClientError::ResponseError(error)
    }
}

impl FromSpecImpl<ResponseError> for ClientError {
    open spec fn obeys_from_spec() -> bool {
        true
    }

    open spec fn from_spec(error: ResponseError) -> ClientError {
        ClientError::ResponseError(error)
    }
}

} // verus!
