//! What a client makes of the server's refusal of a write.

use vstd::prelude::*;
use vstd::std_specs::convert::FromSpecImpl;

use vstd::string::*;

use super::line::{is_line_text, Line};
use crate::json::{member, parsed_json, Json};
use crate::text::{joined, starts_with};
use crate::types::Float64;

verus! {

/// An error occurred during interfacing with an InfluxDB server
#[derive(Debug)]
pub enum ClientError {
    /// Error occurred within the Reqwest library
    ReqwestError(reqwest::Error),
    /// Error occurred while parsing a URL
    UrlError(url::ParseError),
    /// Specified a field with conflicting type
    FieldTypeConflict,
    /// Database was not found
    DatabaseNotFound,
    /// Unknown error
    Unknown,
}

/// What a `ClientError` says.
pub enum ClientErrorView {
    ReqwestError,
    UrlError,
    FieldTypeConflict,
    DatabaseNotFound,
    Unknown,
}

impl View for ClientError {
    type V = ClientErrorView;

    open spec fn view(&self) -> ClientErrorView {
        match *self {
            ClientError::ReqwestError(_) => ClientErrorView::ReqwestError,
            ClientError::UrlError(_) => ClientErrorView::UrlError,
            ClientError::FieldTypeConflict => ClientErrorView::FieldTypeConflict,
            ClientError::DatabaseNotFound => ClientErrorView::DatabaseNotFound,
            ClientError::Unknown => ClientErrorView::Unknown,
        }
    }
}

impl ClientError {
    /// The message of the error.
    pub fn message(&self) -> (text: String)
        ensures
            text@ == match self@ {
                ClientErrorView::ReqwestError => "Reqwest error"@,
                ClientErrorView::UrlError => "URL parse error"@,
                ClientErrorView::FieldTypeConflict => "Field type conflict"@,
                ClientErrorView::DatabaseNotFound => "Database not found"@,
                ClientErrorView::Unknown => "Unknown error"@,
            },
    {
        match self {
            ClientError::ReqwestError(_) => "Reqwest error".to_owned(),
            ClientError::UrlError(_) => "URL parse error".to_owned(),
            ClientError::FieldTypeConflict => "Field type conflict".to_owned(),
            ClientError::DatabaseNotFound => "Database not found".to_owned(),
            ClientError::Unknown => "Unknown error".to_owned(),
        }
    }
}

impl From<reqwest::Error> for ClientError {
    fn from(error: reqwest::Error) -> (converted: ClientError)
        ensures
            converted == ClientError::ReqwestError(error),
    {
        ClientError::ReqwestError(error)
    }
}

impl FromSpecImpl<reqwest::Error> for ClientError {
    open spec fn obeys_from_spec() -> bool {
        true
    }

    open spec fn from_spec(error: reqwest::Error) -> ClientError {
        ClientError::ReqwestError(error)
    }
}

impl From<url::ParseError> for ClientError {
    fn from(error: url::ParseError) -> (converted: ClientError)
        ensures
            converted == ClientError::UrlError(error),
    {
        ClientError::UrlError(error)
    }
}

impl FromSpecImpl<url::ParseError> for ClientError {
    open spec fn obeys_from_spec() -> bool {
        true
    }

    open spec fn from_spec(error: url::ParseError) -> ClientError {
        ClientError::UrlError(error)
    }
}

/// The query of the address to which lines for `database` are written.
pub fn write_query(database: &str) -> (query: String)
    ensures
        query@ == "db="@ + database@,
{
    "db=".to_owned().concat(database)
}

/// Whether `texts` holds, for each line and in order, the line as it is
/// written.
pub open spec fn are_line_texts<F: Fn(Float64) -> String>(
    lines: Seq<Line>,
    texts: Seq<Seq<char>>,
    format_float: F,
) -> bool {
    &&& texts.len() == lines.len()
    &&& forall|i: int|
        0 <= i < lines.len() ==> is_line_text(lines[i]@, #[trigger] texts[i], format_float)
}

/// Whether `text` is the body of a request that writes `lines`: the lines
/// as they are written, joined by line feeds.
pub open spec fn is_payload<F: Fn(Float64) -> String>(
    lines: Seq<Line>,
    text: Seq<char>,
    format_float: F,
) -> bool {
    exists|texts: Seq<Seq<char>>| #[trigger]
        are_line_texts(lines, texts, format_float) && text == joined(texts, "\n"@)
}

/// The body of a request that writes `lines`.
pub fn payload<F: Fn(Float64) -> String>(lines: &Vec<Line>, format_float: &F) -> (text: String)
    requires
        forall|i: int| 0 <= i < lines@.len() ==> (#[trigger] lines@[i])@.is_writable(),
        forall|number: Float64| call_requires(*format_float, (number,)),
    ensures
        is_payload(lines@, text@, *format_float),
{
    let mut text = String::new();
    let ghost mut texts: Seq<Seq<char>> = Seq::empty();
    let mut i: usize = 0;
    proof {
        assert(text@ =~= joined(texts, "\n"@));
    }
    while i < lines.len()
        invariant
            i <= lines@.len(),
            forall|i: int| 0 <= i < lines@.len() ==> (#[trigger] lines@[i])@.is_writable(),
            forall|number: Float64| call_requires(*format_float, (number,)),
            texts.len() == i,
            forall|j: int|
                0 <= j < i ==> is_line_text(lines@[j]@, #[trigger] texts[j], *format_float),
            text@ == joined(texts, "\n"@),
        decreases lines@.len() - i,
    {
        let line = lines[i].to_line_protocol(format_float);
        if i > 0 {
            text.append("\n");
        }
        text.append(line.as_str());
        proof {
            let grown = texts.push(line@);
            assert(grown.drop_last() =~= texts);
            if i > 0 {
                assert(text@ =~= joined(texts, "\n"@) + "\n"@ + line@);
            } else {
                assert(joined(texts, "\n"@) =~= Seq::<char>::empty());
                assert(text@ =~= grown[0]);
            }
            texts = grown;
        }
        i += 1;
    }
    proof {
        assert(are_line_texts(lines@, texts, *format_float));
    }
    text
}

/// The message that the server sent: the JSON value is an object whose
/// member `error` is a string.
pub open spec fn error_message(json: Json) -> Option<Seq<char>> {
    match json {
        Json::Object(members) => match member(members@, "error"@) {
            Some(Json::String(message)) => Some(message@),
            _ => None,
        },
        _ => None,
    }
}

/// The error that a message of the server stands for, by the words that the
/// message begins with.
pub open spec fn error_of_message(message: Option<Seq<char>>) -> ClientErrorView {
    match message {
        Some(message) => if "field type conflict"@.is_prefix_of(message) {
            ClientErrorView::FieldTypeConflict
        } else if "database not found"@.is_prefix_of(message) {
            ClientErrorView::DatabaseNotFound
        } else {
            ClientErrorView::Unknown
        },
        None => ClientErrorView::Unknown,
    }
}

/// The error that the body of a refusal stands for.
pub open spec fn error_of_text(text: Seq<char>) -> ClientErrorView {
    match parsed_json(text) {
        Some(json) => error_of_message(error_message(json)),
        None => ClientErrorView::Unknown,
    }
}

/// The error that a JSON value sent by the server stands for.
pub fn classify_error(json: &Json) -> (error: ClientError)
    ensures
        error@ == error_of_message(error_message(*json)),
{
    match json {
        Json::Object(members) => match Json::find(members, "error") {
            Some(Json::String(message)) => {
                if starts_with(message.as_str(), "field type conflict") {
                    ClientError::FieldTypeConflict
                } else if starts_with(message.as_str(), "database not found") {
                    ClientError::DatabaseNotFound
                } else {
                    ClientError::Unknown
                }
            },
            _ => ClientError::Unknown,
        },
        _ => ClientError::Unknown,
    }
}

/// The error that the body of a refusal stands for. A body that is not the
/// JSON of an error message stands for the unknown error.
pub fn parse_error(text: &str) -> (error: ClientError)
    ensures
        error@ == error_of_text(text@),
{
    match Json::parse(text) {
        Ok(json) => classify_error(&json),
        Err(_) => ClientError::Unknown,
    }
}

} // verus!
