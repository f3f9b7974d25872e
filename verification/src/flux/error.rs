//! Errors raised while an annotated CSV response is read.

use vstd::prelude::*;
use vstd::std_specs::convert::FromSpecImpl;

use crate::types::DataFrameError;

verus! {

/// An error of the `csv` reader, carried as it is.
#[verifier::external_type_specification]
#[verifier::external_body]
pub struct ExCsvError(csv::Error);

/// The error with which the standard library rejects a number, carried as
/// it is.
#[verifier::external_type_specification]
#[verifier::external_body]
pub struct ExParseFloatError(core::num::ParseFloatError);

/// An error occurred while parsing format
#[derive(Debug)]
pub enum ResponseError {
    /// Error while parsing data types row
    DataTypes,
    /// Error while parsing grouping row
    Grouping,
    /// Error while parsing default row
    Default,
    /// Error while parsing columns row
    Columns,
    /// Error occurred while parsing CSV
    CsvError(csv::Error),
    /// Error occurred while parsing a floating point number
    ParseFloatError(core::num::ParseFloatError),
    /// Input is not a valid ISO8601 datetime
    DatetimeError(chrono::ParseError),
    /// Error while creating dataframe
    DataFrameError(DataFrameError),
}

/// What a `ResponseError` says.
pub enum ResponseErrorView {
    DataTypes,
    Grouping,
    Default,
    Columns,
    CsvError,
    ParseFloatError,
    DatetimeError,
    DataFrameError(DataFrameError),
}

impl View for ResponseError {
    type V = ResponseErrorView;

    open spec fn view(&self) -> ResponseErrorView {
        match *self {
            ResponseError::DataTypes => ResponseErrorView::DataTypes,
            ResponseError::Grouping => ResponseErrorView::Grouping,
            ResponseError::Default => ResponseErrorView::Default,
            ResponseError::Columns => ResponseErrorView::Columns,
            ResponseError::CsvError(_) => ResponseErrorView::CsvError,
            ResponseError::ParseFloatError(_) => ResponseErrorView::ParseFloatError,
            ResponseError::DatetimeError(_) => ResponseErrorView::DatetimeError,
            ResponseError::DataFrameError(error) => ResponseErrorView::DataFrameError(error),
        }
    }
}

impl ResponseError {
    /// The message of the error.
    pub fn message(&self) -> (text: String)
        ensures
            text@ == match self@ {
                ResponseErrorView::DataTypes => "Error while parsing data types row"@,
                ResponseErrorView::Grouping => "Error while parsing grouping row"@,
                ResponseErrorView::Default => "Error while parsing default row"@,
                ResponseErrorView::Columns => "Error while parsing columns row"@,
                ResponseErrorView::CsvError => "CSV parse error"@,
                ResponseErrorView::ParseFloatError => "Chrono parse error"@,
                ResponseErrorView::DatetimeError => "could not parse datetime"@,
                ResponseErrorView::DataFrameError(_) => "could not create dataframe"@,
            },
    {
        match self {
            ResponseError::DataTypes => "Error while parsing data types row".to_owned(),
            ResponseError::Grouping => "Error while parsing grouping row".to_owned(),
            ResponseError::Default => "Error while parsing default row".to_owned(),
            ResponseError::Columns => "Error while parsing columns row".to_owned(),
            ResponseError::CsvError(_) => "CSV parse error".to_owned(),
            ResponseError::ParseFloatError(_) => "Chrono parse error".to_owned(),
            ResponseError::DatetimeError(_) => "could not parse datetime".to_owned(),
            ResponseError::DataFrameError(_) => "could not create dataframe".to_owned(),
        }
    }
}

impl From<csv::Error> for ResponseError {
    fn from(error: csv::Error) -> (converted: ResponseError)
        ensures
            converted == ResponseError::CsvError(error),
    {
        ResponseError::CsvError(error)
    }
}

impl FromSpecImpl<csv::Error> for ResponseError {
    open spec fn obeys_from_spec() -> bool {
        true
    }

    open spec fn from_spec(error: csv::Error) -> ResponseError {
        ResponseError::CsvError(error)
    }
}

impl From<core::num::ParseFloatError> for ResponseError {
    fn from(error: core::num::ParseFloatError) -> (converted: ResponseError)
        ensures
            converted == ResponseError::ParseFloatError(error),
    {
        ResponseError::ParseFloatError(error)
    }
}

impl FromSpecImpl<core::num::ParseFloatError> for ResponseError {
    open spec fn obeys_from_spec() -> bool {
        true
    }

    open spec fn from_spec(error: core::num::ParseFloatError) -> ResponseError {
        ResponseError::ParseFloatError(error)
    }
}

impl From<chrono::ParseError> for ResponseError {
    fn from(error: chrono::ParseError) -> (converted: ResponseError)
        ensures
            converted == ResponseError::DatetimeError(error),
    {
        ResponseError::DatetimeError(error)
    }
}

impl FromSpecImpl<chrono::ParseError> for ResponseError {
    open spec fn obeys_from_spec() -> bool {
        true
    }

    open spec fn from_spec(error: chrono::ParseError) -> ResponseError {
        ResponseError::DatetimeError(error)
    }
}

impl From<DataFrameError> for ResponseError {
    fn from(error: DataFrameError) -> (converted: ResponseError)
        ensures
            converted == ResponseError::DataFrameError(error),
    {
        ResponseError::DataFrameError(error)
    }
}

impl FromSpecImpl<DataFrameError> for ResponseError {
    open spec fn obeys_from_spec() -> bool {
        true
    }

    open spec fn from_spec(error: DataFrameError) -> ResponseError {
        ResponseError::DataFrameError(error)
    }
}

} // verus!
