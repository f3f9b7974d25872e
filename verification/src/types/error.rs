//! Errors raised while a dataframe is built.

use vstd::prelude::*;

verus! {

/// An error occurred while creating the dataframe.
#[derive(Clone, Copy, Debug, PartialEq, Eq, Structural)]
pub enum DataFrameError {
    /// Error while creating the dataframe.
    Creation,
}

impl DataFrameError {
    /// The message of the error.
    pub fn message(&self) -> (text: String)
        ensures
            text@ == "Error while creating the dataframe"@,
    {
        "Error while creating the dataframe".to_owned()
    }
}

} // verus!
