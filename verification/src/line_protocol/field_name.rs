//! Names of fields.

use vstd::prelude::*;
use vstd::std_specs::convert::FromSpecImpl;

use super::escape::{escape_name, escaped_name};

verus! {

/// Represent a field name
#[derive(Debug, PartialEq, Eq, Hash)]
pub struct FieldName(String);

impl View for FieldName {
    type V = Seq<char>;

    /// The text of the field name.
    closed spec fn view(&self) -> Seq<char> {
        self.0@
    }
}

impl FieldName {
    /// Escape a field name to the line protocol: the characters ` `, `,` and `=`
    /// each get a backslash in front.
    pub fn escape_to_line_protocol(&self) -> (escaped: String)
        ensures
            escaped@ == escaped_name(self@),
    {
        escape_name(self.0.as_str())
    }

    /// The text as a string slice.
    pub fn as_str(&self) -> (text: &str)
        ensures
            text@ == self@,
    {
        self.0.as_str()
    }

    /// The text as a string.
    pub fn into_string(self) -> (text: String)
        ensures
            text@ == self@,
    {
        self.0
    }
}

impl Clone for FieldName {
    fn clone(&self) -> (copy: Self)
        ensures
            copy@ == self@,
    {
        FieldName(self.0.clone())
    }
}

impl From<&str> for FieldName {
    fn from(s: &str) -> (created: Self)
        ensures
            created@ == s@,
    {
        FieldName(s.to_owned())
    }
}

impl FromSpecImpl<&str> for FieldName {
    open spec fn obeys_from_spec() -> bool {
        false
    }

    open spec fn from_spec(s: &str) -> Self {
        arbitrary()
    }
}

impl From<String> for FieldName {
    fn from(s: String) -> (created: Self)
        ensures
            created@ == s@,
    {
        FieldName(s)
    }
}

impl FromSpecImpl<String> for FieldName {
    open spec fn obeys_from_spec() -> bool {
        false
    }

    open spec fn from_spec(s: String) -> Self {
        arbitrary()
    }
}

} // verus!

