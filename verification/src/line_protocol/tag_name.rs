//! Names of tags.

use vstd::prelude::*;
use vstd::std_specs::convert::FromSpecImpl;

use super::escape::{escape_name, escaped_name};

verus! {

/// Represent a tag name
#[derive(Debug, PartialEq, Eq, Hash)]
pub struct TagName(String);

impl View for TagName {
    type V = Seq<char>;

    /// The text of the tag name.
    closed spec fn view(&self) -> Seq<char> {
        self.0@
    }
}

impl TagName {
    /// Escape a tag name to the line protocol: the characters ` `, `,` and `=`
    /// each get a backslash in front.
    pub fn escape_to_line_protocol(&self) -> (escaped: String)
        ensures
            escaped@ == escaped_name(self@),
    {
        escape_name(self.0.as_str())
    }

    /// The text as a string slice.
    pub fn as_str(&self) -> (text: &str)
        ensures
            text@ == self@,
    {
        self.0.as_str()
    }

    /// The text as a string.
    pub fn into_string(self) -> (text: String)
        ensures
            text@ == self@,
    {
        self.0
    }
}

impl Clone for TagName {
    fn clone(&self) -> (copy: Self)
        ensures
            copy@ == self@,
    {
        TagName(self.0.clone())
    }
}

impl From<&str> for TagName {
    fn from(s: &str) -> (created: Self)
        ensures
            created@ == s@,
    {
        TagName(s.to_owned())
    }
}

impl FromSpecImpl<&str> for TagName {
    open spec fn obeys_from_spec() -> bool {
        false
    }

    open spec fn from_spec(s: &str) -> Self {
        arbitrary()
    }
}

impl From<String> for TagName {
    fn from(s: String) -> (created: Self)
        ensures
            created@ == s@,
    {
        TagName(s)
    }
}

impl FromSpecImpl<String> for TagName {
    open spec fn obeys_from_spec() -> bool {
        false
    }

    open spec fn from_spec(s: String) -> Self {
        arbitrary()
    }
}

} // verus!
