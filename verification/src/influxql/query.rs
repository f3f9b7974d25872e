//! InfluxQL query texts.

use vstd::prelude::*;

verus! {

/// An InfluxQL query
///
/// A query such as
///
/// * `SELECT temperature, humidity FROM house..indoor_environment`
/// * `SELECT temperature, humidity FROM house..indoor_environment WHERE time > now() - 1`
/// * `SELECT temperature, humidity FROM house..indoor_environment GROUP BY room`
#[derive(Debug, PartialEq)]
pub struct Query(String);

impl View for Query {
    type V = Seq<char>;

    /// The text of the query.
    closed spec fn view(&self) -> Seq<char> {
        self.0@
    }
}

impl Query {
    /// Create a query from a string-like object. The text of the query is
    /// what the conversion of `query` into a `String` gives.
    pub fn new<T>(query: T) -> (created: Self) where T: Into<String>
        ensures
            exists|text: String|
                text@ == created@ && #[trigger] call_ensures(
                    <T as Into<String>>::into,
                    (query,),
                    text,
                ),
    {
        let text: String = query.into();
        assert(call_ensures(<T as Into<String>>::into, (query,), text));
        Query(text)
    }

    /// The query with the given text.
    pub fn from_text(text: String) -> (created: Self)
        ensures
            created@ == text@,
    {
        Query(text)
    }
}

impl AsRef<str> for Query {
    fn as_ref(&self) -> (text: &str)
        ensures
            text@ == self@,
    {
        self.0.as_str()
    }
}

} // verus!
