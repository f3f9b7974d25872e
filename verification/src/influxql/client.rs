//! What a client makes of the results of a query, once the server has
//! answered: one dataframe, or the dataframes keyed by the value of a tag.

use vstd::prelude::*;
use vstd::std_specs::convert::FromSpecImpl;

use super::error::{ResponseError, ResponseErrorView};
use super::query::Query;
use super::series::distinct_names;
use super::types::{StatementResult, TaggedDataframe};
use crate::types::results::{collected, lemma_collected_error, lemma_collected_ok};
use crate::types::NameMap;

verus! {

/// An error of `reqwest`, carried as it is.
#[verifier::external_type_specification]
#[verifier::external_body]
pub struct ExReqwestError(reqwest::Error);

/// The error with which `url` rejects an address, carried as it is.
#[verifier::external_type_specification]
#[verifier::external_body]
pub struct ExUrlParseError(url::ParseError);

/// An error occurred during interfacing with an InfluxDB server
#[derive(Debug)]
pub enum ClientError {
    /// Error occurred within the Reqwest library
    ReqwestError(reqwest::Error),
    /// Error occurred while parsing a URL
    UrlError(url::ParseError),
    /// Error occurred while parsing format
    FormatError(ResponseError),
    /// The server returned an empty statement
    EmptyError,
    /// The server returned an result without tags when tags were expected
    ExpectedTagsError,
    /// An expected tag was missing
    ExpectedTagError(String),
}

/// What a `ClientError` says.
pub enum ClientErrorView {
    ReqwestError,
    UrlError,
    FormatError(ResponseErrorView),
    EmptyError,
    ExpectedTagsError,
    ExpectedTagError(Seq<char>),
}

impl View for ClientError {
    type V = ClientErrorView;

    open spec fn view(&self) -> ClientErrorView {
        match *self {
            ClientError::ReqwestError(_) => ClientErrorView::ReqwestError,
            ClientError::UrlError(_) => ClientErrorView::UrlError,
            ClientError::FormatError(error) => ClientErrorView::FormatError(error@),
            ClientError::EmptyError => ClientErrorView::EmptyError,
            ClientError::ExpectedTagsError => ClientErrorView::ExpectedTagsError,
            ClientError::ExpectedTagError(tag) => ClientErrorView::ExpectedTagError(tag@),
        }
    }
}

impl ClientError {
    /// The message of the error.
    pub fn message(&self) -> (text: String)
        ensures
            text@ == match self@ {
                ClientErrorView::ReqwestError => "Reqwest error"@,
                ClientErrorView::UrlError => "URL parse error"@,
                ClientErrorView::FormatError(_) => "Format parse error"@,
                ClientErrorView::EmptyError => "Empty statement"@,
                ClientErrorView::ExpectedTagsError => "Missing tags"@,
                ClientErrorView::ExpectedTagError(tag) => "Missing tag \""@ + tag + "\""@,
            },
    {
        match self {
            ClientError::ReqwestError(_) => "Reqwest error".to_owned(),
            ClientError::UrlError(_) => "URL parse error".to_owned(),
            ClientError::FormatError(_) => "Format parse error".to_owned(),
            ClientError::EmptyError => "Empty statement".to_owned(),
            ClientError::ExpectedTagsError => "Missing tags".to_owned(),
            ClientError::ExpectedTagError(tag) => "Missing tag \"".to_owned().concat(
                tag.as_str(),
            ).concat("\""),
        }
    }
}

impl From<ResponseError> for ClientError {
    fn from(error: ResponseError) -> (converted: ClientError)
        ensures
            converted == ClientError::FormatError(error),
    {
        ClientError::FormatError(error)
    }
}

impl FromSpecImpl<ResponseError> for ClientError {
    open spec fn obeys_from_spec() -> bool {
        true
    }

    open spec fn from_spec(error: ResponseError) -> ClientError {
        ClientError::FormatError(error)
    }
}

impl From<reqwest::Error> for ClientError {
    fn from(error: reqwest::Error) -> (converted: ClientError)
        ensures
            converted == ClientError::ReqwestError(error),
    {
        ClientError::ReqwestError(error)
    }
}

impl FromSpecImpl<reqwest::Error> for ClientError {
    open spec fn obeys_from_spec() -> bool {
        true
    }

    open spec fn from_spec(error: reqwest::Error) -> ClientError {
        ClientError::ReqwestError(error)
    }
}

impl From<url::ParseError> for ClientError {
    fn from(error: url::ParseError) -> (converted: ClientError)
        ensures
            converted == ClientError::UrlError(error),
    {
        ClientError::UrlError(error)
    }
}

impl FromSpecImpl<url::ParseError> for ClientError {
    open spec fn obeys_from_spec() -> bool {
        true
    }

    open spec fn from_spec(error: url::ParseError) -> ClientError {
        ClientError::UrlError(error)
    }
}

/// The parameters of a request: the query under `q`, where there is one,
/// and then the database under `db`, where there is one.
pub open spec fn parameters_of(query: Option<Seq<char>>, database: Option<Seq<char>>) -> Seq<
    (Seq<char>, Seq<char>),
> {
    let first = match query {
        Some(text) => seq![("q"@, text)],
        None => Seq::empty(),
    };
    match database {
        Some(name) => first.push(("db"@, name)),
        None => first,
    }
}

/// The parameters that a request to the server carries in its form.
pub fn request_parameters(query: Option<&Query>, database: Option<&str>) -> (parameters: Vec<
    (String, String),
>)
    ensures
        parameters.deep_view() == parameters_of(
            match query {
                Some(query) => Some(query@),
                None => None,
            },
            match database {
                Some(name) => Some(name@),
                None => None,
            },
        ),
{
    let mut parameters: Vec<(String, String)> = Vec::new();
    match query {
        Some(query) => {
            parameters.push(("q".to_owned(), query.as_ref().to_owned()));
        },
        None => {},
    }
    match database {
        Some(name) => {
            parameters.push(("db".to_owned(), name.to_owned()));
        },
        None => {},
    }
    proof {
        assert(parameters.deep_view() =~= parameters_of(
            match query {
                Some(query) => Some(query@),
                None => None,
            },
            match database {
                Some(name) => Some(name@),
                None => None,
            },
        ));
    }
    parameters
}

/// The value that a tagged dataframe has for `tag`.
pub open spec fn tag_value_of<DF>(entry: TaggedDataframe<DF>, tag: Seq<char>) -> Result<
    Seq<char>,
    ClientErrorView,
> {
    match entry.1 {
        None => Err(ClientErrorView::ExpectedTagsError),
        Some(tags) => if tags@.contains_key(tag) {
            Ok(tags@[tag]@)
        } else {
            Err(ClientErrorView::ExpectedTagError(tag))
        },
    }
}

/// The values that tagged dataframes have for `tag`, or the error of the
/// first that has none.
pub open spec fn tag_values_of<DF>(entries: Seq<TaggedDataframe<DF>>, tag: Seq<char>) -> Result<
    Seq<Seq<char>>,
    ClientErrorView,
> {
    collected(Seq::new(entries.len(), |i: int| tag_value_of(entries[i], tag)))
}

/// The dataframe under each key; under a key that occurs twice, the later
/// dataframe.
pub open spec fn grouped<DF>(keys: Seq<Seq<char>>, entries: Seq<TaggedDataframe<DF>>) -> Map<
    Seq<char>,
    DF,
>
    decreases keys.len(),
{
    if keys.len() == 0 {
        Map::empty()
    } else {
        grouped(keys.drop_last(), entries).insert(keys.last(), entries[keys.len() - 1].0)
    }
}

/// The dataframes of the first statement.
pub fn first_statement<DF>(statement_results: Vec<StatementResult<DF>>) -> (outcome: Result<
    Vec<TaggedDataframe<DF>>,
    ClientError,
>)
    ensures
        statement_results@.len() == 0 ==> outcome is Err && outcome->Err_0@
            == ClientErrorView::EmptyError,
        statement_results@.len() > 0 ==> match statement_results@[0] {
            Ok(dataframes) => outcome == Ok::<Vec<TaggedDataframe<DF>>, ClientError>(dataframes),
            Err(error) => outcome is Err && outcome->Err_0@ == ClientErrorView::FormatError(error@),
        },
{
    let mut rest = statement_results;
    if rest.len() == 0 {
        return Err(ClientError::EmptyError);
    }
    match rest.swap_remove(0) {
        Ok(dataframes) => Ok(dataframes),
        Err(error) => Err(ClientError::FormatError(error)),
    }
}

/// The single dataframe of a query: the first dataframe of the first
/// statement. Everything else is ignored.
///
/// `EmptyError` is returned if there is no statement or the first statement
/// has no dataframe; the error of the first statement, if it has one.
pub fn single_dataframe<DF>(statement_results: Vec<StatementResult<DF>>) -> (outcome: Result<
    DF,
    ClientError,
>)
    ensures
        statement_results@.len() == 0 ==> outcome is Err && outcome->Err_0@
            == ClientErrorView::EmptyError,
        statement_results@.len() > 0 ==> match statement_results@[0] {
            Ok(dataframes) => if dataframes@.len() == 0 {
                outcome is Err && outcome->Err_0@ == ClientErrorView::EmptyError
            } else {
                outcome is Ok && outcome->Ok_0 == dataframes@[0].0
            },
            Err(error) => outcome is Err && outcome->Err_0@ == ClientErrorView::FormatError(error@),
        },
{
    let mut dataframes = match first_statement(statement_results) {
        Ok(dataframes) => dataframes,
        Err(error) => {
            return Err(error);
        },
    };
    if dataframes.len() == 0 {
        return Err(ClientError::EmptyError);
    }
    let (dataframe, _tags) = dataframes.swap_remove(0);
    Ok(dataframe)
}

/// The dataframes of one statement keyed by the value of `tag`.
///
/// `ExpectedTagsError` is returned for the first dataframe that has no
/// tags, `ExpectedTagError` for the first that has tags but not `tag`. Of
/// two dataframes with the same value the later one is kept.
pub fn group_by_tag<DF>(dataframes: Vec<TaggedDataframe<DF>>, tag: &str) -> (outcome: Result<
    NameMap<DF>,
    ClientError,
>)
    ensures
        match tag_values_of(dataframes@, tag@) {
            Err(error) => outcome is Err && outcome->Err_0@ == error,
            Ok(keys) => outcome is Ok && outcome->Ok_0.names() == distinct_names(keys)
                && outcome->Ok_0@ == grouped(keys, dataframes@),
        },
{
    let ghost items = dataframes@;
    let ghost results = Seq::new(items.len(), |i: int| tag_value_of(items[i], tag@));
    let mut groups: NameMap<DF> = NameMap::new();
    let ghost mut keys: Seq<Seq<char>> = Seq::empty();
    for entry in it: dataframes.into_iter()
        invariant
            it.seq() == items,
            items == dataframes@,
            results == Seq::new(items.len(), |i: int| tag_value_of(items[i], tag@)),
            keys.len() == it.index(),
            forall|i: int| 0 <= i < it.index() ==> #[trigger] results[i] == Ok::<
                Seq<char>,
                ClientErrorView,
            >(keys[i]),
            groups.names() == distinct_names(keys),
            groups@ == grouped(keys, items),
    {
        let ghost at = it.index() as int;
        let (dataframe, tags) = entry;
        let tags = match tags {
            Some(tags) => tags,
            None => {
                proof {
                    lemma_collected_error(results, at, ClientErrorView::ExpectedTagsError);
                }
                return Err(ClientError::ExpectedTagsError);
            },
        };
        let value = match tags.get(tag) {
            Some(value) => value.clone(),
            None => {
                proof {
                    lemma_collected_error(results, at, ClientErrorView::ExpectedTagError(tag@));
                }
                return Err(ClientError::ExpectedTagError(tag.to_owned()));
            },
        };
        proof {
            let grown = keys.push(value@);
            assert(grown.drop_last() =~= keys);
            lemma_grouped_prefix(keys, grown, items);
            keys = grown;
        }
        groups.insert(value, dataframe);
    }
    proof {
        lemma_collected_ok(results, keys);
    }
    Ok(groups)
}

/// The grouping under the first keys does not depend on the keys after
/// them.
pub proof fn lemma_grouped_prefix<DF>(
    keys: Seq<Seq<char>>,
    longer: Seq<Seq<char>>,
    entries: Seq<TaggedDataframe<DF>>,
)
    requires
        longer.drop_last() == keys,
        longer.len() > 0,
    ensures
        grouped(longer, entries) == grouped(keys, entries).insert(
            longer.last(),
            entries[longer.len() - 1].0,
        ),
{
}

/// The dataframes of a query keyed by the value of `tag`: those of the
/// first statement. Everything else is ignored.
///
/// `EmptyError` is returned if there is no statement; the error of the
/// first statement, if it has one; else what `group_by_tag` returns.
pub fn dataframes_by_tag<DF>(statement_results: Vec<StatementResult<DF>>, tag: &str) -> (outcome:
    Result<NameMap<DF>, ClientError>)
    ensures
        statement_results@.len() == 0 ==> outcome is Err && outcome->Err_0@
            == ClientErrorView::EmptyError,
        statement_results@.len() > 0 ==> match statement_results@[0] {
            Err(error) => outcome is Err && outcome->Err_0@ == ClientErrorView::FormatError(error@),
            Ok(dataframes) => match tag_values_of(dataframes@, tag@) {
                Err(error) => outcome is Err && outcome->Err_0@ == error,
                Ok(keys) => outcome is Ok && outcome->Ok_0.names() == distinct_names(keys)
                    && outcome->Ok_0@ == grouped(keys, dataframes@),
            },
        },
{
    match first_statement(statement_results) {
        Ok(dataframes) => group_by_tag(dataframes, tag),
        Err(error) => Err(error),
    }
}

} // verus!
