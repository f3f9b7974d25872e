//! Functions to parse JSON responses from the database

use vstd::prelude::*;

use super::envelope::{
    response_of_text, IndexedOutcome, OutcomeView, Response, ResponseView, Series, SeriesView,
};
use super::error::{ResponseError, ResponseErrorView};
use super::series::{holds_table, read_rows, table_of, TableView};
use super::types::{ResponseResult, StatementResult, TaggedDataframe, TagsMap};
use crate::types::{Instant, NameMap, Value};

verus! {

/// The names of tags, each once, at the place of its first occurrence.
pub open spec fn tag_names(pairs: Seq<(Seq<char>, Seq<char>)>) -> Seq<Seq<char>>
    decreases pairs.len(),
{
    if pairs.len() == 0 {
        Seq::empty()
    } else {
        let before = tag_names(pairs.drop_last());
        if before.contains(pairs.last().0) {
            before
        } else {
            before.push(pairs.last().0)
        }
    }
}

/// The value of each tag; of a tag that occurs twice, the later value.
pub open spec fn tag_bindings(pairs: Seq<(Seq<char>, Seq<char>)>) -> Map<Seq<char>, Seq<char>>
    decreases pairs.len(),
{
    if pairs.len() == 0 {
        Map::empty()
    } else {
        tag_bindings(pairs.drop_last()).insert(pairs.last().0, pairs.last().1)
    }
}

/// The texts that a map of tags binds to its names.
pub open spec fn tag_texts(tags: TagsMap) -> Map<Seq<char>, Seq<char>> {
    tags@.map_values(|value: String| value@)
}

/// Whether `tags` holds what the series carries as tags.
pub open spec fn holds_tags(tags: Option<TagsMap>, pairs: Option<Seq<(Seq<char>, Seq<char>)>>) -> bool {
    match pairs {
        None => tags is None,
        Some(pairs) => tags is Some && tags.unwrap().names() == tag_names(pairs) && tag_texts(
            tags.unwrap(),
        ) == tag_bindings(pairs),
    }
}

/// Whether `product` is something that `factory` may return when it is
/// handed a name, an index and columns that hold `table`.
pub open spec fn made_by<DF, F: Fn(String, Vec<Instant>, NameMap<Vec<Value>>) -> Result<
    DF,
    ResponseError,
>>(factory: F, table: TableView, product: Result<DF, ResponseError>) -> bool {
    exists|name: String, index: Vec<Instant>, columns: NameMap<Vec<Value>>|
        holds_table(name, index, columns, table) && #[trigger] call_ensures(
            factory,
            (name, index, columns),
            product,
        )
}

/// What the parsing of one series comes to.
///
/// Where the rows cannot be read, the outcome is the error of the first
/// cell that cannot. Otherwise the factory was handed the table of the
/// series, and the outcome is what it returned: its dataframe together with
/// the tags of the series, or its error.
pub open spec fn series_outcome<DF, F: Fn(String, Vec<Instant>, NameMap<Vec<Value>>) -> Result<
    DF,
    ResponseError,
>>(series: SeriesView, outcome: Result<TaggedDataframe<DF>, ResponseError>, factory: F) -> bool {
    match table_of(series.name, series.columns, series.values) {
        Err(error) => outcome is Err && outcome->Err_0@ == error,
        Ok(table) => match outcome {
            Ok((dataframe, tags)) => made_by(factory, table, Ok(dataframe)) && holds_tags(
                tags,
                series.tags,
            ),
            Err(error) => made_by(factory, table, Err(error)),
        },
    }
}

/// Whether the parsing of a series can succeed: the rows can be read, and
/// the factory may return a dataframe for their table.
pub open spec fn series_succeeds<DF, F: Fn(String, Vec<Instant>, NameMap<Vec<Value>>) -> Result<
    DF,
    ResponseError,
>>(series: SeriesView, factory: F) -> bool {
    exists|made: TaggedDataframe<DF>| #[trigger]
        series_outcome(series, Ok::<TaggedDataframe<DF>, ResponseError>(made), factory)
}

/// What the parsing of the series of one statement comes to: a dataframe
/// for every series, in order, or the error of the first series that fails,
/// all series before it having succeeded.
pub open spec fn serieses_outcome<DF, F: Fn(String, Vec<Instant>, NameMap<Vec<Value>>) -> Result<
    DF,
    ResponseError,
>>(serieses: Seq<SeriesView>, outcome: StatementResult<DF>, factory: F) -> bool {
    match outcome {
        Ok(dataframes) => dataframes@.len() == serieses.len() && forall|j: int|
            0 <= j < serieses.len() ==> series_outcome(
                serieses[j],
                Ok::<TaggedDataframe<DF>, ResponseError>(#[trigger] dataframes@[j]),
                factory,
            ),
        Err(error) => exists|j: int|
            0 <= j < serieses.len() && #[trigger] series_outcome(
                serieses[j],
                Err::<TaggedDataframe<DF>, ResponseError>(error),
                factory,
            ) && forall|k: int| 0 <= k < j ==> series_succeeds::<DF, F>(#[trigger] serieses[k], factory),
    }
}

/// What one statement comes to. A statement with an error yields that
/// error, whatever series it carries; one without yields the dataframes of
/// its series, none where it has no series.
pub open spec fn statement_outcome<DF, F: Fn(String, Vec<Instant>, NameMap<Vec<Value>>) -> Result<
    DF,
    ResponseError,
>>(statement: OutcomeView, outcome: StatementResult<DF>, factory: F) -> bool {
    match statement.error {
        Some(message) => outcome is Err && outcome->Err_0@ == ResponseErrorView::StatementError(
            message,
        ),
        None => match statement.series {
            Some(serieses) => serieses_outcome(serieses, outcome, factory),
            None => outcome is Ok && outcome->Ok_0@.len() == 0,
        },
    }
}

/// What a whole response comes to. An `error` envelope yields that error
/// for the whole response; a `results` envelope yields one outcome for each
/// statement, in order.
pub open spec fn response_outcome<DF, F: Fn(String, Vec<Instant>, NameMap<Vec<Value>>) -> Result<
    DF,
    ResponseError,
>>(response: ResponseView, outcome: ResponseResult<DF>, factory: F) -> bool {
    match response {
        ResponseView::Error(message) => outcome is Err && outcome->Err_0@
            == ResponseErrorView::ResponseError(message),
        ResponseView::Results(statements) => outcome is Ok && outcome->Ok_0@.len()
            == statements.len() && forall|i: int|
            0 <= i < statements.len() ==> statement_outcome(
                statements[i],
                #[trigger] outcome->Ok_0@[i],
                factory,
            ),
    }
}

/// The tags of a series as a map.
pub fn tags_map(pairs: Vec<(String, String)>) -> (tags: TagsMap)
    ensures
        tags.names() == tag_names(pairs.deep_view()),
        tag_texts(tags) == tag_bindings(pairs.deep_view()),
{
    let ghost all = pairs.deep_view();
    let ghost items = pairs@;
    let mut tags: TagsMap = NameMap::new();
    proof {
        assert(all.take(0) =~= Seq::<(Seq<char>, Seq<char>)>::empty());
        assert(tag_texts(tags) =~= tag_bindings(all.take(0)));
    }
    for pair in it: pairs.into_iter()
        invariant
            it.seq() == items,
            all == pairs.deep_view(),
            tags.names() == tag_names(all.take(it.index() as int)),
            tag_texts(tags) == tag_bindings(all.take(it.index() as int)),
    {
        let ghost at = it.index() as int;
        let (name, value) = pair;
        let ghost before = tags;
        proof {
            assert(all[at] == (name@, value@));
            assert(all.take(at + 1).drop_last() =~= all.take(at));
        }
        tags.insert(name, value);
        proof {
            assert(tag_texts(tags) =~= tag_texts(before).insert(name@, value@));
        }
    }
    proof {
        assert(all.take(all.len() as int) =~= all);
    }
    tags
}

/// Parses one series: reads its rows into a time index and columns, hands
/// them with the name of the series to `factory`, and returns the dataframe
/// that it makes together with the tags of the series.
pub fn parse_series<DF, F>(series: Series, factory: &F) -> (outcome: Result<
    TaggedDataframe<DF>,
    ResponseError,
>) where F: Fn(String, Vec<Instant>, NameMap<Vec<Value>>) -> Result<DF, ResponseError>
    requires
        forall|name: String, index: Vec<Instant>, columns: NameMap<Vec<Value>>|
            call_requires(*factory, (name, index, columns)),
    ensures
        series_outcome(series@, outcome, *factory),
{
    let Series { name, columns, values, tags } = series;
    let (index, data) = match read_rows(&columns, &values) {
        Ok(parts) => parts,
        Err(error) => {
            return Err(error);
        },
    };
    let ghost table = table_of(series@.name, series@.columns, series@.values)->Ok_0;
    proof {
        assert(holds_table(name, index, data, table));
    }
    match factory(name, index, data) {
        Ok(dataframe) => {
            let tags = match tags {
                Some(pairs) => Some(tags_map(pairs)),
                None => None,
            };
            Ok((dataframe, tags))
        },
        Err(error) => Err(error),
    }
}

/// Parses the series of one statement, in order, up to the first that
/// fails.
pub fn parse_serieses<DF, F>(serieses: Vec<Series>, factory: &F) -> (outcome: StatementResult<
    DF,
>) where F: Fn(String, Vec<Instant>, NameMap<Vec<Value>>) -> Result<DF, ResponseError>
    requires
        forall|name: String, index: Vec<Instant>, columns: NameMap<Vec<Value>>|
            call_requires(*factory, (name, index, columns)),
    ensures
        serieses_outcome(serieses.deep_view(), outcome, *factory),
{
    let ghost all = serieses.deep_view();
    let ghost items = serieses@;
    let mut dataframes: Vec<TaggedDataframe<DF>> = Vec::new();
    for series in it: serieses.into_iter()
        invariant
            forall|name: String, index: Vec<Instant>, columns: NameMap<Vec<Value>>|
                call_requires(*factory, (name, index, columns)),
            it.seq() == items,
            all == serieses.deep_view(),
            all.len() == items.len(),
            forall|k: int| 0 <= k < items.len() ==> (#[trigger] items[k])@ == all[k],
            dataframes@.len() == it.index(),
            forall|j: int|
                0 <= j < it.index() ==> series_outcome(
                    all[j],
                    Ok::<TaggedDataframe<DF>, ResponseError>(#[trigger] dataframes@[j]),
                    *factory,
                ),
    {
        let ghost done = it.index() as int;
        assert(series@ == all[done]);
        match parse_series(series, factory) {
            Ok(dataframe) => {
                dataframes.push(dataframe);
            },
            Err(error) => {
                proof {
                    assert(0 <= done < all.len());
                    assert(series_outcome(
                        all[done],
                        Err::<TaggedDataframe<DF>, ResponseError>(error),
                        *factory,
                    ));
                    assert forall|k: int| 0 <= k < done implies series_succeeds::<DF, F>(
                        #[trigger] all[k],
                        *factory,
                    ) by {
                        assert(series_outcome(
                            all[k],
                            Ok::<TaggedDataframe<DF>, ResponseError>(dataframes@[k]),
                            *factory,
                        ));
                    }
                }
                return Err(error);
            },
        }
    }
    Ok(dataframes)
}

/// The outcome of one statement.
pub fn parse_statement<DF, F>(statement: IndexedOutcome, factory: &F) -> (outcome: StatementResult<
    DF,
>) where F: Fn(String, Vec<Instant>, NameMap<Vec<Value>>) -> Result<DF, ResponseError>
    requires
        forall|name: String, index: Vec<Instant>, columns: NameMap<Vec<Value>>|
            call_requires(*factory, (name, index, columns)),
    ensures
        statement_outcome(statement@, outcome, *factory),
{
    let IndexedOutcome { statement_id: _, series, error } = statement;
    match error {
        Some(message) => Err(ResponseError::StatementError(message)),
        None => match series {
            Some(serieses) => parse_serieses(serieses, factory),
            None => Ok(Vec::new()),
        },
    }
}

/// The outcome of a decoded response.
pub fn parse_response<DF, F>(response: Response, factory: &F) -> (outcome: ResponseResult<
    DF,
>) where F: Fn(String, Vec<Instant>, NameMap<Vec<Value>>) -> Result<DF, ResponseError>
    requires
        forall|name: String, index: Vec<Instant>, columns: NameMap<Vec<Value>>|
            call_requires(*factory, (name, index, columns)),
    ensures
        response_outcome(response@, outcome, *factory),
{
    match response {
        Response::Error(message) => Err(ResponseError::ResponseError(message)),
        Response::Results(statements) => {
            let ghost all = statements.deep_view();
            let ghost items = statements@;
            let mut outcomes: Vec<StatementResult<DF>> = Vec::new();
            for statement in it: statements.into_iter()
                invariant
                    forall|name: String, index: Vec<Instant>, columns: NameMap<Vec<Value>>|
                        call_requires(*factory, (name, index, columns)),
                    it.seq() == items,
                    all.len() == items.len(),
                    forall|k: int| 0 <= k < items.len() ==> (#[trigger] items[k])@ == all[k],
                    outcomes@.len() == it.index(),
                    forall|i: int|
                        0 <= i < it.index() ==> statement_outcome(
                            all[i],
                            #[trigger] outcomes@[i],
                            *factory,
                        ),
            {
                assert(statement@ == all[it.index() as int]);
                let outcome = parse_statement(statement, factory);
                outcomes.push(outcome);
            }
            Ok(outcomes)
        },
    }
}

/// Parse a JSON response returned from the database to a list of tagged
/// dataframes.
///
/// An example of such JSON response is the following.
///
/// ```json
/// {
///     "results": [
///         {
///             "statement_id": 0,
///             "series": [
///                 {
///                     "name": "environment",
///                     "columns": ["time","temperature","humidity"],
///                     "values":[
///                         ["2021-03-04T17:00:00Z",28.4,41.0],
///                         ["2021-03-04T18:00:00Z",29.2,37.0]
///                     ],
///                     "tags": {
///                         "room": "bedroom",
///                         "building": "b1"
///                     }
///                 }
///             ]
///         }
///     ]
/// }
/// ```
///
/// A single query can consist of multiple semicolon-separated statements,
/// and for each of them a result is returned. The result can contain a list
/// of timeseries, each with its tags, or nothing if the statement did not
/// generate any data.
///
/// ## Return type
///
/// This function is agnostic on the actual dataframe type. For each series
/// it calls `factory` with the name of the series, the list of instants,
/// namely the index, and a map of lists of values, namely the columns, and
/// keeps the dataframe that `factory` makes of them.
///
/// ## Outcome
///
/// A text that is not the JSON of a response yields `JsonError`. Otherwise
/// the outcome is what `response_outcome` says of the response that the
/// text denotes.
pub fn from_str<DF, F>(input: &str, factory: F) -> (outcome: ResponseResult<DF>) where
    F: Fn(String, Vec<Instant>, NameMap<Vec<Value>>) -> Result<DF, ResponseError>,

    requires
        forall|name: String, index: Vec<Instant>, columns: NameMap<Vec<Value>>|
            call_requires(factory, (name, index, columns)),
    ensures
        match response_of_text(input@) {
            None => outcome is Err && outcome->Err_0@ == ResponseErrorView::JsonError,
            Some(response) => response_outcome(response, outcome, factory),
        },
{
    match Response::parse(input) {
        Ok(response) => parse_response(response, &factory),
        Err(error) => Err(ResponseError::JsonError(error)),
    }
}

} // verus!
