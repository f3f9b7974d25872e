//! The envelope of a JSON response: statements, series, rows and cells as
//! the server sends them, before any value is interpreted.

use vstd::prelude::*;

use crate::json::{member, shape_error, Json, JsonNumber, parsed_json};
use crate::text::str_equal;

verus! {

/// One cell of a row, by its JSON kind. Of an array or an object only the
/// kind is kept.
#[derive(Debug, PartialEq)]
pub enum Cell {
    Null,
    Bool(bool),
    Number(JsonNumber),
    String(String),
    Array,
    Object,
}

/// What a `Cell` holds.
pub enum CellView {
    Null,
    Bool(bool),
    Number(JsonNumber),
    String(Seq<char>),
    Array,
    Object,
}

impl DeepView for Cell {
    type V = CellView;

    open spec fn deep_view(&self) -> CellView {
        match *self {
            Cell::Null => CellView::Null,
            Cell::Bool(flag) => CellView::Bool(flag),
            Cell::Number(number) => CellView::Number(number),
            Cell::String(text) => CellView::String(text@),
            Cell::Array => CellView::Array,
            Cell::Object => CellView::Object,
        }
    }
}

impl View for Cell {
    type V = CellView;

    open spec fn view(&self) -> CellView {
        self.deep_view()
    }
}

/// One series of a statement's result.
#[derive(Debug, PartialEq)]
pub struct Series {
    /// The name of the series.
    pub name: String,
    /// The names of the columns; the first is the time column.
    pub columns: Vec<String>,
    /// The rows, each a list of cells.
    pub values: Vec<Vec<Cell>>,
    /// The tags by which the series was grouped.
    pub tags: Option<Vec<(String, String)>>,
}

/// What a `Series` holds.
pub struct SeriesView {
    pub name: Seq<char>,
    pub columns: Seq<Seq<char>>,
    pub values: Seq<Seq<CellView>>,
    pub tags: Option<Seq<(Seq<char>, Seq<char>)>>,
}

impl DeepView for Series {
    type V = SeriesView;

    open spec fn deep_view(&self) -> SeriesView {
        SeriesView {
            name: self.name@,
            columns: self.columns.deep_view(),
            values: self.values.deep_view(),
            tags: self.tags.deep_view(),
        }
    }
}

impl View for Series {
    type V = SeriesView;

    open spec fn view(&self) -> SeriesView {
        self.deep_view()
    }
}

/// The result of one statement as the server sends it.
#[derive(Debug, PartialEq)]
pub struct IndexedOutcome {
    /// The number of the statement.
    pub statement_id: u32,
    /// The series that the statement produced.
    pub series: Option<Vec<Series>>,
    /// The error that the statement ran into.
    pub error: Option<String>,
}

/// What an `IndexedOutcome` holds.
pub struct OutcomeView {
    pub statement_id: u32,
    pub series: Option<Seq<SeriesView>>,
    pub error: Option<Seq<char>>,
}

impl DeepView for IndexedOutcome {
    type V = OutcomeView;

    open spec fn deep_view(&self) -> OutcomeView {
        OutcomeView {
            statement_id: self.statement_id,
            series: self.series.deep_view(),
            error: self.error.deep_view(),
        }
    }
}

impl View for IndexedOutcome {
    type V = OutcomeView;

    open spec fn view(&self) -> OutcomeView {
        self.deep_view()
    }
}

/// A whole response: the results of the statements, or the error that the
/// request as a whole ran into.
#[derive(Debug, PartialEq)]
pub enum Response {
    Results(Vec<IndexedOutcome>),
    Error(String),
}

/// What a `Response` holds.
pub enum ResponseView {
    Results(Seq<OutcomeView>),
    Error(Seq<char>),
}

impl DeepView for Response {
    type V = ResponseView;

    open spec fn deep_view(&self) -> ResponseView {
        match *self {
            Response::Results(outcomes) => ResponseView::Results(outcomes.deep_view()),
            Response::Error(message) => ResponseView::Error(message@),
        }
    }
}

impl View for Response {
    type V = ResponseView;

    open spec fn view(&self) -> ResponseView {
        self.deep_view()
    }
}

/// All the items of `items`, where none is missing.
pub open spec fn all_present<T>(items: Seq<Option<T>>) -> Option<Seq<T>> {
    if forall|i: int| 0 <= i < items.len() ==> (#[trigger] items[i]) is Some {
        Some(Seq::new(items.len(), |i: int| items[i].unwrap()))
    } else {
        None
    }
}

/// The items of a JSON array, each read by `read`, where the value is an
/// array and `read` accepts every item.
pub open spec fn decoded_items<T>(json: Json, read: spec_fn(Json) -> Option<T>) -> Option<Seq<T>> {
    match json {
        Json::Array(items) => all_present(Seq::new(items@.len(), |i: int| read(items@[i]))),
        _ => None,
    }
}

/// The text of a JSON string.
pub open spec fn decoded_text(json: Json) -> Option<Seq<char>> {
    match json {
        Json::String(text) => Some(text@),
        _ => None,
    }
}

/// The cell that a JSON value makes.
pub open spec fn decoded_cell(json: Json) -> CellView {
    match json {
        Json::Null => CellView::Null,
        Json::Bool(flag) => CellView::Bool(flag),
        Json::Number(number) => CellView::Number(number),
        Json::String(text) => CellView::String(text@),
        Json::Array(_) => CellView::Array,
        Json::Object(_) => CellView::Object,
    }
}

/// The cells of a row: the row is a JSON array of any values.
pub open spec fn decoded_row(json: Json) -> Option<Seq<CellView>> {
    decoded_items(json, |item: Json| Some(decoded_cell(item)))
}

/// The tags of a series: a JSON object whose members are all strings.
pub open spec fn decoded_tags(json: Json) -> Option<Seq<(Seq<char>, Seq<char>)>> {
    match json {
        Json::Object(members) => all_present(
            Seq::new(
                members@.len(),
                |i: int|
                    match decoded_text(members@[i].1) {
                        Some(text) => Some((members@[i].0@, text)),
                        None => None,
                    },
            ),
        ),
        _ => None,
    }
}

/// The member called `name`, where it is there and is not `null`.
pub open spec fn optional_member(members: Seq<(String, Json)>, name: Seq<char>) -> Option<Json> {
    match member(members, name) {
        Some(Json::Null) => None,
        other => other,
    }
}

/// The series that a JSON value denotes: an object with a string `name`, an
/// array of strings `columns`, an array of arrays `values` and, optionally,
/// an object of strings `tags`. Other members are ignored.
pub open spec fn decoded_series(json: Json) -> Option<SeriesView> {
    match json {
        Json::Object(members) => {
            let name = member(members@, "name"@);
            let columns = member(members@, "columns"@);
            let values = member(members@, "values"@);
            let tags = optional_member(members@, "tags"@);
            if name is Some && decoded_text(name.unwrap()) is Some && columns is Some
                && decoded_items(columns.unwrap(), |item: Json| decoded_text(item)) is Some
                && values is Some && decoded_items(values.unwrap(), |item: Json| decoded_row(item))
                is Some && (tags is Some ==> decoded_tags(tags.unwrap()) is Some) {
                Some(
                    SeriesView {
                        name: decoded_text(name.unwrap()).unwrap(),
                        columns: decoded_items(
                            columns.unwrap(),
                            |item: Json| decoded_text(item),
                        ).unwrap(),
                        values: decoded_items(
                            values.unwrap(),
                            |item: Json| decoded_row(item),
                        ).unwrap(),
                        tags: match tags {
                            Some(t) => decoded_tags(t),
                            None => None,
                        },
                    },
                )
            } else {
                None
            }
        },
        _ => None,
    }
}

/// The number of a statement: a non-negative integer below 2^32.
pub open spec fn decoded_statement_id(json: Json) -> Option<u32> {
    match json {
        Json::Number(number) => match number.unsigned {
            Some(id) => if id <= u32::MAX {
                Some(id as u32)
            } else {
                None
            },
            None => None,
        },
        _ => None,
    }
}

/// The statement result that a JSON value denotes: an object with a number
/// `statement_id` and, optionally, an array of series `series` and a string
/// `error`. Other members are ignored.
pub open spec fn decoded_outcome(json: Json) -> Option<OutcomeView> {
    match json {
        Json::Object(members) => {
            let id = member(members@, "statement_id"@);
            let series = optional_member(members@, "series"@);
            let error = optional_member(members@, "error"@);
            if id is Some && decoded_statement_id(id.unwrap()) is Some && (series is Some
                ==> decoded_items(series.unwrap(), |item: Json| decoded_series(item)) is Some) && (
            error is Some ==> decoded_text(error.unwrap()) is Some) {
                Some(
                    OutcomeView {
                        statement_id: decoded_statement_id(id.unwrap()).unwrap(),
                        series: match series {
                            Some(s) => decoded_items(s, |item: Json| decoded_series(item)),
                            None => None,
                        },
                        error: match error {
                            Some(e) => decoded_text(e),
                            None => None,
                        },
                    },
                )
            } else {
                None
            }
        },
        _ => None,
    }
}

/// The response that a JSON value denotes: an object with exactly one
/// member, which is either `results`, an array of statement results, or
/// `error`, a string.
pub open spec fn decoded_response(json: Json) -> Option<ResponseView> {
    match json {
        Json::Object(members) => {
            if members@.len() != 1 {
                None
            } else if members@[0].0@ == "results"@ {
                match decoded_items(members@[0].1, |item: Json| decoded_outcome(item)) {
                    Some(outcomes) => Some(ResponseView::Results(outcomes)),
                    None => None,
                }
            } else if members@[0].0@ == "error"@ {
                match decoded_text(members@[0].1) {
                    Some(message) => Some(ResponseView::Error(message)),
                    None => None,
                }
            } else {
                None
            }
        },
        _ => None,
    }
}

/// The response that a text denotes: the text is JSON, and its value is a
/// response.
pub open spec fn response_of_text(text: Seq<char>) -> Option<ResponseView> {
    match parsed_json(text) {
        Some(json) => decoded_response(json),
        None => None,
    }
}

fn text_of(json: &Json) -> (text: Option<String>)
    ensures
        text.deep_view() == decoded_text(*json),
{
    match json {
        Json::String(text) => Some(text.clone()),
        _ => None,
    }
}

fn texts_of(json: &Json) -> (texts: Option<Vec<String>>)
    ensures
        texts.deep_view() == decoded_items(*json, |item: Json| decoded_text(item)),
{
    match json {
        Json::Array(items) => {
            let ghost read = |item: Json| decoded_text(item);
            let ghost all = Seq::new(items@.len(), |i: int| read(items@[i]));
            let mut texts: Vec<String> = Vec::new();
            let mut i: usize = 0;
            while i < items.len()
                invariant
                    *json == Json::Array(*items),
                    i <= items@.len(),
                    texts@.len() == i,
                    all == Seq::new(items@.len(), |i: int| read(items@[i])),
                    read == (|item: Json| decoded_text(item)),
                    forall|j: int| 0 <= j < i ==> (#[trigger] all[j]) is Some,
                    forall|j: int| 0 <= j < i ==> (#[trigger] texts@[j])@ == all[j].unwrap(),
                decreases items@.len() - i,
            {
                match text_of(&items[i]) {
                    Some(text) => {
                        texts.push(text);
                    },
                    None => {
                        assert(all[i as int] is None);
                        return None;
                    },
                }
                i += 1;
            }
            proof {
                assert(texts.deep_view() =~= all_present(all).unwrap());
            }
            Some(texts)
        },
        _ => None,
    }
}

fn cell_of(json: &Json) -> (cell: Cell)
    ensures
        cell@ == decoded_cell(*json),
{
    match json {
        Json::Null => Cell::Null,
        Json::Bool(flag) => Cell::Bool(*flag),
        Json::Number(number) => Cell::Number(*number),
        Json::String(text) => Cell::String(text.clone()),
        Json::Array(_) => Cell::Array,
        Json::Object(_) => Cell::Object,
    }
}

fn row_of(json: &Json) -> (row: Option<Vec<Cell>>)
    ensures
        row.deep_view() == decoded_row(*json),
{
    match json {
        Json::Array(items) => {
            let ghost read = |item: Json| Some(decoded_cell(item));
            let ghost all = Seq::new(items@.len(), |i: int| read(items@[i]));
            let mut cells: Vec<Cell> = Vec::new();
            let mut i: usize = 0;
            while i < items.len()
                invariant
                    *json == Json::Array(*items),
                    i <= items@.len(),
                    cells@.len() == i,
                    forall|j: int| 0 <= j < i ==> (#[trigger] cells@[j])@ == decoded_cell(items@[j]),
                decreases items@.len() - i,
            {
                let cell = cell_of(&items[i]);
                cells.push(cell);
                i += 1;
            }
            proof {
                assert(cells.deep_view() =~= all_present(all).unwrap());
            }
            Some(cells)
        },
        _ => None,
    }
}

fn rows_of(json: &Json) -> (rows: Option<Vec<Vec<Cell>>>)
    ensures
        rows.deep_view() == decoded_items(*json, |item: Json| decoded_row(item)),
{
    match json {
        Json::Array(items) => {
            let ghost read = |item: Json| decoded_row(item);
            let ghost all = Seq::new(items@.len(), |i: int| read(items@[i]));
            let mut rows: Vec<Vec<Cell>> = Vec::new();
            let mut i: usize = 0;
            while i < items.len()
                invariant
                    *json == Json::Array(*items),
                    i <= items@.len(),
                    rows@.len() == i,
                    all == Seq::new(items@.len(), |i: int| read(items@[i])),
                    read == (|item: Json| decoded_row(item)),
                    forall|j: int| 0 <= j < i ==> (#[trigger] all[j]) is Some,
                    forall|j: int|
                        0 <= j < i ==> (#[trigger] rows@[j]).deep_view() == all[j].unwrap(),
                decreases items@.len() - i,
            {
                match row_of(&items[i]) {
                    Some(row) => {
                        rows.push(row);
                    },
                    None => {
                        assert(all[i as int] is None);
                        return None;
                    },
                }
                i += 1;
            }
            proof {
                assert(rows.deep_view() =~= all_present(all).unwrap());
            }
            Some(rows)
        },
        _ => None,
    }
}

fn tags_of(json: &Json) -> (tags: Option<Vec<(String, String)>>)
    ensures
        tags.deep_view() == decoded_tags(*json),
{
    match json {
        Json::Object(members) => {
            let ghost all = Seq::new(
                members@.len(),
                |i: int|
                    match decoded_text(members@[i].1) {
                        Some(text) => Some((members@[i].0@, text)),
                        None => None,
                    },
            );
            let mut tags: Vec<(String, String)> = Vec::new();
            let mut i: usize = 0;
            while i < members.len()
                invariant
                    *json == Json::Object(*members),
                    i <= members@.len(),
                    tags@.len() == i,
                    all == Seq::new(
                        members@.len(),
                        |i: int|
                            match decoded_text(members@[i].1) {
                                Some(text) => Some((members@[i].0@, text)),
                                None => None,
                            },
                    ),
                    forall|j: int| 0 <= j < i ==> (#[trigger] all[j]) is Some,
                    forall|j: int|
                        0 <= j < i ==> (#[trigger] tags@[j]).deep_view() == all[j].unwrap(),
                decreases members@.len() - i,
            {
                match text_of(&members[i].1) {
                    Some(text) => {
                        tags.push((members[i].0.clone(), text));
                    },
                    None => {
                        assert(all[i as int] is None);
                        return None;
                    },
                }
                i += 1;
            }
            proof {
                assert(tags.deep_view() =~= all_present(all).unwrap());
            }
            Some(tags)
        },
        _ => None,
    }
}

fn find_optional<'a>(members: &'a Vec<(String, Json)>, name: &str) -> (found: Option<&'a Json>)
    ensures
        match found {
            Some(value) => optional_member(members@, name@) == Some(*value),
            None => optional_member(members@, name@) is None,
        },
{
    match Json::find(members, name) {
        Some(Json::Null) => None,
        other => other,
    }
}

fn series_of(json: &Json) -> (series: Option<Series>)
    ensures
        series.deep_view() == decoded_series(*json),
{
    match json {
        Json::Object(members) => {
            let name = match Json::find(members, "name") {
                Some(value) => match text_of(value) {
                    Some(name) => name,
                    None => {
                        return None;
                    },
                },
                None => {
                    return None;
                },
            };
            let columns = match Json::find(members, "columns") {
                Some(value) => match texts_of(value) {
                    Some(columns) => columns,
                    None => {
                        return None;
                    },
                },
                None => {
                    return None;
                },
            };
            let values = match Json::find(members, "values") {
                Some(value) => match rows_of(value) {
                    Some(values) => values,
                    None => {
                        return None;
                    },
                },
                None => {
                    return None;
                },
            };
            let tags = match find_optional(members, "tags") {
                Some(value) => match tags_of(value) {
                    Some(tags) => Some(tags),
                    None => {
                        return None;
                    },
                },
                None => None,
            };
            Some(Series { name, columns, values, tags })
        },
        _ => None,
    }
}

fn serieses_of(json: &Json) -> (serieses: Option<Vec<Series>>)
    ensures
        serieses.deep_view() == decoded_items(*json, |item: Json| decoded_series(item)),
{
    match json {
        Json::Array(items) => {
            let ghost read = |item: Json| decoded_series(item);
            let ghost all = Seq::new(items@.len(), |i: int| read(items@[i]));
            let mut serieses: Vec<Series> = Vec::new();
            let mut i: usize = 0;
            while i < items.len()
                invariant
                    *json == Json::Array(*items),
                    i <= items@.len(),
                    serieses@.len() == i,
                    all == Seq::new(items@.len(), |i: int| read(items@[i])),
                    read == (|item: Json| decoded_series(item)),
                    forall|j: int| 0 <= j < i ==> (#[trigger] all[j]) is Some,
                    forall|j: int|
                        0 <= j < i ==> (#[trigger] serieses@[j]).deep_view() == all[j].unwrap(),
                decreases items@.len() - i,
            {
                match series_of(&items[i]) {
                    Some(series) => {
                        serieses.push(series);
                    },
                    None => {
                        assert(all[i as int] is None);
                        return None;
                    },
                }
                i += 1;
            }
            proof {
                assert(serieses.deep_view() =~= all_present(all).unwrap());
            }
            Some(serieses)
        },
        _ => None,
    }
}

fn statement_id_of(json: &Json) -> (id: Option<u32>)
    ensures
        id == decoded_statement_id(*json),
{
    match json {
        Json::Number(number) => match number.unsigned {
            Some(id) => if id <= 0xffff_ffff {
                Some(id as u32)
            } else {
                None
            },
            None => None,
        },
        _ => None,
    }
}

fn outcome_of(json: &Json) -> (outcome: Option<IndexedOutcome>)
    ensures
        outcome.deep_view() == decoded_outcome(*json),
{
    match json {
        Json::Object(members) => {
            let statement_id = match Json::find(members, "statement_id") {
                Some(value) => match statement_id_of(value) {
                    Some(id) => id,
                    None => {
                        return None;
                    },
                },
                None => {
                    return None;
                },
            };
            let series = match find_optional(members, "series") {
                Some(value) => match serieses_of(value) {
                    Some(series) => Some(series),
                    None => {
                        return None;
                    },
                },
                None => None,
            };
            let error = match find_optional(members, "error") {
                Some(value) => match text_of(value) {
                    Some(error) => Some(error),
                    None => {
                        return None;
                    },
                },
                None => None,
            };
            Some(IndexedOutcome { statement_id, series, error })
        },
        _ => None,
    }
}

fn outcomes_of(json: &Json) -> (outcomes: Option<Vec<IndexedOutcome>>)
    ensures
        outcomes.deep_view() == decoded_items(*json, |item: Json| decoded_outcome(item)),
{
    match json {
        Json::Array(items) => {
            let ghost read = |item: Json| decoded_outcome(item);
            let ghost all = Seq::new(items@.len(), |i: int| read(items@[i]));
            let mut outcomes: Vec<IndexedOutcome> = Vec::new();
            let mut i: usize = 0;
            while i < items.len()
                invariant
                    *json == Json::Array(*items),
                    i <= items@.len(),
                    outcomes@.len() == i,
                    all == Seq::new(items@.len(), |i: int| read(items@[i])),
                    read == (|item: Json| decoded_outcome(item)),
                    forall|j: int| 0 <= j < i ==> (#[trigger] all[j]) is Some,
                    forall|j: int|
                        0 <= j < i ==> (#[trigger] outcomes@[j]).deep_view() == all[j].unwrap(),
                decreases items@.len() - i,
            {
                match outcome_of(&items[i]) {
                    Some(outcome) => {
                        outcomes.push(outcome);
                    },
                    None => {
                        assert(all[i as int] is None);
                        return None;
                    },
                }
                i += 1;
            }
            proof {
                assert(outcomes.deep_view() =~= all_present(all).unwrap());
            }
            Some(outcomes)
        },
        _ => None,
    }
}

impl Response {
    /// Reads a response from a JSON value. `None` where the value does not
    /// have the form of a response.
    pub fn from_json(json: &Json) -> (response: Option<Response>)
        ensures
            response.deep_view() == decoded_response(*json),
    {
        match json {
            Json::Object(members) => {
                if members.len() != 1 {
                    None
                } else if str_equal(members[0].0.as_str(), "results") {
                    match outcomes_of(&members[0].1) {
                        Some(outcomes) => Some(Response::Results(outcomes)),
                        None => None,
                    }
                } else if str_equal(members[0].0.as_str(), "error") {
                    match text_of(&members[0].1) {
                        Some(message) => Some(Response::Error(message)),
                        None => None,
                    }
                } else {
                    None
                }
            },
            _ => None,
        }
    }

    /// Reads a response from a JSON text. The error says where the text is
    /// not JSON, or that its value is not a response.
    pub fn parse(text: &str) -> (outcome: Result<Response, serde_json::Error>)
        ensures
            match outcome {
                Ok(response) => response_of_text(text@) == Some(response@),
                Err(_) => response_of_text(text@) is None,
            },
    {
        match Json::parse(text) {
            Ok(json) => match Response::from_json(&json) {
                Some(response) => Ok(response),
                None => Err(shape_error("the value does not have the form of a response")),
            },
            Err(error) => Err(error),
        }
    }
}

} // verus!
