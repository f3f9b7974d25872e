//! Laws of the parsing of responses.

use vstd::prelude::*;

use super::envelope::{response_of_text, OutcomeView, Response, ResponseView, SeriesView};
use super::error::{ResponseError, ResponseErrorView};
use super::response::{
    made_by, response_outcome, series_outcome, series_succeeds, serieses_outcome,
    statement_outcome, tag_texts,
};
use super::series::{
    cell_instant, cell_value, cells_under, column_of, decoded_row, decoded_rows, distinct_names,
    holds_table, row_values, table_of, value_column_names, values_of, TableView,
};
use super::types::{ResponseResult, StatementResult, TaggedDataframe, TagsMap};
use crate::types::results::{collected, lemma_collected_ok};
use crate::types::{Instant, NameMap, Value, ValueView};

verus! {

/// Whether a series has `m` value columns with names that differ from one
/// another, and `n` rows that each hold an instant and then one value for
/// every value column.
pub open spec fn is_regular(series: SeriesView, n: nat, m: nat) -> bool {
    &&& series.columns.len() == m + 1
    &&& series.columns.subrange(1, m as int + 1).no_duplicates()
    &&& series.values.len() == n
    &&& forall|i: int|
        0 <= i < n ==> (#[trigger] series.values[i]).len() == m + 1 && cell_instant(
            series.values[i][0],
        ) is Ok
    &&& forall|i: int, j: int|
        0 <= i < n && 1 <= j <= m ==> (#[trigger] cell_value(series.values[i][j])) is Ok
}

/// Names that differ from one another are their own names without
/// repetitions.
pub proof fn lemma_distinct_names_same(names: Seq<Seq<char>>)
    requires
        names.no_duplicates(),
    ensures
        distinct_names(names) == names,
    decreases names.len(),
{
    if names.len() > 0 {
        let shorter = names.drop_last();
        lemma_distinct_names_same(shorter);
        if shorter.contains(names.last()) {
            let k = choose|k: int| 0 <= k < shorter.len() && shorter[k] == names.last();
            assert(names[k] == names[names.len() - 1]);
        }
        assert(shorter.push(names.last()) =~= names);
    }
}

/// Where the names of the value columns differ from one another, the one
/// value of a row that stands under a column is the value at the column's
/// place.
pub proof fn lemma_cells_under_distinct(columns: Seq<Seq<char>>, values: Seq<ValueView>, s: int)
    requires
        columns.len() >= 1,
        columns.subrange(1, columns.len() as int).no_duplicates(),
        values.len() <= columns.len() - 1,
        0 <= s < columns.len() - 1,
    ensures
        cells_under(columns, values, columns[s + 1]) == if s < values.len() {
            seq![values[s]]
        } else {
            Seq::<ValueView>::empty()
        },
    decreases values.len(),
{
    let rest = columns.subrange(1, columns.len() as int);
    if values.len() > 0 {
        let shorter = values.drop_last();
        lemma_cells_under_distinct(columns, shorter, s);
        let last = values.len() - 1;
        assert(rest[last] == columns[values.len() as int]);
        assert(rest[s] == columns[s + 1]);
        if s < last {
            assert(shorter[s] == values[s]);
        } else if s == last {
            assert(seq![values[s]] =~= Seq::<ValueView>::empty().push(values.last()));
        }
    }
}

/// Where the names of the value columns differ from one another and every
/// row has a value for every column, a column holds, row after row, the
/// values at its place.
pub proof fn lemma_column_of_regular(columns: Seq<Seq<char>>, rows: Seq<Seq<ValueView>>, s: int)
    requires
        columns.len() >= 1,
        columns.subrange(1, columns.len() as int).no_duplicates(),
        forall|i: int| 0 <= i < rows.len() ==> (#[trigger] rows[i]).len() == columns.len() - 1,
        0 <= s < columns.len() - 1,
    ensures
        column_of(columns, rows, columns[s + 1]) == Seq::new(rows.len(), |i: int| rows[i][s]),
    decreases rows.len(),
{
    if rows.len() > 0 {
        let shorter = rows.drop_last();
        lemma_column_of_regular(columns, shorter, s);
        lemma_cells_under_distinct(columns, rows.last(), s);
        assert(Seq::new(shorter.len(), |i: int| shorter[i][s]) + seq![rows.last()[s]] =~= Seq::new(
            rows.len(),
            |i: int| rows[i][s],
        ));
    } else {
        assert(Seq::<ValueView>::empty() =~= Seq::new(rows.len(), |i: int| rows[i][s]));
    }
}

/// A regular series of `n` rows and `m` value columns makes a table whose
/// index has `n` instants and which has `m` columns of `n` values each: the
/// instants and values of the cells, each at its place.
pub proof fn law_regular_series_makes_table(series: SeriesView, n: nat, m: nat)
    requires
        is_regular(series, n, m),
    ensures
        table_of(series.name, series.columns, series.values) is Ok,
        ({
            let table = table_of(series.name, series.columns, series.values)->Ok_0;
            &&& table.name == series.name
            &&& table.index.len() == n
            &&& table.names.len() == m
            &&& table.columns.len() == m
            &&& forall|i: int|
                0 <= i < n ==> Ok::<Instant, ResponseErrorView>(#[trigger] table.index[i])
                    == cell_instant(series.values[i][0])
            &&& forall|s: int| 0 <= s < m ==> #[trigger] table.names[s] == series.columns[s + 1]
            &&& forall|s: int| 0 <= s < m ==> (#[trigger] table.columns[s]).len() == n
            &&& forall|s: int, i: int|
                0 <= s < m && 0 <= i < n ==> Ok::<ValueView, ResponseErrorView>(
                    #[trigger] table.columns[s][i],
                ) == cell_value(series.values[i][s + 1])
        }),
{
    let columns = series.columns;
    let rows = series.values;
    let decoded = Seq::new(
        n,
        |i: int|
            (
                cell_instant(rows[i][0])->Ok_0,
                Seq::new(m, |j: int| cell_value(rows[i][j + 1])->Ok_0),
            ),
    );
    let results = Seq::new(rows.len(), |i: int| decoded_row(columns, rows[i]));
    assert forall|i: int| 0 <= i < n implies #[trigger] results[i] == Ok::<
        (Instant, Seq<ValueView>),
        ResponseErrorView,
    >(decoded[i]) by {
        let row = rows[i];
        assert(row.len() == m + 1);
        let cells = Seq::new(m, |j: int| cell_value(row[j + 1]));
        assert forall|j: int| 0 <= j < m implies #[trigger] cells[j] == Ok::<
            ValueView,
            ResponseErrorView,
        >(decoded[i].1[j]) by {
            assert(cell_value(rows[i][j + 1]) is Ok);
        }
        lemma_collected_ok(cells, decoded[i].1);
        assert(row_values(columns, row) == collected(cells));
    }
    lemma_collected_ok(results, decoded);
    assert(decoded_rows(columns, rows) == Ok::<
        Seq<(Instant, Seq<ValueView>)>,
        ResponseErrorView,
    >(decoded));
    let names = value_column_names(columns);
    assert(columns.subrange(1, columns.len() as int) == columns.subrange(1, m as int + 1));
    lemma_distinct_names_same(columns.subrange(1, m as int + 1));
    let table = table_of(series.name, columns, rows)->Ok_0;
    assert forall|s: int| 0 <= s < m implies (#[trigger] table.columns[s]).len() == n && forall|
        i: int,
    |
        0 <= i < n ==> Ok::<ValueView, ResponseErrorView>(#[trigger] table.columns[s][i])
            == cell_value(series.values[i][s + 1]) by {
        assert(names[s] == columns[s + 1]);
        lemma_column_of_regular(columns, values_of(decoded), s);
        assert forall|i: int| 0 <= i < n implies Ok::<ValueView, ResponseErrorView>(
            #[trigger] table.columns[s][i],
        ) == cell_value(series.values[i][s + 1]) by {
            assert(cell_value(rows[i][s + 1]) is Ok);
        }
    }
}

/// The response to one statement that produced one regular series of `n`
/// rows and `m` value columns, read with a factory that refuses nothing,
/// comes to one statement outcome, which holds one dataframe: what the
/// factory made of the table with `n` instants and `m` columns of `n`
/// values.
pub proof fn law_regular_response_yields_one_table<
    DF,
    F: Fn(String, Vec<Instant>, NameMap<Vec<Value>>) -> Result<DF, ResponseError>,
>(statement: OutcomeView, series: SeriesView, n: nat, m: nat, outcome: ResponseResult<DF>, factory: F)
    requires
        statement.error is None,
        statement.series == Some(seq![series]),
        is_regular(series, n, m),
        forall|name: String, index: Vec<Instant>, columns: NameMap<Vec<Value>>, error: ResponseError|
            !call_ensures(factory, (name, index, columns), Err::<DF, ResponseError>(error)),
        response_outcome(ResponseView::Results(seq![statement]), outcome, factory),
    ensures
        outcome is Ok,
        outcome->Ok_0@.len() == 1,
        outcome->Ok_0@[0] is Ok,
        outcome->Ok_0@[0]->Ok_0@.len() == 1,
        made_by(
            factory,
            table_of(series.name, series.columns, series.values)->Ok_0,
            Ok::<DF, ResponseError>(outcome->Ok_0@[0]->Ok_0@[0].0),
        ),
{
    law_regular_series_makes_table(series, n, m);
    let statements = seq![statement];
    let first = outcome->Ok_0@[0];
    assert(statement_outcome(statements[0], first, factory));
    let serieses = seq![series];
    assert(serieses_outcome(serieses, first, factory));
    match first {
        Ok(dataframes) => {
            assert(series_outcome(
                serieses[0],
                Ok::<TaggedDataframe<DF>, ResponseError>(dataframes@[0]),
                factory,
            ));
        },
        Err(error) => {
            let j = choose|j: int|
                0 <= j < serieses.len() && #[trigger] series_outcome(
                    serieses[j],
                    Err::<TaggedDataframe<DF>, ResponseError>(error),
                    factory,
                );
            assert(serieses[j] == series);
            assert(false);
        },
    }
}

/// A statement that carries an error comes to that error, whatever series
/// it carries besides.
pub proof fn law_error_statement_yields_error<
    DF,
    F: Fn(String, Vec<Instant>, NameMap<Vec<Value>>) -> Result<DF, ResponseError>,
>(statement: OutcomeView, outcome: StatementResult<DF>, factory: F)
    requires
        statement.error is Some,
    ensures
        statement_outcome(statement, outcome, factory) <==> outcome is Err && outcome->Err_0@
            == ResponseErrorView::StatementError(statement.error->Some_0),
{
}

/// A statement with neither series nor error comes to an empty list of
/// dataframes.
pub proof fn law_empty_statement_yields_empty_list<
    DF,
    F: Fn(String, Vec<Instant>, NameMap<Vec<Value>>) -> Result<DF, ResponseError>,
>(statement: OutcomeView, outcome: StatementResult<DF>, factory: F)
    requires
        statement.error is None,
        statement.series is None,
    ensures
        statement_outcome(statement, outcome, factory) <==> outcome is Ok && outcome->Ok_0@.len()
            == 0,
{
}

/// A response whose envelope is an error comes to that error for the whole
/// response, and to no list of statement outcomes.
pub proof fn law_error_envelope_yields_response_error<
    DF,
    F: Fn(String, Vec<Instant>, NameMap<Vec<Value>>) -> Result<DF, ResponseError>,
>(message: Seq<char>, outcome: ResponseResult<DF>, factory: F)
    ensures
        response_outcome(ResponseView::Error(message), outcome, factory) <==> outcome is Err
            && outcome->Err_0@ == ResponseErrorView::ResponseError(message),
{
}

/// Whether what `factory` returns depends on nothing but the table that it
/// is handed: `build` says, for each table, the error or what `model` shows
/// of the dataframe.
pub open spec fn is_function_of_table<
    DF,
    M,
    F: Fn(String, Vec<Instant>, NameMap<Vec<Value>>) -> Result<DF, ResponseError>,
>(factory: F, model: spec_fn(DF) -> M, build: spec_fn(TableView) -> Result<M, ResponseErrorView>) -> bool {
    forall|
        name: String,
        index: Vec<Instant>,
        columns: NameMap<Vec<Value>>,
        table: TableView,
        product: Result<DF, ResponseError>,
    |
        #![trigger holds_table(name, index, columns, table), call_ensures(factory, (name, index, columns), product)]
        holds_table(name, index, columns, table) && call_ensures(
            factory,
            (name, index, columns),
            product,
        ) ==> match product {
            Ok(dataframe) => build(table) == Ok::<M, ResponseErrorView>(model(dataframe)),
            Err(error) => build(table) == Err::<M, ResponseErrorView>(error@),
        }
}

/// What tags hold: their names in order, and the value of each.
pub open spec fn tags_model(tags: Option<TagsMap>) -> Option<
    (Seq<Seq<char>>, Map<Seq<char>, Seq<char>>),
> {
    match tags {
        Some(tags) => Some((tags.names(), tag_texts(tags))),
        None => None,
    }
}

/// What the outcome of one series holds.
pub open spec fn series_model<DF, M>(
    outcome: Result<TaggedDataframe<DF>, ResponseError>,
    model: spec_fn(DF) -> M,
) -> Result<(M, Option<(Seq<Seq<char>>, Map<Seq<char>, Seq<char>>)>), ResponseErrorView> {
    match outcome {
        Ok(made) => Ok((model(made.0), tags_model(made.1))),
        Err(error) => Err(error@),
    }
}

/// What the outcome of one statement holds.
pub open spec fn statement_model<DF, M>(outcome: StatementResult<DF>, model: spec_fn(DF) -> M) -> Result<
    Seq<(M, Option<(Seq<Seq<char>>, Map<Seq<char>, Seq<char>>)>)>,
    ResponseErrorView,
> {
    match outcome {
        Ok(dataframes) => Ok(
            Seq::new(
                dataframes@.len(),
                |j: int| (model(dataframes@[j].0), tags_model(dataframes@[j].1)),
            ),
        ),
        Err(error) => Err(error@),
    }
}

/// What the outcome of a response holds.
pub open spec fn response_model<DF, M>(outcome: ResponseResult<DF>, model: spec_fn(DF) -> M) -> Result<
    Seq<Result<Seq<(M, Option<(Seq<Seq<char>>, Map<Seq<char>, Seq<char>>)>)>, ResponseErrorView>>,
    ResponseErrorView,
> {
    match outcome {
        Ok(statements) => Ok(
            Seq::new(statements@.len(), |i: int| statement_model(statements@[i], model)),
        ),
        Err(error) => Err(error@),
    }
}

/// Two parsings of one series, with a factory whose product depends on the
/// table alone, hold the same.
pub proof fn lemma_series_is_repeatable<
    DF,
    M,
    F: Fn(String, Vec<Instant>, NameMap<Vec<Value>>) -> Result<DF, ResponseError>,
>(
    series: SeriesView,
    first: Result<TaggedDataframe<DF>, ResponseError>,
    second: Result<TaggedDataframe<DF>, ResponseError>,
    factory: F,
    model: spec_fn(DF) -> M,
    build: spec_fn(TableView) -> Result<M, ResponseErrorView>,
)
    requires
        is_function_of_table(factory, model, build),
        series_outcome(series, first, factory),
        series_outcome(series, second, factory),
    ensures
        series_model(first, model) == series_model(second, model),
{
    match table_of(series.name, series.columns, series.values) {
        Err(_) => {},
        Ok(table) => {
            lemma_product_is_built(first, table, factory, model, build);
            lemma_product_is_built(second, table, factory, model, build);
        },
    }
}

/// What a factory whose product depends on the table alone made of a table
/// is what `build` says.
pub proof fn lemma_product_is_built<
    DF,
    M,
    F: Fn(String, Vec<Instant>, NameMap<Vec<Value>>) -> Result<DF, ResponseError>,
>(
    outcome: Result<TaggedDataframe<DF>, ResponseError>,
    table: TableView,
    factory: F,
    model: spec_fn(DF) -> M,
    build: spec_fn(TableView) -> Result<M, ResponseErrorView>,
)
    requires
        is_function_of_table(factory, model, build),
        match outcome {
            Ok(made) => made_by(factory, table, Ok::<DF, ResponseError>(made.0)),
            Err(error) => made_by(factory, table, Err::<DF, ResponseError>(error)),
        },
    ensures
        match outcome {
            Ok(made) => build(table) == Ok::<M, ResponseErrorView>(model(made.0)),
            Err(error) => build(table) == Err::<M, ResponseErrorView>(error@),
        },
{
    let product = match outcome {
        Ok(made) => Ok::<DF, ResponseError>(made.0),
        Err(error) => Err::<DF, ResponseError>(error),
    };
    let (name, index, columns) = choose|
        name: String,
        index: Vec<Instant>,
        columns: NameMap<Vec<Value>>,
    |
        holds_table(name, index, columns, table) && #[trigger] call_ensures(
            factory,
            (name, index, columns),
            product,
        );
    assert(holds_table(name, index, columns, table));
    assert(call_ensures(factory, (name, index, columns), product));
}

/// Two parsings of the series of one statement, with a factory whose
/// product depends on the table alone, hold the same.
pub proof fn lemma_serieses_are_repeatable<
    DF,
    M,
    F: Fn(String, Vec<Instant>, NameMap<Vec<Value>>) -> Result<DF, ResponseError>,
>(
    serieses: Seq<SeriesView>,
    first: StatementResult<DF>,
    second: StatementResult<DF>,
    factory: F,
    model: spec_fn(DF) -> M,
    build: spec_fn(TableView) -> Result<M, ResponseErrorView>,
)
    requires
        is_function_of_table(factory, model, build),
        serieses_outcome(serieses, first, factory),
        serieses_outcome(serieses, second, factory),
    ensures
        statement_model(first, model) == statement_model(second, model),
{
    match (first, second) {
        (Ok(a), Ok(b)) => {
            assert forall|j: int| 0 <= j < serieses.len() implies (
                model(a@[j].0),
                tags_model(a@[j].1),
            ) == (model(b@[j].0), tags_model(b@[j].1)) by {
                lemma_series_is_repeatable(
                    serieses[j],
                    Ok::<TaggedDataframe<DF>, ResponseError>(a@[j]),
                    Ok::<TaggedDataframe<DF>, ResponseError>(b@[j]),
                    factory,
                    model,
                    build,
                );
            }
            assert(statement_model(first, model)->Ok_0 =~= statement_model(second, model)->Ok_0);
        },
        (Ok(a), Err(e)) => {
            let j = failing_series(serieses, e, factory);
            lemma_series_is_repeatable(
                serieses[j],
                Ok::<TaggedDataframe<DF>, ResponseError>(a@[j]),
                Err::<TaggedDataframe<DF>, ResponseError>(e),
                factory,
                model,
                build,
            );
        },
        (Err(e), Ok(b)) => {
            let j = failing_series(serieses, e, factory);
            lemma_series_is_repeatable(
                serieses[j],
                Err::<TaggedDataframe<DF>, ResponseError>(e),
                Ok::<TaggedDataframe<DF>, ResponseError>(b@[j]),
                factory,
                model,
                build,
            );
        },
        (Err(d), Err(e)) => {
            let i = failing_series(serieses, d, factory);
            let j = failing_series(serieses, e, factory);
            if i < j {
                lemma_failure_excludes_success(serieses[i], d, factory, model, build);
            } else if j < i {
                lemma_failure_excludes_success(serieses[j], e, factory, model, build);
            } else {
                lemma_series_is_repeatable(
                    serieses[i],
                    Err::<TaggedDataframe<DF>, ResponseError>(d),
                    Err::<TaggedDataframe<DF>, ResponseError>(e),
                    factory,
                    model,
                    build,
                );
            }
        },
    }
}

/// The place of the series whose failure a statement's error is.
pub open spec fn failing_series<
    DF,
    F: Fn(String, Vec<Instant>, NameMap<Vec<Value>>) -> Result<DF, ResponseError>,
>(serieses: Seq<SeriesView>, error: ResponseError, factory: F) -> int {
    choose|j: int|
        0 <= j < serieses.len() && #[trigger] series_outcome(
            serieses[j],
            Err::<TaggedDataframe<DF>, ResponseError>(error),
            factory,
        ) && forall|k: int| 0 <= k < j ==> series_succeeds::<DF, F>(#[trigger] serieses[k], factory)
}

/// With a factory whose product depends on the table alone, a series that
/// fails cannot succeed.
pub proof fn lemma_failure_excludes_success<
    DF,
    M,
    F: Fn(String, Vec<Instant>, NameMap<Vec<Value>>) -> Result<DF, ResponseError>,
>(
    series: SeriesView,
    error: ResponseError,
    factory: F,
    model: spec_fn(DF) -> M,
    build: spec_fn(TableView) -> Result<M, ResponseErrorView>,
)
    requires
        is_function_of_table(factory, model, build),
        series_outcome(series, Err::<TaggedDataframe<DF>, ResponseError>(error), factory),
    ensures
        !series_succeeds::<DF, F>(series, factory),
{
    if series_succeeds::<DF, F>(series, factory) {
        let made = choose|made: TaggedDataframe<DF>| #[trigger]
            series_outcome(series, Ok::<TaggedDataframe<DF>, ResponseError>(made), factory);
        lemma_series_is_repeatable(
            series,
            Err::<TaggedDataframe<DF>, ResponseError>(error),
            Ok::<TaggedDataframe<DF>, ResponseError>(made),
            factory,
            model,
            build,
        );
    }
}

/// Parsing a response twice, with a factory whose product depends on the
/// table alone, yields results that hold the same: the same error, or as
/// many statement outcomes, each with the same error or with dataframes
/// that show the same and have the same tags.
pub proof fn law_parsing_is_repeatable<
    DF,
    M,
    F: Fn(String, Vec<Instant>, NameMap<Vec<Value>>) -> Result<DF, ResponseError>,
>(
    response: ResponseView,
    first: ResponseResult<DF>,
    second: ResponseResult<DF>,
    factory: F,
    model: spec_fn(DF) -> M,
    build: spec_fn(TableView) -> Result<M, ResponseErrorView>,
)
    requires
        is_function_of_table(factory, model, build),
        response_outcome(response, first, factory),
        response_outcome(response, second, factory),
    ensures
        response_model(first, model) == response_model(second, model),
{
    match response {
        ResponseView::Error(_) => {},
        ResponseView::Results(statements) => {
            let a = first->Ok_0@;
            let b = second->Ok_0@;
            assert forall|i: int| 0 <= i < statements.len() implies statement_model(a[i], model)
                == statement_model(b[i], model) by {
                assert(statement_outcome(statements[i], a[i], factory));
                assert(statement_outcome(statements[i], b[i], factory));
                match statements[i].error {
                    Some(_) => {},
                    None => match statements[i].series {
                        Some(serieses) => {
                            lemma_serieses_are_repeatable(
                                serieses,
                                a[i],
                                b[i],
                                factory,
                                model,
                                build,
                            );
                        },
                        None => {
                            assert(statement_model(a[i], model)->Ok_0 =~= statement_model(
                                b[i],
                                model,
                            )->Ok_0);
                        },
                    },
                }
            }
            assert(response_model(first, model)->Ok_0 =~= response_model(second, model)->Ok_0);
        },
    }
}

/// Two readings of one text hold the same response.
pub proof fn law_decoding_is_repeatable(text: Seq<char>, first: Response, second: Response)
    requires
        response_of_text(text) == Some(first@),
        response_of_text(text) == Some(second@),
    ensures
        first@ == second@,
{
}

} // verus!
