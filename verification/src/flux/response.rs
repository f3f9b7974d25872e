//! Functions to parse annotated CSV responses from the database

use vstd::prelude::*;

use super::blocks::{blocks_of, csv_records, read_records, split_blocks};
use super::error::{ResponseError, ResponseErrorView};
use super::rows::{
    block_of, read_block, reads_as, ColumnMeta, ColumnMetaView, TableData, TableDataView,
};
use super::types::{ResponseResult, TaggedDataframe};
use crate::influxql::response::{holds_tags, tags_map};
use crate::influxql::series::{column_views, holds_table, TableView};
use crate::text::str_equal;
use crate::types::{Float64, Instant, NameMap, Value, ValueView};

verus! {

/// The names of a key, in order.
pub open spec fn key_names(key: Seq<(Seq<char>, Seq<char>)>) -> Seq<Seq<char>> {
    Seq::new(key.len(), |i: int| key[i].0)
}

/// The measurement that a key names: the cell of its first column called
/// `_measurement`; the empty text where it has none.
pub open spec fn measurement_of(key: Seq<(Seq<char>, Seq<char>)>) -> Seq<char> {
    match key_names(key).index_of_first("_measurement"@) {
        Some(place) => key[place].1,
        None => Seq::empty(),
    }
}

/// Whether one of the columns is called `_value`.
pub open spec fn has_value_column(columns: Seq<ColumnMetaView>) -> bool {
    exists|k: int| 0 <= k < columns.len() && (#[trigger] columns[k]).name == "_value"@
}

/// Numbers as floating point values.
pub open spec fn float_values(numbers: Seq<Float64>) -> Seq<ValueView> {
    Seq::new(numbers.len(), |i: int| ValueView::Float(numbers[i]))
}

/// The table that the rows of one key make: named by the measurement of
/// the key, indexed by the instants of the rows, and with the numbers of
/// the rows as its one column, `_value`, where the block has such a column.
pub open spec fn table_of(columns: Seq<ColumnMetaView>, data: TableDataView) -> TableView {
    if has_value_column(columns) {
        TableView {
            name: measurement_of(data.key),
            index: data.index,
            names: seq!["_value"@],
            columns: seq![float_values(data.values)],
        }
    } else {
        TableView {
            name: measurement_of(data.key),
            index: data.index,
            names: Seq::empty(),
            columns: Seq::empty(),
        }
    }
}

/// The tags of the rows of one key: the key, where it is not empty.
pub open spec fn tags_of(data: TableDataView) -> Option<Seq<(Seq<char>, Seq<char>)>> {
    if data.key.len() == 0 {
        None
    } else {
        Some(data.key)
    }
}

/// The tables of one block with their tags, one for each key, in the order
/// in which the keys first occur; or the first error of the block.
pub open spec fn block_tables(
    records: Seq<Option<Seq<Seq<char>>>>,
    floats: spec_fn(Seq<char>) -> Option<Float64>,
) -> Result<Seq<(TableView, Option<Seq<(Seq<char>, Seq<char>)>>)>, ResponseErrorView> {
    match block_of(records, floats) {
        Err(error) => Err(error),
        Ok((columns, tables)) => Ok(
            Seq::new(tables.len(), |i: int| (table_of(columns, tables[i]), tags_of(tables[i]))),
        ),
    }
}

/// What the blocks of a payload give: the tables of the blocks before the
/// first block that has an error, and that error.
pub struct ReadingView {
    pub tables: Seq<(TableView, Option<Seq<(Seq<char>, Seq<char>)>>)>,
    pub error: Option<ResponseErrorView>,
}

/// What blocks give when they are read in order, up to the first that has
/// an error.
pub open spec fn reading_of(blocks: Seq<Seq<char>>, floats: spec_fn(Seq<char>) -> Option<Float64>) -> ReadingView
    decreases blocks.len(),
{
    if blocks.len() == 0 {
        ReadingView { tables: Seq::empty(), error: None }
    } else {
        let before = reading_of(blocks.drop_last(), floats);
        if before.error is Some {
            before
        } else {
            match block_tables(csv_records(blocks.last()), floats) {
                Ok(tables) => ReadingView { tables: before.tables + tables, error: None },
                Err(error) => ReadingView { tables: before.tables, error: Some(error) },
            }
        }
    }
}

/// Whether `product` is something that `factory` may return when it is
/// handed a name, an index and columns that hold `table`.
pub open spec fn made_by<DF, F: Fn(String, Vec<Instant>, NameMap<Vec<Value>>) -> Result<
    DF,
    ResponseError,
>>(factory: F, table: TableView, product: Result<DF, ResponseError>) -> bool {
    exists|name: String, index: Vec<Instant>, columns: NameMap<Vec<Value>>|
        holds_table(name, index, columns, table) && #[trigger] call_ensures(
            factory,
            (name, index, columns),
            product,
        )
}

/// What the making of one table comes to: the dataframe that the factory
/// made of the table, together with the tags, or the error of the factory.
pub open spec fn table_outcome<DF, F: Fn(String, Vec<Instant>, NameMap<Vec<Value>>) -> Result<
    DF,
    ResponseError,
>>(
    entry: (TableView, Option<Seq<(Seq<char>, Seq<char>)>>),
    outcome: Result<TaggedDataframe<DF>, ResponseError>,
    factory: F,
) -> bool {
    match outcome {
        Ok((dataframe, tags)) => made_by(factory, entry.0, Ok(dataframe)) && holds_tags(
            tags,
            entry.1,
        ),
        Err(error) => made_by(factory, entry.0, Err(error)),
    }
}

/// Whether the factory may return a dataframe for a table.
pub open spec fn table_succeeds<DF, F: Fn(String, Vec<Instant>, NameMap<Vec<Value>>) -> Result<
    DF,
    ResponseError,
>>(entry: (TableView, Option<Seq<(Seq<char>, Seq<char>)>>), factory: F) -> bool {
    exists|made: TaggedDataframe<DF>| #[trigger]
        table_outcome(entry, Ok::<TaggedDataframe<DF>, ResponseError>(made), factory)
}

/// What the parsing of a payload comes to: a dataframe for every table, in
/// order, where no block has an error and the factory makes them all; else
/// the first error, be it the factory's for a table, all tables before it
/// having been made, or that of the first block that has one, all tables
/// before that block having been made.
pub open spec fn reading_outcome<DF, F: Fn(String, Vec<Instant>, NameMap<Vec<Value>>) -> Result<
    DF,
    ResponseError,
>>(reading: ReadingView, outcome: ResponseResult<DF>, factory: F) -> bool {
    match outcome {
        Ok(dataframes) => reading.error is None && dataframes@.len() == reading.tables.len()
            && forall|j: int|
            0 <= j < reading.tables.len() ==> table_outcome(
                reading.tables[j],
                Ok::<TaggedDataframe<DF>, ResponseError>(#[trigger] dataframes@[j]),
                factory,
            ),
        Err(error) => {
            ||| exists|j: int|
                0 <= j < reading.tables.len() && #[trigger] table_outcome(
                    reading.tables[j],
                    Err::<TaggedDataframe<DF>, ResponseError>(error),
                    factory,
                ) && forall|k: int|
                    0 <= k < j ==> table_succeeds::<DF, F>(#[trigger] reading.tables[k], factory)
            ||| reading.error == Some(error@) && forall|k: int|
                0 <= k < reading.tables.len() ==> table_succeeds::<DF, F>(
                    #[trigger] reading.tables[k],
                    factory,
                )
        },
    }
}

/// What `parse_float` reads from each text, where that depends on the text
/// alone.
pub open spec fn float_reader<P: Fn(&str) -> Result<Float64, core::num::ParseFloatError>>(
    parse_float: P,
) -> spec_fn(Seq<char>) -> Option<Float64> {
    choose|floats: spec_fn(Seq<char>) -> Option<Float64>| reads_as(parse_float, floats)
}

/// Whether what `parse_float` returns depends on the text alone.
pub open spec fn is_function_of_text<P: Fn(&str) -> Result<Float64, core::num::ParseFloatError>>(
    parse_float: P,
) -> bool {
    exists|floats: spec_fn(Seq<char>) -> Option<Float64>| reads_as(parse_float, floats)
}

/// Reading a longer list of blocks keeps the tables of a shorter one, and
/// its error where it has one.
pub proof fn lemma_reading_extends(
    blocks: Seq<Seq<char>>,
    shorter: int,
    floats: spec_fn(Seq<char>) -> Option<Float64>,
)
    requires
        0 <= shorter <= blocks.len(),
    ensures
        reading_of(blocks.take(shorter), floats).tables.is_prefix_of(
            reading_of(blocks, floats).tables,
        ),
        reading_of(blocks.take(shorter), floats).error is Some ==> reading_of(blocks, floats)
            == reading_of(blocks.take(shorter), floats),
    decreases blocks.len() - shorter,
{
    if shorter == blocks.len() {
        assert(blocks.take(shorter) =~= blocks);
    } else {
        lemma_reading_extends(blocks, shorter + 1, floats);
        let longer = blocks.take(shorter + 1);
        assert(longer.drop_last() =~= blocks.take(shorter));
        let small = reading_of(blocks.take(shorter), floats).tables;
        let middle = reading_of(longer, floats).tables;
        let all = reading_of(blocks, floats).tables;
        assert(small.is_prefix_of(middle)) by {
            assert(small =~= middle.subrange(0, small.len() as int));
        }
        assert(small =~= all.subrange(0, small.len() as int)) by {
            assert(middle =~= all.subrange(0, middle.len() as int));
        }
    }
}

/// The measurement that a key names.
fn measurement(key: &Vec<(String, String)>) -> (name: String)
    ensures
        name@ == measurement_of(key.deep_view()),
{
    let ghost names = key_names(key.deep_view());
    proof {
        names.index_of_first_ensures("_measurement"@);
    }
    let mut i: usize = 0;
    while i < key.len()
        invariant
            i <= key@.len(),
            names == key_names(key.deep_view()),
            forall|j: int| 0 <= j < i ==> names[j] != "_measurement"@,
        decreases key@.len() - i,
    {
        if str_equal(key[i].0.as_str(), "_measurement") {
            proof {
                names.index_of_first_ensures("_measurement"@);
                assert(names[i as int] == "_measurement"@);
            }
            return key[i].1.clone();
        }
        i += 1;
    }
    String::new()
}

/// Whether one of the columns is called `_value`.
fn has_value(columns: &Vec<ColumnMeta>) -> (found: bool)
    ensures
        found == has_value_column(columns.deep_view()),
{
    let mut i: usize = 0;
    while i < columns.len()
        invariant
            i <= columns@.len(),
            forall|j: int| 0 <= j < i ==> (#[trigger] columns.deep_view()[j]).name != "_value"@,
        decreases columns@.len() - i,
    {
        if str_equal(columns[i].name.as_str(), "_value") {
            assert(columns.deep_view()[i as int].name == "_value"@);
            return true;
        }
        i += 1;
    }
    false
}

/// Numbers as floating point values.
fn floats_as_values(numbers: &Vec<Float64>) -> (values: Vec<Value>)
    ensures
        values.deep_view() == float_values(numbers@),
{
    let mut values: Vec<Value> = Vec::new();
    let mut i: usize = 0;
    while i < numbers.len()
        invariant
            i <= numbers@.len(),
            values@.len() == i,
            forall|j: int| 0 <= j < i ==> (#[trigger] values@[j])@ == ValueView::Float(numbers@[j]),
        decreases numbers@.len() - i,
    {
        values.push(Value::Float(numbers[i]));
        i += 1;
    }
    proof {
        assert(values.deep_view() =~= float_values(numbers@));
    }
    values
}

/// Makes the dataframe of the rows of one key.
fn make_table<DF, F>(with_value: bool, data: TableData, factory: &F, Ghost(columns): Ghost<
    Seq<ColumnMetaView>,
>) -> (outcome: Result<TaggedDataframe<DF>, ResponseError>) where
    F: Fn(String, Vec<Instant>, NameMap<Vec<Value>>) -> Result<DF, ResponseError>,

    requires
        with_value == has_value_column(columns),
        forall|name: String, index: Vec<Instant>, lists: NameMap<Vec<Value>>|
            call_requires(*factory, (name, index, lists)),
    ensures
        table_outcome((table_of(columns, data@), tags_of(data@)), outcome, *factory),
{
    let TableData { key, index, values } = data;
    let name = measurement(&key);
    let mut lists: NameMap<Vec<Value>> = NameMap::new();
    if with_value {
        lists.insert("_value".to_owned(), floats_as_values(&values));
    }
    proof {
        let table = table_of(columns, data@);
        if with_value {
            assert(lists.names() =~= seq!["_value"@]);
            assert(column_views(lists.values()) =~= seq![float_values(values@)]);
        } else {
            assert(column_views(lists.values()) =~= Seq::empty());
        }
        assert(holds_table(name, index, lists, table));
    }
    match factory(name, index, lists) {
        Ok(dataframe) => {
            let tags = if key.len() == 0 {
                None
            } else {
                Some(tags_map(key))
            };
            Ok((dataframe, tags))
        },
        Err(error) => Err(error),
    }
}

/// Parse an annotated CSV response returned from the database to a list of
/// tagged dataframes.
///
/// The payload consists of blocks that empty lines separate; reading stops
/// at the first empty block. Each block begins with four annotation rows,
/// which give the data types, the grouping, the defaults and the names of
/// the columns; the first column of every row is skipped. Of a data row the
/// cells under `_time` are read as instants and those under `_value` as
/// numbers, by `parse_float`; the cells of the columns whose grouping is
/// `true` are the key of the row. The rows of one key make one table, whose
/// tags are the key. For each table `factory` is called with the name, the
/// index and the columns, and the dataframe that it makes is kept.
pub fn from_str<DF, F, P>(input: &str, factory: F, parse_float: P) -> (outcome: ResponseResult<
    DF,
>) where
    F: Fn(String, Vec<Instant>, NameMap<Vec<Value>>) -> Result<DF, ResponseError>,
    P: Fn(&str) -> Result<Float64, core::num::ParseFloatError>,

    requires
        forall|name: String, index: Vec<Instant>, lists: NameMap<Vec<Value>>|
            call_requires(factory, (name, index, lists)),
        forall|text: &str| call_requires(parse_float, (text,)),
        is_function_of_text(parse_float),
    ensures
        reading_outcome(
            reading_of(blocks_of(input@), float_reader(parse_float)),
            outcome,
            factory,
        ),
{
    let ghost floats = float_reader(parse_float);
    let blocks = split_blocks(input);
    let ghost all = blocks.deep_view();
    let ghost whole = reading_of(all, floats);
    let mut dataframes: Vec<TaggedDataframe<DF>> = Vec::new();
    let mut b: usize = 0;
    proof {
        assert(all.take(0) =~= Seq::<Seq<char>>::empty());
    }
    while b < blocks.len()
        invariant
            b <= blocks@.len(),
            all == blocks.deep_view(),
            all == blocks_of(input@),
            whole == reading_of(all, floats),
            floats == float_reader(parse_float),
            reads_as(parse_float, floats),
            forall|name: String, index: Vec<Instant>, lists: NameMap<Vec<Value>>|
                call_requires(factory, (name, index, lists)),
            forall|text: &str| call_requires(parse_float, (text,)),
            reading_of(all.take(b as int), floats).error is None,
            dataframes@.len() == reading_of(all.take(b as int), floats).tables.len(),
            forall|j: int|
                0 <= j < dataframes@.len() ==> table_outcome(
                    reading_of(all.take(b as int), floats).tables[j],
                    Ok::<TaggedDataframe<DF>, ResponseError>(#[trigger] dataframes@[j]),
                    factory,
                ),
        decreases blocks@.len() - b,
    {
        let ghost before = reading_of(all.take(b as int), floats);
        let ghost longer = all.take(b + 1);
        proof {
            assert(longer.drop_last() =~= all.take(b as int));
            assert(longer.last() == blocks@[b as int]@);
            lemma_reading_extends(all, b + 1, floats);
            lemma_reading_extends(all, b as int, floats);
        }
        let records = read_records(blocks[b].as_str());
        let ghost read = csv_records(blocks@[b as int]@);
        let (columns, tables) = match read_block(records, &parse_float, Ghost(floats), Ghost(read)) {
            Ok(parts) => parts,
            Err(error) => {
                proof {
                    assert(reading_of(longer, floats) == (ReadingView {
                        tables: before.tables,
                        error: Some(error@),
                    }));
                    assert forall|k: int| 0 <= k < whole.tables.len() implies table_succeeds::<
                        DF,
                        F,
                    >(#[trigger] whole.tables[k], factory) by {
                        assert(table_outcome(
                            before.tables[k],
                            Ok::<TaggedDataframe<DF>, ResponseError>(dataframes@[k]),
                            factory,
                        ));
                    }
                }
                return Err(error);
            },
        };
        let ghost metas = columns.deep_view();
        let ghost made = block_tables(read, floats)->Ok_0;
        let ghost items = tables@;
        let with_value = has_value(&columns);
        proof {
            assert(reading_of(longer, floats) == (ReadingView {
                tables: before.tables + made,
                error: None,
            }));
            assert((before.tables + made).is_prefix_of(whole.tables));
        }
        for data in it: tables.into_iter()
            invariant
                it.seq() == items,
                all == blocks_of(input@),
                whole == reading_of(all, floats),
                floats == float_reader(parse_float),
                items.len() == made.len(),
                with_value == has_value_column(metas),
                forall|i: int|
                    0 <= i < items.len() ==> #[trigger] made[i] == (
                        table_of(metas, items[i]@),
                        tags_of(items[i]@),
                    ),
                forall|name: String, index: Vec<Instant>, lists: NameMap<Vec<Value>>|
                    call_requires(factory, (name, index, lists)),
                (before.tables + made).is_prefix_of(whole.tables),
                dataframes@.len() == before.tables.len() + it.index(),
                forall|j: int|
                    0 <= j < dataframes@.len() ==> table_outcome(
                        (before.tables + made)[j],
                        Ok::<TaggedDataframe<DF>, ResponseError>(#[trigger] dataframes@[j]),
                        factory,
                    ),
        {
            let ghost at = before.tables.len() + it.index();
            proof {
                assert((before.tables + made)[at] == made[it.index() as int]);
                assert(whole.tables[at] == (before.tables + made)[at]);
            }
            match make_table(with_value, data, &factory, Ghost(metas)) {
                Ok(dataframe) => {
                    dataframes.push(dataframe);
                },
                Err(error) => {
                    proof {
                        assert(table_outcome(
                            whole.tables[at],
                            Err::<TaggedDataframe<DF>, ResponseError>(error),
                            factory,
                        ));
                        assert forall|k: int| 0 <= k < at implies table_succeeds::<DF, F>(
                            #[trigger] whole.tables[k],
                            factory,
                        ) by {
                            assert(whole.tables[k] == (before.tables + made)[k]);
                            assert(table_outcome(
                                (before.tables + made)[k],
                                Ok::<TaggedDataframe<DF>, ResponseError>(dataframes@[k]),
                                factory,
                            ));
                        }
                    }
                    return Err(error);
                },
            }
        }
        b += 1;
    }
    proof {
        assert(all.take(all.len() as int) =~= all);
    }
    Ok(dataframes)
}

} // verus!
