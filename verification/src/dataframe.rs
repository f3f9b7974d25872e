//! A plain dataframe: a time index and named columns, each of one type.

use vstd::prelude::*;
use vstd::std_specs::convert::TryFromSpecImpl;

use crate::influxql::error::{ResponseError, ResponseErrorView};
use crate::influxql::envelope::SeriesView;
use crate::influxql::laws::{is_function_of_table, is_regular, law_regular_series_makes_table};
use crate::influxql::series::table_of;
use crate::influxql::series::{column_views, TableView};
use crate::types::results::{
    collected, lemma_collected_error, lemma_collected_items, lemma_collected_ok,
};
use crate::types::value::{float_bits_of, integer_of, is_number};
use crate::types::{DataFrameError, Float64, Instant, NameMap, Value, ValueView};

verus! {

/// Column type
#[derive(Debug, PartialEq)]
pub enum Column {
    /// A column of floating point values
    Float(Vec<Float64>),
    /// A column of integer values
    Integer(Vec<i64>),
    /// A column of unsigned integer values
    UnsignedInteger(Vec<u64>),
    /// A column of string values
    String(Vec<String>),
    /// A column of boolean values
    Boolean(Vec<bool>),
    /// A column of datetime values
    Timestamp(Vec<Instant>),
}

/// What a `Column` holds.
pub enum ColumnView {
    Float(Seq<Float64>),
    Integer(Seq<i64>),
    UnsignedInteger(Seq<u64>),
    String(Seq<Seq<char>>),
    Boolean(Seq<bool>),
    Timestamp(Seq<Instant>),
}

impl ColumnView {
    /// The number of values in the column.
    pub open spec fn len(self) -> nat {
        match self {
            ColumnView::Float(values) => values.len(),
            ColumnView::Integer(values) => values.len(),
            ColumnView::UnsignedInteger(values) => values.len(),
            ColumnView::String(values) => values.len(),
            ColumnView::Boolean(values) => values.len(),
            ColumnView::Timestamp(values) => values.len(),
        }
    }
}

impl DeepView for Column {
    type V = ColumnView;

    open spec fn deep_view(&self) -> ColumnView {
        match *self {
            Column::Float(values) => ColumnView::Float(values@),
            Column::Integer(values) => ColumnView::Integer(values@),
            Column::UnsignedInteger(values) => ColumnView::UnsignedInteger(values@),
            Column::String(values) => ColumnView::String(values.deep_view()),
            Column::Boolean(values) => ColumnView::Boolean(values@),
            Column::Timestamp(values) => ColumnView::Timestamp(values@),
        }
    }
}

impl View for Column {
    type V = ColumnView;

    open spec fn view(&self) -> ColumnView {
        self.deep_view()
    }
}

impl Clone for Column {
    fn clone(&self) -> (copy: Column)
        ensures
            copy@ == self@,
    {
        match self {
            Column::Float(values) => Column::Float(values.clone()),
            Column::Integer(values) => Column::Integer(values.clone()),
            Column::UnsignedInteger(values) => Column::UnsignedInteger(values.clone()),
            Column::String(values) => {
                let copy = values.clone();
                proof {
                    assert(copy.deep_view() =~= values.deep_view());
                }
                Column::String(copy)
            },
            Column::Boolean(values) => Column::Boolean(values.clone()),
            Column::Timestamp(values) => Column::Timestamp(values.clone()),
        }
    }
}

impl Column {
    /// The number of values in the column.
    pub fn len(&self) -> (n: usize)
        ensures
            n == self@.len(),
    {
        match self {
            Column::Float(values) => values.len(),
            Column::Integer(values) => values.len(),
            Column::UnsignedInteger(values) => values.len(),
            Column::String(values) => values.len(),
            Column::Boolean(values) => values.len(),
            Column::Timestamp(values) => values.len(),
        }
    }
}

/// The error of a value that does not fit the type of its column.
pub open spec fn misfit() -> ResponseErrorView {
    ResponseErrorView::DataFrameError(DataFrameError::Creation)
}

/// The error of a column without values.
pub open spec fn empty_column() -> ResponseErrorView {
    ResponseErrorView::ValueError("empty column"@)
}

/// The column that a list of values makes.
///
/// The first value decides the type of the column, and every value is
/// narrowed to that type: to a floating point column any number, to an
/// integer column any number, to every other column only values of its own
/// kind. A list without values makes no column.
pub open spec fn typed_column(values: Seq<ValueView>) -> Result<ColumnView, ResponseErrorView> {
    if values.len() == 0 {
        Err(empty_column())
    } else {
        match values[0] {
            ValueView::Float(_) => if forall|i: int|
                0 <= i < values.len() ==> is_number(#[trigger] values[i]) {
                Ok(
                    ColumnView::Float(
                        Seq::new(
                            values.len(),
                            |i: int| Float64 { bits: float_bits_of(values[i]) as u64 },
                        ),
                    ),
                )
            } else {
                Err(misfit())
            },
            ValueView::Integer(_) => if forall|i: int|
                0 <= i < values.len() ==> is_number(#[trigger] values[i]) {
                Ok(ColumnView::Integer(Seq::new(values.len(), |i: int| integer_of(values[i]) as i64)))
            } else {
                Err(misfit())
            },
            ValueView::UnsignedInteger(_) => if forall|i: int|
                0 <= i < values.len() ==> (#[trigger] values[i]) is UnsignedInteger {
                Ok(
                    ColumnView::UnsignedInteger(
                        Seq::new(values.len(), |i: int| values[i]->UnsignedInteger_0),
                    ),
                )
            } else {
                Err(misfit())
            },
            ValueView::String(_) => if forall|i: int|
                0 <= i < values.len() ==> (#[trigger] values[i]) is String {
                Ok(ColumnView::String(Seq::new(values.len(), |i: int| values[i]->String_0)))
            } else {
                Err(misfit())
            },
            ValueView::Boolean(_) => if forall|i: int|
                0 <= i < values.len() ==> (#[trigger] values[i]) is Boolean {
                Ok(ColumnView::Boolean(Seq::new(values.len(), |i: int| values[i]->Boolean_0)))
            } else {
                Err(misfit())
            },
            ValueView::Timestamp(_) => if forall|i: int|
                0 <= i < values.len() ==> (#[trigger] values[i]) is Timestamp {
                Ok(ColumnView::Timestamp(Seq::new(values.len(), |i: int| values[i]->Timestamp_0)))
            } else {
                Err(misfit())
            },
        }
    }
}

/// A time-indexed dataframe
///
/// A dataframe contains multiple named columns indexed by the same index.
#[derive(Debug, PartialEq)]
pub struct DataFrame {
    name: String,
    index: Vec<Instant>,
    columns: NameMap<Column>,
}

/// What a `DataFrame` holds: its name, its index, the names of its columns
/// and, at the same positions, the columns.
pub struct DataFrameView {
    pub name: Seq<char>,
    pub index: Seq<Instant>,
    pub names: Seq<Seq<char>>,
    pub columns: Seq<ColumnView>,
}

impl DataFrameView {
    /// Whether every column has one value for each instant of the index.
    pub open spec fn is_rectangular(self) -> bool {
        forall|s: int| 0 <= s < self.columns.len() ==> (#[trigger] self.columns[s]).len() == self.index.len()
    }
}

/// The dataframe that a name, an index and lists of values make: each list
/// becomes a typed column. The first list, in the order of the names, that
/// makes no column gives the error.
pub open spec fn dataframe_of(
    name: Seq<char>,
    index: Seq<Instant>,
    names: Seq<Seq<char>>,
    values: Seq<Seq<ValueView>>,
) -> Result<DataFrameView, ResponseErrorView> {
    match collected(Seq::new(values.len(), |s: int| typed_column(values[s]))) {
        Err(error) => Err(error),
        Ok(columns) => Ok(DataFrameView { name, index, names, columns }),
    }
}

impl View for DataFrame {
    type V = DataFrameView;

    closed spec fn view(&self) -> DataFrameView {
        DataFrameView {
            name: self.name@,
            index: self.index@,
            names: self.columns.names(),
            columns: Seq::new(
                self.columns.values().len(),
                |s: int| self.columns.values()[s].deep_view(),
            ),
        }
    }
}

fn misfit_error() -> (error: ResponseError)
    ensures
        error@ == misfit(),
{
    ResponseError::DataFrameError(DataFrameError::Creation)
}

fn float_column(values: Vec<Value>) -> (outcome: Result<Column, ResponseError>)
    requires
        values@.len() > 0,
        values@[0]@ is Float,
    ensures
        match typed_column(values.deep_view()) {
            Ok(column) => outcome is Ok && outcome->Ok_0@ == column,
            Err(error) => outcome is Err && outcome->Err_0@ == error,
        },
{
    let ghost all = values.deep_view();
    let ghost items = values@;
    let mut out: Vec<Float64> = Vec::new();
    for value in it: values.into_iter()
        invariant
            it.seq() == items,
            all.len() == items.len(),
            all.len() > 0,
            all[0] is Float,
            all == values.deep_view(),
            forall|k: int| 0 <= k < items.len() ==> (#[trigger] items[k])@ == all[k],
            out@.len() == it.index(),
            forall|k: int| 0 <= k < it.index() ==> is_number(#[trigger] all[k]),
            forall|k: int| 0 <= k < it.index() ==> (#[trigger] out@[k]).bits == float_bits_of(all[k]),
    {
        assert(value@ == all[it.index() as int]);
        if !value.is_numeric() {
            return Err(misfit_error());
        }
        out.push(value.into_f64());
    }
    proof {
        assert(out@ =~= Seq::new(all.len(), |i: int| Float64 { bits: float_bits_of(all[i]) as u64 }));
    }
    Ok(Column::Float(out))
}

fn integer_column(values: Vec<Value>) -> (outcome: Result<Column, ResponseError>)
    requires
        values@.len() > 0,
        values@[0]@ is Integer,
    ensures
        match typed_column(values.deep_view()) {
            Ok(column) => outcome is Ok && outcome->Ok_0@ == column,
            Err(error) => outcome is Err && outcome->Err_0@ == error,
        },
{
    let ghost all = values.deep_view();
    let ghost items = values@;
    let mut out: Vec<i64> = Vec::new();
    for value in it: values.into_iter()
        invariant
            it.seq() == items,
            all.len() == items.len(),
            all.len() > 0,
            all[0] is Integer,
            all == values.deep_view(),
            forall|k: int| 0 <= k < items.len() ==> (#[trigger] items[k])@ == all[k],
            out@.len() == it.index(),
            forall|k: int| 0 <= k < it.index() ==> is_number(#[trigger] all[k]),
            forall|k: int| 0 <= k < it.index() ==> (#[trigger] out@[k]) == integer_of(all[k]),
    {
        assert(value@ == all[it.index() as int]);
        if !value.is_numeric() {
            return Err(misfit_error());
        }
        out.push(value.into_i64());
    }
    proof {
        assert(out@ =~= Seq::new(all.len(), |i: int| integer_of(all[i]) as i64));
    }
    Ok(Column::Integer(out))
}

fn unsigned_column(values: Vec<Value>) -> (outcome: Result<Column, ResponseError>)
    requires
        values@.len() > 0,
        values@[0]@ is UnsignedInteger,
    ensures
        match typed_column(values.deep_view()) {
            Ok(column) => outcome is Ok && outcome->Ok_0@ == column,
            Err(error) => outcome is Err && outcome->Err_0@ == error,
        },
{
    let ghost all = values.deep_view();
    let ghost items = values@;
    let mut out: Vec<u64> = Vec::new();
    for value in it: values.into_iter()
        invariant
            it.seq() == items,
            all.len() == items.len(),
            all.len() > 0,
            all[0] is UnsignedInteger,
            all == values.deep_view(),
            forall|k: int| 0 <= k < items.len() ==> (#[trigger] items[k])@ == all[k],
            out@.len() == it.index(),
            forall|k: int| 0 <= k < it.index() ==> (#[trigger] all[k]) is UnsignedInteger,
            forall|k: int| 0 <= k < it.index() ==> (#[trigger] out@[k]) == all[k]->UnsignedInteger_0,
    {
        assert(value@ == all[it.index() as int]);
        match value {
            Value::UnsignedInteger(number) => {
                out.push(number);
            },
            _ => {
                return Err(misfit_error());
            },
        }
    }
    proof {
        assert(out@ =~= Seq::new(all.len(), |i: int| all[i]->UnsignedInteger_0));
    }
    Ok(Column::UnsignedInteger(out))
}

fn string_column(values: Vec<Value>) -> (outcome: Result<Column, ResponseError>)
    requires
        values@.len() > 0,
        values@[0]@ is String,
    ensures
        match typed_column(values.deep_view()) {
            Ok(column) => outcome is Ok && outcome->Ok_0@ == column,
            Err(error) => outcome is Err && outcome->Err_0@ == error,
        },
{
    let ghost all = values.deep_view();
    let ghost items = values@;
    let mut out: Vec<String> = Vec::new();
    for value in it: values.into_iter()
        invariant
            it.seq() == items,
            all.len() == items.len(),
            all.len() > 0,
            all[0] is String,
            all == values.deep_view(),
            forall|k: int| 0 <= k < items.len() ==> (#[trigger] items[k])@ == all[k],
            out@.len() == it.index(),
            forall|k: int| 0 <= k < it.index() ==> (#[trigger] all[k]) is String,
            forall|k: int| 0 <= k < it.index() ==> (#[trigger] out@[k])@ == all[k]->String_0,
    {
        assert(value@ == all[it.index() as int]);
        match value {
            Value::String(text) => {
                out.push(text);
            },
            _ => {
                return Err(misfit_error());
            },
        }
    }
    proof {
        assert(out.deep_view() =~= Seq::new(all.len(), |i: int| all[i]->String_0));
    }
    Ok(Column::String(out))
}

fn boolean_column(values: Vec<Value>) -> (outcome: Result<Column, ResponseError>)
    requires
        values@.len() > 0,
        values@[0]@ is Boolean,
    ensures
        match typed_column(values.deep_view()) {
            Ok(column) => outcome is Ok && outcome->Ok_0@ == column,
            Err(error) => outcome is Err && outcome->Err_0@ == error,
        },
{
    let ghost all = values.deep_view();
    let ghost items = values@;
    let mut out: Vec<bool> = Vec::new();
    for value in it: values.into_iter()
        invariant
            it.seq() == items,
            all.len() == items.len(),
            all.len() > 0,
            all[0] is Boolean,
            all == values.deep_view(),
            forall|k: int| 0 <= k < items.len() ==> (#[trigger] items[k])@ == all[k],
            out@.len() == it.index(),
            forall|k: int| 0 <= k < it.index() ==> (#[trigger] all[k]) is Boolean,
            forall|k: int| 0 <= k < it.index() ==> (#[trigger] out@[k]) == all[k]->Boolean_0,
    {
        assert(value@ == all[it.index() as int]);
        match value {
            Value::Boolean(flag) => {
                out.push(flag);
            },
            _ => {
                return Err(misfit_error());
            },
        }
    }
    proof {
        assert(out@ =~= Seq::new(all.len(), |i: int| all[i]->Boolean_0));
    }
    Ok(Column::Boolean(out))
}

fn timestamp_column(values: Vec<Value>) -> (outcome: Result<Column, ResponseError>)
    requires
        values@.len() > 0,
        values@[0]@ is Timestamp,
    ensures
        match typed_column(values.deep_view()) {
            Ok(column) => outcome is Ok && outcome->Ok_0@ == column,
            Err(error) => outcome is Err && outcome->Err_0@ == error,
        },
{
    let ghost all = values.deep_view();
    let ghost items = values@;
    let mut out: Vec<Instant> = Vec::new();
    for value in it: values.into_iter()
        invariant
            it.seq() == items,
            all.len() == items.len(),
            all.len() > 0,
            all[0] is Timestamp,
            all == values.deep_view(),
            forall|k: int| 0 <= k < items.len() ==> (#[trigger] items[k])@ == all[k],
            out@.len() == it.index(),
            forall|k: int| 0 <= k < it.index() ==> (#[trigger] all[k]) is Timestamp,
            forall|k: int| 0 <= k < it.index() ==> (#[trigger] out@[k]) == all[k]->Timestamp_0,
    {
        assert(value@ == all[it.index() as int]);
        match value {
            Value::Timestamp(instant) => {
                out.push(instant);
            },
            _ => {
                return Err(misfit_error());
            },
        }
    }
    proof {
        assert(out@ =~= Seq::new(all.len(), |i: int| all[i]->Timestamp_0));
    }
    Ok(Column::Timestamp(out))
}

impl Column {
    /// Makes a typed column of a list of values: the first value decides the
    /// type, and every value is narrowed to it.
    pub fn from_values(values: Vec<Value>) -> (outcome: Result<Column, ResponseError>)
        ensures
            match typed_column(values.deep_view()) {
                Ok(column) => outcome is Ok && outcome->Ok_0@ == column,
                Err(error) => outcome is Err && outcome->Err_0@ == error,
            },
    {
        if values.len() == 0 {
            return Err(ResponseError::ValueError("empty column".to_owned()));
        }
        assert(values.deep_view()[0] == values@[0]@);
        match &values[0] {
            Value::Float(_) => float_column(values),
            Value::Integer(_) => integer_column(values),
            Value::UnsignedInteger(_) => unsigned_column(values),
            Value::String(_) => string_column(values),
            Value::Boolean(_) => boolean_column(values),
            Value::Timestamp(_) => timestamp_column(values),
        }
    }
}

impl DataFrame {
    /// Makes a dataframe of a name, an index and, under the names of the
    /// columns, lists of values.
    pub fn from_parts(name: String, index: Vec<Instant>, columns: NameMap<Vec<Value>>) -> (outcome:
        Result<DataFrame, ResponseError>)
        ensures
            match dataframe_of(name@, index@, columns.names(), column_views(columns.values())) {
                Ok(dataframe) => outcome is Ok && outcome->Ok_0@ == dataframe,
                Err(error) => outcome is Err && outcome->Err_0@ == error,
            },
    {
        let ghost names = columns.names();
        let ghost lists = column_views(columns.values());
        let ghost results = Seq::new(lists.len(), |s: int| typed_column(lists[s]));
        let entries = columns.into_entries();
        let ghost items = entries@;
        let mut typed: NameMap<Column> = NameMap::new();
        let ghost mut made: Seq<ColumnView> = Seq::empty();
        for entry in it: entries.into_iter()
            invariant
                it.seq() == items,
                items == columns.entries(),
                names == columns.names(),
                names.no_duplicates(),
                lists == column_views(columns.values()),
                results == Seq::new(lists.len(), |s: int| typed_column(lists[s])),
                typed.names() == names.take(it.index() as int),
                made.len() == it.index(),
                forall|s: int| 0 <= s < it.index() ==> #[trigger] results[s] == Ok::<
                    ColumnView,
                    ResponseErrorView,
                >(made[s]),
                forall|s: int|
                    0 <= s < it.index() ==> (#[trigger] typed.values()[s]).deep_view() == made[s],
        {
            let ghost at = it.index() as int;
            let (column_name, values) = entry;
            assert(values.deep_view() == lists[at]);
            assert(column_name@ == names[at]);
            let column = match Column::from_values(values) {
                Ok(column) => column,
                Err(error) => {
                    proof {
                        lemma_collected_error(results, at, error@);
                    }
                    return Err(error);
                },
            };
            proof {
                assert(!names.take(at).contains(names[at])) by {
                    if names.take(at).contains(names[at]) {
                        let k = choose|k: int| 0 <= k < at && names.take(at)[k] == names[at];
                        assert(names[k] == names[at]);
                    }
                }
                assert(names.take(at + 1) =~= names.take(at).push(names[at]));
                made = made.push(column@);
            }
            typed.insert(column_name, column);
        }
        proof {
            assert(names.take(names.len() as int) =~= names);
            lemma_collected_ok(results, made);
        }
        let dataframe = DataFrame { name, index, columns: typed };
        proof {
            assert(dataframe@.columns =~= made);
        }
        Ok(dataframe)
    }

    /// The name of the dataframe.
    pub fn name(&self) -> (name: &String)
        ensures
            name@ == self@.name,
    {
        &self.name
    }

    /// The time index of the dataframe.
    pub fn index(&self) -> (index: &Vec<Instant>)
        ensures
            index@ == self@.index,
    {
        &self.index
    }

    /// The number of columns.
    pub fn width(&self) -> (n: usize)
        ensures
            n == self@.names.len(),
            n == self@.columns.len(),
    {
        self.columns.len()
    }

    /// Whether every column has one value for each instant of the index.
    pub fn is_rectangular(&self) -> (rectangular: bool)
        ensures
            rectangular == self@.is_rectangular(),
    {
        let height = self.index.len();
        let mut s: usize = 0;
        while s < self.columns.len()
            invariant
                s <= self@.columns.len(),
                height == self@.index.len(),
                self@.columns.len() == self.columns.names().len(),
                forall|k: int| 0 <= k < s ==> (#[trigger] self@.columns[k]).len() == height,
            decreases self@.columns.len() - s,
        {
            let column = self.columns.value_at(s);
            assert(column@ == self@.columns[s as int]);
            if column.len() != height {
                return false;
            }
            s += 1;
        }
        true
    }

    /// The name of the column at position `s`.
    pub fn column_name(&self, s: usize) -> (name: &String)
        requires
            s < self@.names.len(),
        ensures
            name@ == self@.names[s as int],
    {
        self.columns.name_at(s)
    }

    /// The column at position `s`.
    pub fn column_at(&self, s: usize) -> (column: &Column)
        requires
            s < self@.columns.len(),
        ensures
            column@ == self@.columns[s as int],
    {
        self.columns.value_at(s)
    }

    /// The column called `name`.
    pub fn column(&self, name: &str) -> (found: Option<&Column>)
        ensures
            match found {
                Some(column) => exists|s: int|
                    0 <= s < self@.names.len() && self@.names[s] == name@ && #[trigger] self@.columns[s]
                        == column@,
                None => !self@.names.contains(name@),
            },
    {
        match self.columns.position(name) {
            Some(s) => {
                let column = self.columns.value_at(s);
                assert(self@.columns[s as int] == column@);
                Some(column)
            },
            None => None,
        }
    }
}

/// Whether two values are of the same kind.
pub open spec fn same_kind(a: ValueView, b: ValueView) -> bool {
    match a {
        ValueView::Float(_) => b is Float,
        ValueView::Integer(_) => b is Integer,
        ValueView::UnsignedInteger(_) => b is UnsignedInteger,
        ValueView::String(_) => b is String,
        ValueView::Boolean(_) => b is Boolean,
        ValueView::Timestamp(_) => b is Timestamp,
    }
}

/// Whether a list holds values, all of one kind.
pub open spec fn is_uniform(values: Seq<ValueView>) -> bool {
    values.len() > 0 && forall|i: int|
        0 <= i < values.len() ==> same_kind(values[0], #[trigger] values[i])
}

/// A list of values of one kind makes a column.
pub proof fn law_uniform_list_makes_column(values: Seq<ValueView>)
    requires
        is_uniform(values),
    ensures
        typed_column(values) is Ok,
{
    assert forall|i: int| 0 <= i < values.len() implies same_kind(values[0], #[trigger] values[i])
        by {}
}

/// Lists of values that are each of one kind make a dataframe.
pub proof fn law_uniform_lists_make_dataframe(
    name: Seq<char>,
    index: Seq<Instant>,
    names: Seq<Seq<char>>,
    values: Seq<Seq<ValueView>>,
)
    requires
        forall|s: int| 0 <= s < values.len() ==> is_uniform(#[trigger] values[s]),
    ensures
        dataframe_of(name, index, names, values) is Ok,
{
    let results = Seq::new(values.len(), |s: int| typed_column(values[s]));
    let columns = Seq::new(values.len(), |s: int| typed_column(values[s])->Ok_0);
    assert forall|s: int| 0 <= s < results.len() implies #[trigger] results[s] == Ok::<
        ColumnView,
        ResponseErrorView,
    >(columns[s]) by {
        law_uniform_list_makes_column(values[s]);
    }
    lemma_collected_ok(results, columns);
}

/// A typed column has as many values as the list that it was made of.
pub proof fn law_typed_column_keeps_length(values: Seq<ValueView>)
    requires
        typed_column(values) is Ok,
    ensures
        typed_column(values)->Ok_0.len() == values.len(),
{
}

/// A dataframe keeps the name, the index and the names of the columns that
/// it was made of, and has a column for every list of values, of the list's
/// length. Made of lists that are as long as the index, it is rectangular.
pub proof fn law_dataframe_keeps_shape(
    name: Seq<char>,
    index: Seq<Instant>,
    names: Seq<Seq<char>>,
    values: Seq<Seq<ValueView>>,
)
    requires
        dataframe_of(name, index, names, values) is Ok,
    ensures
        ({
            let dataframe = dataframe_of(name, index, names, values)->Ok_0;
            &&& dataframe.name == name
            &&& dataframe.index == index
            &&& dataframe.names == names
            &&& dataframe.columns.len() == values.len()
            &&& forall|s: int|
                0 <= s < values.len() ==> (#[trigger] dataframe.columns[s]).len() == values[s].len()
            &&& (forall|s: int| 0 <= s < values.len() ==> (#[trigger] values[s]).len() == index.len())
                ==> dataframe.is_rectangular()
        }),
{
    let results = Seq::new(values.len(), |s: int| typed_column(values[s]));
    lemma_collected_items(results);
    let dataframe = dataframe_of(name, index, names, values)->Ok_0;
    assert forall|s: int| 0 <= s < values.len() implies (#[trigger] dataframe.columns[s]).len()
        == values[s].len() by {
        assert(results[s] == Ok::<ColumnView, ResponseErrorView>(dataframe.columns[s]));
        law_typed_column_keeps_length(values[s]);
    }
}

/// A dataframe made of a regular series of `n` rows and `m` value columns
/// has an index of `n` instants and `m` columns of `n` values each.
pub proof fn law_regular_series_makes_rectangular_dataframe(series: SeriesView, n: nat, m: nat)
    requires
        is_regular(series, n, m),
        ({
            let table = table_of(series.name, series.columns, series.values)->Ok_0;
            dataframe_of(table.name, table.index, table.names, table.columns) is Ok
        }),
    ensures
        ({
            let table = table_of(series.name, series.columns, series.values)->Ok_0;
            let dataframe = dataframe_of(table.name, table.index, table.names, table.columns)->Ok_0;
            &&& dataframe.name == series.name
            &&& dataframe.index.len() == n
            &&& dataframe.names.len() == m
            &&& dataframe.columns.len() == m
            &&& forall|s: int| 0 <= s < m ==> (#[trigger] dataframe.columns[s]).len() == n
            &&& dataframe.is_rectangular()
        }),
{
    law_regular_series_makes_table(series, n, m);
    let table = table_of(series.name, series.columns, series.values)->Ok_0;
    law_dataframe_keeps_shape(table.name, table.index, table.names, table.columns);
}

/// What `DataFrame::from_parts` returns depends on nothing but the table
/// that it is handed.
pub proof fn law_dataframe_depends_on_table()
    ensures
        is_function_of_table(
            DataFrame::from_parts,
            |dataframe: DataFrame| dataframe@,
            |table: TableView| dataframe_of(table.name, table.index, table.names, table.columns),
        ),
{
}

impl Clone for DataFrame {
    fn clone(&self) -> (copy: DataFrame)
        ensures
            copy@ == self@,
    {
        let copy = DataFrame {
            name: self.name.clone(),
            index: self.index.clone(),
            columns: self.columns.clone(),
        };
        proof {
            assert(copy@.columns =~= self@.columns);
        }
        copy
    }
}

impl TryFrom<(String, Vec<Instant>, NameMap<Vec<Value>>)> for DataFrame {
    type Error = ResponseError;

    fn try_from(parts: (String, Vec<Instant>, NameMap<Vec<Value>>)) -> (outcome: Result<
        Self,
        Self::Error,
    >)
        ensures
            match dataframe_of(
                parts.0@,
                parts.1@,
                parts.2.names(),
                column_views(parts.2.values()),
            ) {
                Ok(dataframe) => outcome is Ok && outcome->Ok_0@ == dataframe,
                Err(error) => outcome is Err && outcome->Err_0@ == error,
            },
    {
        let (name, index, columns) = parts;
        DataFrame::from_parts(name, index, columns)
    }
}

impl TryFromSpecImpl<(String, Vec<Instant>, NameMap<Vec<Value>>)> for DataFrame {
    /// What `try_from` returns is stated in its own contract.
    open spec fn obeys_try_from_spec() -> bool {
        false
    }

    open spec fn try_from_spec(parts: (String, Vec<Instant>, NameMap<Vec<Value>>)) -> Result<
        Self,
        Self::Error,
    > {
        arbitrary()
    }
}

} // verus!
