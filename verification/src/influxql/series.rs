//! From the rows of a series to a time index and typed columns.

use vstd::prelude::*;

use super::envelope::{Cell, CellView};
use super::error::{ResponseError, ResponseErrorView};
use crate::types::instant::parsed_instant;
use crate::types::results::{collected, lemma_collected_error, lemma_collected_ok};
use crate::types::{Instant, NameMap, Value, ValueView};

verus! {

/// The value that a cell holds. A number is a signed integer where it is an
/// integer that fits in 64 bits with a sign, else an unsigned integer where
/// it is an integer that fits in 64 bits without one, else a floating point
/// number. `null`, arrays and objects are no values.
pub open spec fn cell_value(cell: CellView) -> Result<ValueView, ResponseErrorView> {
    match cell {
        CellView::Null => Err(ResponseErrorView::ValueError("value is null"@)),
        CellView::Bool(flag) => Ok(ValueView::Boolean(flag)),
        CellView::Number(number) => if number.signed is Some {
            Ok(ValueView::Integer(number.signed.unwrap()))
        } else if number.unsigned is Some {
            Ok(ValueView::UnsignedInteger(number.unsigned.unwrap()))
        } else if number.float is Some {
            Ok(ValueView::Float(number.float.unwrap()))
        } else {
            Err(ResponseErrorView::ValueError("value is an invalid array"@))
        },
        CellView::String(text) => Ok(ValueView::String(text)),
        CellView::Array => Err(ResponseErrorView::ValueError("value is a JSON array"@)),
        CellView::Object => Err(ResponseErrorView::ValueError("value is a JSON object"@)),
    }
}

/// The instant that the first cell of a row holds: the cell is a string, and
/// the string is a date and time.
pub open spec fn cell_instant(cell: CellView) -> Result<Instant, ResponseErrorView> {
    match cell {
        CellView::String(text) => match parsed_instant(text) {
            Some(instant) => Ok(instant),
            None => Err(ResponseErrorView::DatetimeError),
        },
        _ => Err(ResponseErrorView::ValueError("index is not encoded as string"@)),
    }
}

/// How many cells of a row are read as values: those after the first that
/// have a column to go to.
pub open spec fn value_count(columns: Seq<Seq<char>>, row: Seq<CellView>) -> nat {
    if columns.len() == 0 || row.len() == 0 {
        0
    } else if columns.len() <= row.len() {
        (columns.len() - 1) as nat
    } else {
        (row.len() - 1) as nat
    }
}

/// The values of a row, in the order of the cells.
pub open spec fn row_values(columns: Seq<Seq<char>>, row: Seq<CellView>) -> Result<
    Seq<ValueView>,
    ResponseErrorView,
> {
    collected(Seq::new(value_count(columns, row), |j: int| cell_value(row[j + 1])))
}

/// The instant and the values of a row. A row without cells has no instant.
pub open spec fn decoded_row(columns: Seq<Seq<char>>, row: Seq<CellView>) -> Result<
    (Instant, Seq<ValueView>),
    ResponseErrorView,
> {
    if row.len() == 0 {
        Err(ResponseErrorView::ValueError("index is not encoded as string"@))
    } else {
        match cell_instant(row[0]) {
            Err(error) => Err(error),
            Ok(instant) => match row_values(columns, row) {
                Err(error) => Err(error),
                Ok(values) => Ok((instant, values)),
            },
        }
    }
}

/// The rows of a series, decoded in order.
pub open spec fn decoded_rows(columns: Seq<Seq<char>>, rows: Seq<Seq<CellView>>) -> Result<
    Seq<(Instant, Seq<ValueView>)>,
    ResponseErrorView,
> {
    collected(Seq::new(rows.len(), |i: int| decoded_row(columns, rows[i])))
}

/// The names of `names` without repetitions, each at its first place.
pub open spec fn distinct_names(names: Seq<Seq<char>>) -> Seq<Seq<char>>
    decreases names.len(),
{
    if names.len() == 0 {
        names
    } else {
        let before = distinct_names(names.drop_last());
        if before.contains(names.last()) {
            before
        } else {
            before.push(names.last())
        }
    }
}

/// The names of the value columns: all columns but the first, which is the
/// time column.
pub open spec fn value_column_names(columns: Seq<Seq<char>>) -> Seq<Seq<char>> {
    if columns.len() == 0 {
        columns
    } else {
        distinct_names(columns.subrange(1, columns.len() as int))
    }
}

/// The values of one row that stand under a column called `name`. The value
/// at position `j` stands under column `j + 1`.
pub open spec fn cells_under(columns: Seq<Seq<char>>, values: Seq<ValueView>, name: Seq<char>) -> Seq<
    ValueView,
>
    decreases values.len(),
{
    if values.len() == 0 {
        values
    } else {
        let before = cells_under(columns, values.drop_last(), name);
        if columns[values.len() as int] == name {
            before.push(values.last())
        } else {
            before
        }
    }
}

/// The column called `name`: row after row, the values that stand under it.
pub open spec fn column_of(columns: Seq<Seq<char>>, rows: Seq<Seq<ValueView>>, name: Seq<char>) -> Seq<
    ValueView,
>
    decreases rows.len(),
{
    if rows.len() == 0 {
        Seq::empty()
    } else {
        column_of(columns, rows.drop_last(), name) + cells_under(columns, rows.last(), name)
    }
}

/// The instants of decoded rows.
pub open spec fn instants_of(rows: Seq<(Instant, Seq<ValueView>)>) -> Seq<Instant> {
    Seq::new(rows.len(), |i: int| rows[i].0)
}

/// The values of decoded rows.
pub open spec fn values_of(rows: Seq<(Instant, Seq<ValueView>)>) -> Seq<Seq<ValueView>> {
    Seq::new(rows.len(), |i: int| rows[i].1)
}

/// The content of a table: its name, its time index, the names of its
/// columns and, at the same positions, the columns.
pub struct TableView {
    pub name: Seq<char>,
    pub index: Seq<Instant>,
    pub names: Seq<Seq<char>>,
    pub columns: Seq<Seq<ValueView>>,
}

/// The table that the rows of a series make, or the first error met while
/// the cells are read row by row.
pub open spec fn table_of(name: Seq<char>, columns: Seq<Seq<char>>, rows: Seq<Seq<CellView>>) -> Result<
    TableView,
    ResponseErrorView,
> {
    match decoded_rows(columns, rows) {
        Err(error) => Err(error),
        Ok(decoded) => {
            let names = value_column_names(columns);
            Ok(
                TableView {
                    name,
                    index: instants_of(decoded),
                    names,
                    columns: Seq::new(
                        names.len(),
                        |s: int| column_of(columns, values_of(decoded), names[s]),
                    ),
                },
            )
        },
    }
}

/// What the lists of a map of columns hold.
pub open spec fn column_views(values: Seq<Vec<Value>>) -> Seq<Seq<ValueView>> {
    Seq::new(values.len(), |s: int| values[s].deep_view())
}

/// Whether a name, an index and a map of columns hold the content `table`.
pub open spec fn holds_table(
    name: String,
    index: Vec<Instant>,
    columns: NameMap<Vec<Value>>,
    table: TableView,
) -> bool {
    &&& name@ == table.name
    &&& index@ == table.index
    &&& columns.names() == table.names
    &&& column_views(columns.values()) == table.columns
}

/// A name is among the names without repetitions exactly if it is among the
/// names, and no name is there twice.
pub proof fn lemma_distinct_names(names: Seq<Seq<char>>)
    ensures
        distinct_names(names).no_duplicates(),
        forall|name: Seq<char>| #[trigger] distinct_names(names).contains(name) <==> names.contains(name),
    decreases names.len(),
{
    if names.len() > 0 {
        let shorter = names.drop_last();
        lemma_distinct_names(shorter);
        let before = distinct_names(shorter);
        let result = distinct_names(names);
        if !before.contains(names.last()) {
            crate::types::name_map::lemma_push_fresh(before, names.last());
        }
        assert forall|name: Seq<char>| #[trigger] result.contains(name) <==> names.contains(name) by {
            if result.contains(name) {
                let i = choose|i: int| 0 <= i < result.len() && result[i] == name;
                if i < before.len() {
                    assert(before.contains(name));
                    let j = choose|j: int| 0 <= j < shorter.len() && shorter[j] == name;
                    assert(names[j] == name);
                } else {
                    assert(names[names.len() - 1] == name);
                }
            }
            if names.contains(name) {
                let j = choose|j: int| 0 <= j < names.len() && names[j] == name;
                if j < shorter.len() {
                    assert(shorter[j] == name);
                    assert(before.contains(name));
                    let i = choose|i: int| 0 <= i < before.len() && before[i] == name;
                    assert(result[i] == name);
                } else {
                    if before.contains(name) {
                    } else {
                        assert(result[before.len() as int] == name);
                    }
                }
            }
        }
    }
}

/// A row that has got one more value has that value under its column and
/// under no other.
pub proof fn lemma_cells_under_push(
    columns: Seq<Seq<char>>,
    values: Seq<ValueView>,
    value: ValueView,
    name: Seq<char>,
)
    ensures
        cells_under(columns, values.push(value), name) == if columns[values.len() as int + 1] == name {
            cells_under(columns, values, name).push(value)
        } else {
            cells_under(columns, values, name)
        },
{
    assert(values.push(value).drop_last() =~= values);
}

/// A table that has got one more row has, in each column, the values of that
/// row that stand under the column's name at the end.
pub proof fn lemma_column_of_push(
    columns: Seq<Seq<char>>,
    rows: Seq<Seq<ValueView>>,
    row: Seq<ValueView>,
    name: Seq<char>,
)
    ensures
        column_of(columns, rows.push(row), name) == column_of(columns, rows, name) + cells_under(
            columns,
            row,
            name,
        ),
{
    assert(rows.push(row).drop_last() =~= rows);
}

/// The value that a cell holds, or the error of a cell that holds none.
pub fn value_of(cell: &Cell) -> (outcome: Result<Value, ResponseError>)
    ensures
        match cell_value(cell@) {
            Ok(value) => outcome is Ok && outcome->Ok_0@ == value,
            Err(error) => outcome is Err && outcome->Err_0@ == error,
        },
{
    match cell {
        Cell::Null => Err(ResponseError::ValueError("value is null".to_owned())),
        Cell::Bool(flag) => Ok(Value::Boolean(*flag)),
        Cell::Number(number) => match number.signed {
            Some(integer) => Ok(Value::Integer(integer)),
            None => match number.unsigned {
                Some(integer) => Ok(Value::UnsignedInteger(integer)),
                None => match number.float {
                    Some(float) => Ok(Value::Float(float)),
                    None => Err(ResponseError::ValueError("value is an invalid array".to_owned())),
                },
            },
        },
        Cell::String(text) => Ok(Value::String(text.clone())),
        Cell::Array => Err(ResponseError::ValueError("value is a JSON array".to_owned())),
        Cell::Object => Err(ResponseError::ValueError("value is a JSON object".to_owned())),
    }
}

/// The instant that the first cell of a row holds, or the error of a cell
/// that holds none.
pub fn instant_of(cell: &Cell) -> (outcome: Result<Instant, ResponseError>)
    ensures
        match cell_instant(cell@) {
            Ok(instant) => outcome == Ok::<Instant, ResponseError>(instant),
            Err(error) => outcome is Err && outcome->Err_0@ == error,
        },
{
    match cell {
        Cell::String(text) => match Instant::parse(text.as_str()) {
            Ok(instant) => Ok(instant),
            Err(error) => Err(ResponseError::DatetimeError(error)),
        },
        _ => Err(ResponseError::ValueError("index is not encoded as string".to_owned())),
    }
}

/// An empty list under the name of each value column.
fn empty_columns(columns: &Vec<String>) -> (data: NameMap<Vec<Value>>)
    ensures
        data.names() == value_column_names(columns.deep_view()),
        forall|s: int| 0 <= s < data.values().len() ==> (#[trigger] data.values()[s])@.len() == 0,
{
    let mut data: NameMap<Vec<Value>> = NameMap::new();
    if columns.len() == 0 {
        assert(columns.deep_view() =~= Seq::<Seq<char>>::empty());
        return data;
    }
    let ghost names = columns.deep_view();
    let mut j: usize = 1;
    proof {
        assert(names.subrange(1, 1) =~= Seq::<Seq<char>>::empty());
    }
    while j < columns.len()
        invariant
            1 <= j <= columns@.len(),
            names == columns.deep_view(),
            data.names() == distinct_names(names.subrange(1, j as int)),
            data.values().len() == data.names().len(),
            forall|s: int| 0 <= s < data.values().len() ==> (#[trigger] data.values()[s])@.len() == 0,
        decreases columns@.len() - j,
    {
        proof {
            assert(names.subrange(1, j + 1).drop_last() =~= names.subrange(1, j as int));
            assert(names.subrange(1, j + 1).last() == columns@[j as int]@);
        }
        data.insert(columns[j].clone(), Vec::new());
        j += 1;
    }
    data
}

/// For each value column, the position of its name in `data`.
fn column_slots(columns: &Vec<String>, data: &NameMap<Vec<Value>>) -> (slots: Vec<usize>)
    requires
        data.names() == value_column_names(columns.deep_view()),
    ensures
        columns@.len() > 0 ==> slots@.len() == columns@.len() - 1,
        columns@.len() == 0 ==> slots@.len() == 0,
        forall|j: int|
            0 <= j < slots@.len() ==> (#[trigger] slots@[j]) < data.names().len()
                && data.names()[slots@[j] as int] == columns@[j + 1]@,
{
    let mut slots: Vec<usize> = Vec::new();
    if columns.len() == 0 {
        return slots;
    }
    let ghost names = columns.deep_view();
    let ghost rest = names.subrange(1, names.len() as int);
    proof {
        lemma_distinct_names(rest);
    }
    let mut j: usize = 1;
    while j < columns.len()
        invariant
            1 <= j <= columns@.len(),
            names == columns.deep_view(),
            rest == names.subrange(1, names.len() as int),
            data.names() == distinct_names(rest),
            forall|name: Seq<char>| #[trigger] distinct_names(rest).contains(name) <==> rest.contains(name),
            slots@.len() == j - 1,
            forall|k: int|
                0 <= k < slots@.len() ==> (#[trigger] slots@[k]) < data.names().len()
                    && data.names()[slots@[k] as int] == columns@[k + 1]@,
        decreases columns@.len() - j,
    {
        proof {
            assert(rest[j - 1] == columns@[j as int]@);
            assert(rest.contains(columns@[j as int]@));
        }
        match data.position(columns[j].as_str()) {
            Some(slot) => {
                slots.push(slot);
            },
            None => {
                assert(false);
            },
        }
        j += 1;
    }
    slots
}

/// Reads the rows of a series into a time index and a map of columns.
///
/// The first cell of each row is the instant of the row. Each further cell
/// that has a column goes, as a value, to the end of the list under the
/// column's name. The first cell that cannot be read ends the reading with
/// its error.
pub fn read_rows(columns: &Vec<String>, rows: &Vec<Vec<Cell>>) -> (outcome: Result<
    (Vec<Instant>, NameMap<Vec<Value>>),
    ResponseError,
>)
    ensures
        match decoded_rows(columns.deep_view(), rows.deep_view()) {
            Err(error) => outcome is Err && outcome->Err_0@ == error,
            Ok(decoded) => outcome is Ok && ({
                let (index, data) = outcome->Ok_0;
                &&& index@ == instants_of(decoded)
                &&& data.names() == value_column_names(columns.deep_view())
                &&& column_views(data.values()) == Seq::new(
                    data.names().len(),
                    |s: int| column_of(columns.deep_view(), values_of(decoded), data.names()[s]),
                )
            }),
        },
{
    let ghost cols = columns.deep_view();
    let ghost cells = rows.deep_view();
    let ghost results = Seq::new(cells.len(), |i: int| decoded_row(cols, cells[i]));
    let mut data = empty_columns(columns);
    let slots = column_slots(columns, &data);
    let ghost names = data.names();
    let mut index: Vec<Instant> = Vec::new();
    let ghost mut decoded: Seq<(Instant, Seq<ValueView>)> = Seq::empty();
    let mut i: usize = 0;
    proof {
        if cols.len() > 0 {
            lemma_distinct_names(cols.subrange(1, cols.len() as int));
        }
        assert forall|s: int| 0 <= s < names.len() implies #[trigger] column_views(data.values())[s]
            == column_of(cols, values_of(decoded), names[s]) by {
            assert(data.values()[s]@.len() == 0);
            assert(data.values()[s].deep_view() =~= Seq::<ValueView>::empty());
            assert(values_of(decoded) =~= Seq::<Seq<ValueView>>::empty());
        }
        assert(column_views(data.values()) =~= Seq::new(
            names.len(),
            |s: int| column_of(cols, values_of(decoded), names[s]),
        ));
        assert(index@ =~= instants_of(decoded));
    }
    while i < rows.len()
        invariant
            i <= rows@.len(),
            cols == columns.deep_view(),
            cells == rows.deep_view(),
            results == Seq::new(cells.len(), |i: int| decoded_row(cols, cells[i])),
            names == value_column_names(cols),
            names.no_duplicates(),
            data.names() == names,
            data.values().len() == names.len(),
            columns@.len() > 0 ==> slots@.len() == columns@.len() - 1,
            columns@.len() == 0 ==> slots@.len() == 0,
            forall|j: int|
                0 <= j < slots@.len() ==> (#[trigger] slots@[j]) < names.len() && names[slots@[j] as int]
                    == cols[j + 1],
            decoded.len() == i,
            forall|r: int| 0 <= r < i ==> #[trigger] results[r] == Ok::<
                (Instant, Seq<ValueView>),
                ResponseErrorView,
            >(decoded[r]),
            index@ == instants_of(decoded),
            column_views(data.values()) == Seq::new(
                names.len(),
                |s: int| column_of(cols, values_of(decoded), names[s]),
            ),
        decreases rows@.len() - i,
    {
        let row = &rows[i];
        let ghost row_cells = cells[i as int];
        assert(row_cells == row.deep_view());
        if row.len() == 0 {
            proof {
                lemma_collected_error(
                    results,
                    i as int,
                    ResponseErrorView::ValueError("index is not encoded as string"@),
                );
            }
            return Err(ResponseError::ValueError("index is not encoded as string".to_owned()));
        }
        assert(row_cells[0] == row@[0]@);
        let instant = match instant_of(&row[0]) {
            Ok(instant) => instant,
            Err(error) => {
                proof {
                    lemma_collected_error(results, i as int, error@);
                }
                return Err(error);
            },
        };
        let count: usize = if columns.len() == 0 {
            0
        } else if columns.len() <= row.len() {
            columns.len() - 1
        } else {
            row.len() - 1
        };
        assert(count == value_count(cols, row_cells));
        let ghost value_results = Seq::new(count as nat, |j: int| cell_value(row_cells[j + 1]));
        let ghost before = column_views(data.values());
        let ghost mut values: Seq<ValueView> = Seq::empty();
        let mut j: usize = 0;
        proof {
            assert forall|s: int| 0 <= s < names.len() implies #[trigger] column_views(
                data.values(),
            )[s] == before[s] + cells_under(cols, values, names[s]) by {
                assert(before[s] + Seq::<ValueView>::empty() =~= before[s]);
            }
        }
        while j < count
            invariant
                j <= count,
                count < row@.len(),
                count <= slots@.len(),
                columns@.len() > 0 ==> slots@.len() == columns@.len() - 1,
                columns@.len() == 0 ==> slots@.len() == 0,
                count == value_count(cols, row_cells),
                i < cells.len(),
                cells == rows.deep_view(),
                results == Seq::new(cells.len(), |i: int| decoded_row(cols, cells[i])),
                forall|r: int| 0 <= r < i ==> (#[trigger] results[r]) is Ok,
                row_cells == cells[i as int],
                cell_instant(row_cells[0]) == Ok::<Instant, ResponseErrorView>(instant),
                cols == columns.deep_view(),
                row_cells == row.deep_view(),
                value_results == Seq::new(count as nat, |j: int| cell_value(row_cells[j + 1])),
                names.no_duplicates(),
                data.names() == names,
                data.values().len() == names.len(),
                before.len() == names.len(),
                forall|k: int|
                    0 <= k < slots@.len() ==> (#[trigger] slots@[k]) < names.len() && names[slots@[k] as int]
                        == cols[k + 1],
                values.len() == j,
                forall|k: int| 0 <= k < j ==> #[trigger] value_results[k] == Ok::<
                    ValueView,
                    ResponseErrorView,
                >(values[k]),
                forall|s: int|
                    0 <= s < names.len() ==> #[trigger] column_views(data.values())[s] == before[s]
                        + cells_under(cols, values, names[s]),
            decreases count - j,
        {
            assert(row_cells[j + 1] == row@[j + 1]@);
            let value = match value_of(&row[j + 1]) {
                Ok(value) => value,
                Err(error) => {
                    proof {
                        lemma_collected_error(value_results, j as int, error@);
                        assert(row_values(cols, row_cells) == Err::<
                            Seq<ValueView>,
                            ResponseErrorView,
                        >(error@));
                        assert(results[i as int] == Err::<
                            (Instant, Seq<ValueView>),
                            ResponseErrorView,
                        >(error@));
                        lemma_collected_error(results, i as int, error@);
                    }
                    return Err(error);
                },
            };
            let slot = slots[j];
            let ghost old_views = column_views(data.values());
            let ghost old_values = data.values();
            data.push_at(slot, value);
            proof {
                let new_values = values.push(value@);
                assert forall|s: int| 0 <= s < names.len() implies #[trigger] column_views(
                    data.values(),
                )[s] == before[s] + cells_under(cols, new_values, names[s]) by {
                    lemma_cells_under_push(cols, values, value@, names[s]);
                    assert(old_views[s] == before[s] + cells_under(cols, values, names[s]));
                    if s == slot {
                        assert(data.values()[s]@ == old_values[s]@.push(value));
                        assert(data.values()[s].deep_view() =~= old_values[s].deep_view().push(
                            value@,
                        ));
                        assert((before[s] + cells_under(cols, values, names[s])).push(value@)
                            =~= before[s] + cells_under(cols, values, names[s]).push(value@));
                    } else {
                        assert(data.values()[s] == old_values[s]);
                        assert(names[s] != names[slot as int]);
                    }
                }
                values = new_values;
            }
            j += 1;
        }
        index.push(instant);
        proof {
            lemma_collected_ok(value_results, values);
            assert(results[i as int] == Ok::<(Instant, Seq<ValueView>), ResponseErrorView>(
                (instant, values),
            ));
            let grown = decoded.push((instant, values));
            assert(values_of(grown) =~= values_of(decoded).push(values));
            assert(instants_of(grown) =~= instants_of(decoded).push(instant));
            assert(column_views(data.values()) =~= Seq::new(
                names.len(),
                |s: int| column_of(cols, values_of(grown), names[s]),
            )) by {
                assert forall|s: int| 0 <= s < names.len() implies #[trigger] column_views(
                    data.values(),
                )[s] == column_of(cols, values_of(grown), names[s]) by {
                    lemma_column_of_push(cols, values_of(decoded), values, names[s]);
                }
            }
            decoded = grown;
        }
        i += 1;
    }
    proof {
        lemma_collected_ok(results, decoded);
    }
    Ok((index, data))
}

} // verus!
