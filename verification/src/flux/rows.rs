//! From the records of a block to the rows and tables that they describe.

use vstd::prelude::*;

use super::error::{ResponseError, ResponseErrorView};
use crate::text::str_equal;
use crate::types::instant::parsed_instant;
use crate::types::results::{collected, lemma_collected_error, lemma_collected_ok};
use crate::types::{Float64, Instant};

verus! {

/// What the annotation rows say of one column.
#[derive(Debug, PartialEq)]
pub struct ColumnMeta {
    /// The name of the column.
    pub name: String,
    /// The type of its values.
    pub data_type: String,
    /// Whether the column belongs to the key by which rows are grouped:
    /// `true` where it does.
    pub group: String,
    /// The value to take where a cell is empty.
    pub default: String,
}

/// What a `ColumnMeta` holds.
pub struct ColumnMetaView {
    pub name: Seq<char>,
    pub data_type: Seq<char>,
    pub group: Seq<char>,
    pub default: Seq<char>,
}

impl DeepView for ColumnMeta {
    type V = ColumnMetaView;

    open spec fn deep_view(&self) -> ColumnMetaView {
        ColumnMetaView {
            name: self.name@,
            data_type: self.data_type@,
            group: self.group@,
            default: self.default@,
        }
    }
}

impl View for ColumnMeta {
    type V = ColumnMetaView;

    open spec fn view(&self) -> ColumnMetaView {
        self.deep_view()
    }
}

/// The length of the shortest of four rows.
pub open spec fn shortest(a: nat, b: nat, c: nat, d: nat) -> nat {
    let ab = if a <= b {
        a
    } else {
        b
    };
    let cd = if c <= d {
        c
    } else {
        d
    };
    if ab <= cd {
        ab
    } else {
        cd
    }
}

/// The columns that the four annotation rows describe: one for each place
/// after the first that all four rows have.
pub open spec fn columns_of(
    data_types: Seq<Seq<char>>,
    groups: Seq<Seq<char>>,
    defaults: Seq<Seq<char>>,
    names: Seq<Seq<char>>,
) -> Seq<ColumnMetaView> {
    let width = shortest(data_types.len(), groups.len(), defaults.len(), names.len());
    if width == 0 {
        Seq::empty()
    } else {
        Seq::new(
            (width - 1) as nat,
            |k: int|
                ColumnMetaView {
                    name: names[k + 1],
                    data_type: data_types[k + 1],
                    group: groups[k + 1],
                    default: defaults[k + 1],
                },
        )
    }
}

/// What one data row gives: the instants of its `_time` cells, the numbers
/// of its `_value` cells, and its key, the names and cells of the columns
/// by which rows are grouped.
pub struct RowView {
    pub times: Seq<Instant>,
    pub values: Seq<Float64>,
    pub key: Seq<(Seq<char>, Seq<char>)>,
}

/// A row with one more cell read. A cell under `_time` is read as an
/// instant, a cell under `_value` as a number by `floats`; the cell of a
/// column whose grouping is `true` joins the key.
pub open spec fn with_cell(
    row: RowView,
    column: ColumnMetaView,
    cell: Seq<char>,
    floats: spec_fn(Seq<char>) -> Option<Float64>,
) -> Result<RowView, ResponseErrorView> {
    let key = if column.group == "true"@ {
        row.key.push((column.name, cell))
    } else {
        row.key
    };
    if column.name == "_time"@ {
        match parsed_instant(cell) {
            Some(instant) => Ok(RowView { times: row.times.push(instant), values: row.values, key }),
            None => Err(ResponseErrorView::DatetimeError),
        }
    } else if column.name == "_value"@ {
        match floats(cell) {
            Some(number) => Ok(RowView { times: row.times, values: row.values.push(number), key }),
            None => Err(ResponseErrorView::ParseFloatError),
        }
    } else {
        Ok(RowView { times: row.times, values: row.values, key })
    }
}

/// The row after its first `count` cells have been read, in order. The
/// cell at place `k + 1` of the record stands under column `k`.
pub open spec fn scanned_cells(
    columns: Seq<ColumnMetaView>,
    record: Seq<Seq<char>>,
    count: nat,
    floats: spec_fn(Seq<char>) -> Option<Float64>,
) -> Result<RowView, ResponseErrorView>
    decreases count,
{
    if count == 0 {
        Ok(RowView { times: Seq::empty(), values: Seq::empty(), key: Seq::empty() })
    } else {
        match scanned_cells(columns, record, (count - 1) as nat, floats) {
            Err(error) => Err(error),
            Ok(row) => with_cell(row, columns[count - 1], record[count as int], floats),
        }
    }
}

/// How many cells of a record are read: those after the first that have a
/// column.
pub open spec fn cell_count(columns: Seq<ColumnMetaView>, record: Seq<Seq<char>>) -> nat {
    if record.len() == 0 {
        0
    } else if columns.len() <= record.len() - 1 {
        columns.len()
    } else {
        (record.len() - 1) as nat
    }
}

/// What a data record gives.
pub open spec fn scanned_row(
    columns: Seq<ColumnMetaView>,
    record: Seq<Seq<char>>,
    floats: spec_fn(Seq<char>) -> Option<Float64>,
) -> Result<RowView, ResponseErrorView> {
    scanned_cells(columns, record, cell_count(columns, record), floats)
}

/// The rows of one key: the key, and the instants and numbers of its rows
/// in order.
pub struct TableDataView {
    pub key: Seq<(Seq<char>, Seq<char>)>,
    pub index: Seq<Instant>,
    pub values: Seq<Float64>,
}

/// The keys of tables, in order.
pub open spec fn keys_of(tables: Seq<TableDataView>) -> Seq<Seq<(Seq<char>, Seq<char>)>> {
    Seq::new(tables.len(), |i: int| tables[i].key)
}

/// The tables after one more row: the row joins the table of its key, or
/// starts a new table at the end.
pub open spec fn with_row(tables: Seq<TableDataView>, row: RowView) -> Seq<TableDataView> {
    match keys_of(tables).index_of_first(row.key) {
        Some(place) => tables.update(
            place,
            TableDataView {
                key: row.key,
                index: tables[place].index + row.times,
                values: tables[place].values + row.values,
            },
        ),
        None => tables.push(TableDataView { key: row.key, index: row.times, values: row.values }),
    }
}

/// The rows grouped by their keys: one table for each key, in the order in
/// which the keys first occur.
pub open spec fn grouped_rows(rows: Seq<RowView>) -> Seq<TableDataView>
    decreases rows.len(),
{
    if rows.len() == 0 {
        Seq::empty()
    } else {
        with_row(grouped_rows(rows.drop_last()), rows.last())
    }
}

/// The columns that the first four records of a block describe.
pub open spec fn annotated_columns(records: Seq<Option<Seq<Seq<char>>>>) -> Seq<ColumnMetaView> {
    columns_of(records[0]->Some_0, records[1]->Some_0, records[2]->Some_0, records[3]->Some_0)
}

/// What the records of one block give: its columns and the tables of its
/// data rows.
///
/// The first four records are the annotation rows: data types, grouping,
/// defaults and column names; a block that lacks one has the error named
/// after it. A record that the reader reports as an error, and a cell that
/// cannot be read, give their error; the first error in the order of the
/// records counts.
pub open spec fn block_of(
    records: Seq<Option<Seq<Seq<char>>>>,
    floats: spec_fn(Seq<char>) -> Option<Float64>,
) -> Result<(Seq<ColumnMetaView>, Seq<TableDataView>), ResponseErrorView> {
    if records.len() < 1 {
        Err(ResponseErrorView::DataTypes)
    } else if records[0] is None {
        Err(ResponseErrorView::CsvError)
    } else if records.len() < 2 {
        Err(ResponseErrorView::Grouping)
    } else if records[1] is None {
        Err(ResponseErrorView::CsvError)
    } else if records.len() < 3 {
        Err(ResponseErrorView::Default)
    } else if records[2] is None {
        Err(ResponseErrorView::CsvError)
    } else if records.len() < 4 {
        Err(ResponseErrorView::Columns)
    } else if records[3] is None {
        Err(ResponseErrorView::CsvError)
    } else {
        let columns = annotated_columns(records);
        match collected(
            Seq::new(
                (records.len() - 4) as nat,
                |i: int|
                    match records[i + 4] {
                        Some(record) => scanned_row(columns, record, floats),
                        None => Err(ResponseErrorView::CsvError),
                    },
            ),
        ) {
            Err(error) => Err(error),
            Ok(rows) => Ok((columns, grouped_rows(rows))),
        }
    }
}

/// Whether the result of parsing a number is what `floats` says of the
/// text.
pub open spec fn agrees(
    parsed: Result<Float64, core::num::ParseFloatError>,
    expected: Option<Float64>,
) -> bool {
    match parsed {
        Ok(number) => expected == Some(number),
        Err(_) => expected is None,
    }
}

/// Whether `floats` says what `parse_float` returns for every text.
pub open spec fn reads_as<P: Fn(&str) -> Result<Float64, core::num::ParseFloatError>>(
    parse_float: P,
    floats: spec_fn(Seq<char>) -> Option<Float64>,
) -> bool {
    forall|text: &str, parsed: Result<Float64, core::num::ParseFloatError>| #[trigger]
        call_ensures(parse_float, (text,), parsed) ==> agrees(parsed, floats(text@))
}

/// The rows of one key as they are built up.
pub struct TableData {
    pub key: Vec<(String, String)>,
    pub index: Vec<Instant>,
    pub values: Vec<Float64>,
}

impl DeepView for TableData {
    type V = TableDataView;

    open spec fn deep_view(&self) -> TableDataView {
        TableDataView { key: self.key.deep_view(), index: self.index@, values: self.values@ }
    }
}

impl View for TableData {
    type V = TableDataView;

    open spec fn view(&self) -> TableDataView {
        self.deep_view()
    }
}

/// The columns that the four annotation rows describe.
pub fn read_columns(
    data_types: &Vec<String>,
    groups: &Vec<String>,
    defaults: &Vec<String>,
    names: &Vec<String>,
) -> (columns: Vec<ColumnMeta>)
    ensures
        columns.deep_view() == columns_of(
            data_types.deep_view(),
            groups.deep_view(),
            defaults.deep_view(),
            names.deep_view(),
        ),
{
    let mut width = data_types.len();
    if groups.len() < width {
        width = groups.len();
    }
    let mut narrow = defaults.len();
    if names.len() < narrow {
        narrow = names.len();
    }
    if narrow < width {
        width = narrow;
    }
    let mut columns: Vec<ColumnMeta> = Vec::new();
    if width == 0 {
        proof {
            assert(columns.deep_view() =~= Seq::<ColumnMetaView>::empty());
        }
        return columns;
    }
    let mut k: usize = 1;
    while k < width
        invariant
            1 <= k <= width,
            width == shortest(data_types@.len(), groups@.len(), defaults@.len(), names@.len()),
            columns@.len() == k - 1,
            forall|j: int|
                0 <= j < k - 1 ==> (#[trigger] columns@[j])@ == (ColumnMetaView {
                    name: names@[j + 1]@,
                    data_type: data_types@[j + 1]@,
                    group: groups@[j + 1]@,
                    default: defaults@[j + 1]@,
                }),
        decreases width - k,
    {
        columns.push(
            ColumnMeta {
                name: names[k].clone(),
                data_type: data_types[k].clone(),
                group: groups[k].clone(),
                default: defaults[k].clone(),
            },
        );
        k += 1;
    }
    proof {
        assert(columns.deep_view() =~= columns_of(
            data_types.deep_view(),
            groups.deep_view(),
            defaults.deep_view(),
            names.deep_view(),
        ));
    }
    columns
}

/// What a row has given so far.
pub struct RowData {
    pub times: Vec<Instant>,
    pub values: Vec<Float64>,
    pub key: Vec<(String, String)>,
}

impl DeepView for RowData {
    type V = RowView;

    open spec fn deep_view(&self) -> RowView {
        RowView { times: self.times@, values: self.values@, key: self.key.deep_view() }
    }
}

impl View for RowData {
    type V = RowView;

    open spec fn view(&self) -> RowView {
        self.deep_view()
    }
}

/// Reads one data record.
pub(crate) fn scan_row<P: Fn(&str) -> Result<Float64, core::num::ParseFloatError>>(
    columns: &Vec<ColumnMeta>,
    record: &Vec<String>,
    parse_float: &P,
    Ghost(floats): Ghost<spec_fn(Seq<char>) -> Option<Float64>>,
) -> (outcome: Result<RowData, ResponseError>)
    requires
        forall|text: &str| call_requires(*parse_float, (text,)),
        reads_as(*parse_float, floats),
    ensures
        match scanned_row(columns.deep_view(), record.deep_view(), floats) {
            Ok(row) => outcome is Ok && outcome->Ok_0@ == row,
            Err(error) => outcome is Err && outcome->Err_0@ == error,
        },
{
    let count = if record.len() == 0 {
        0
    } else if columns.len() <= record.len() - 1 {
        columns.len()
    } else {
        record.len() - 1
    };
    let ghost metas = columns.deep_view();
    let ghost cells = record.deep_view();
    let mut row = RowData { times: Vec::new(), values: Vec::new(), key: Vec::new() };
    proof {
        assert(row@.key =~= Seq::empty());
    }
    let mut k: usize = 0;
    while k < count
        invariant
            k <= count,
            count == cell_count(metas, cells),
            metas == columns.deep_view(),
            cells == record.deep_view(),
            forall|text: &str| call_requires(*parse_float, (text,)),
            reads_as(*parse_float, floats),
            scanned_cells(metas, cells, k as nat, floats) == Ok::<RowView, ResponseErrorView>(row@),
        decreases count - k,
    {
        let column = &columns[k];
        let cell = &record[k + 1];
        let ghost before = row@;
        proof {
            assert(metas[k as int] == column@);
            assert(cells[k + 1] == cell@);
        }
        let grouped = str_equal(column.group.as_str(), "true");
        let mut failure: Option<ResponseError> = None;
        if str_equal(column.name.as_str(), "_time") {
            match Instant::parse(cell.as_str()) {
                Ok(instant) => {
                    row.times.push(instant);
                },
                Err(error) => {
                    failure = Some(ResponseError::DatetimeError(error));
                },
            }
        } else if str_equal(column.name.as_str(), "_value") {
            let text = cell.as_str();
            let parsed = parse_float(text);
            proof {
                assert(call_ensures(*parse_float, (text,), parsed));
                assert(agrees(parsed, floats(text@)));
            }
            match parsed {
                Ok(number) => {
                    row.values.push(number);
                },
                Err(error) => {
                    failure = Some(ResponseError::ParseFloatError(error));
                },
            }
        }
        match failure {
            Some(error) => {
                proof {
                    assert(scanned_cells(metas, cells, (k + 1) as nat, floats) == Err::<
                        RowView,
                        ResponseErrorView,
                    >(error@));
                    lemma_scan_stops(metas, cells, (k + 1) as nat, count as nat, floats);
                }
                return Err(error);
            },
            None => {},
        }
        if grouped {
            let ghost key = row.key.deep_view();
            row.key.push((column.name.clone(), cell.clone()));
            proof {
                assert(row.key.deep_view() =~= key.push((column@.name, cell@)));
            }
        }
        proof {
            assert(with_cell(before, metas[k as int], cells[k + 1], floats) == Ok::<
                RowView,
                ResponseErrorView,
            >(row@));
        }
        k += 1;
    }
    Ok(row)
}

/// Whether two keys hold the same names and cells.
fn same_key(a: &Vec<(String, String)>, b: &Vec<(String, String)>) -> (same: bool)
    ensures
        same == (a.deep_view() == b.deep_view()),
{
    if a.len() != b.len() {
        assert(a.deep_view().len() != b.deep_view().len());
        return false;
    }
    let mut i: usize = 0;
    while i < a.len()
        invariant
            i <= a@.len(),
            a@.len() == b@.len(),
            forall|j: int| 0 <= j < i ==> a.deep_view()[j] == b.deep_view()[j],
        decreases a@.len() - i,
    {
        if !(a[i].0 == b[i].0 && a[i].1 == b[i].1) {
            assert(a.deep_view()[i as int] != b.deep_view()[i as int]);
            return false;
        }
        i += 1;
    }
    proof {
        assert(a.deep_view() =~= b.deep_view());
    }
    true
}

/// Adds a row to the tables: to the table of its key, or as a new table
/// at the end.
pub fn add_row(tables: &mut Vec<TableData>, row: RowData)
    ensures
        final(tables).deep_view() == with_row(old(tables).deep_view(), row@),
{
    let ghost before = tables.deep_view();
    let ghost keys = keys_of(before);
    let mut place: usize = 0;
    let mut found = false;
    while !found && place < tables.len()
        invariant
            place <= tables@.len(),
            tables.deep_view() == before,
            *tables == *old(tables),
            keys == keys_of(before),
            forall|j: int| 0 <= j < place ==> keys[j] != row@.key,
            found ==> place < tables@.len() && keys[place as int] == row@.key,
        decreases tables@.len() - place + if found { 0int } else { 1int },
    {
        if same_key(&tables[place].key, &row.key) {
            found = true;
        } else {
            place += 1;
        }
    }
    proof {
        keys.index_of_first_ensures(row@.key);
    }
    let RowData { times, values, key } = row;
    if found {
        let mut table = tables.remove(place);
        let mut times = times;
        let mut values = values;
        table.index.append(&mut times);
        table.values.append(&mut values);
        tables.insert(place, table);
        proof {
            assert(keys.index_of_first(row@.key) == Some(place as int));
            assert(tables.deep_view() =~= with_row(before, row@));
        }
    } else {
        tables.push(TableData { key, index: times, values });
        proof {
            assert(keys.index_of_first(row@.key) is None);
            assert(tables.deep_view() =~= with_row(before, row@));
        }
    }
}

/// Reads the records of one block into its columns and the tables of its
/// data rows.
pub(crate) fn read_block<P: Fn(&str) -> Result<Float64, core::num::ParseFloatError>>(
    records: Vec<Result<Vec<String>, csv::Error>>,
    parse_float: &P,
    Ghost(floats): Ghost<spec_fn(Seq<char>) -> Option<Float64>>,
    Ghost(read): Ghost<Seq<Option<Seq<Seq<char>>>>>,
) -> (outcome: Result<(Vec<ColumnMeta>, Vec<TableData>), ResponseError>)
    requires
        forall|text: &str| call_requires(*parse_float, (text,)),
        reads_as(*parse_float, floats),
        records@.len() == read.len(),
        forall|i: int|
            0 <= i < records@.len() ==> match #[trigger] records@[i] {
                Ok(fields) => read[i] == Some(fields.deep_view()),
                Err(_) => read[i] is None,
            },
    ensures
        match block_of(read, floats) {
            Ok((columns, tables)) => outcome is Ok && outcome->Ok_0.0.deep_view() == columns
                && outcome->Ok_0.1.deep_view() == tables,
            Err(error) => outcome is Err && outcome->Err_0@ == error,
        },
{
    let ghost items = records@;
    let total = records.len();
    let mut data_types: Vec<String> = Vec::new();
    let mut groups: Vec<String> = Vec::new();
    let mut defaults: Vec<String> = Vec::new();
    let mut columns: Vec<ColumnMeta> = Vec::new();
    let mut tables: Vec<TableData> = Vec::new();
    let ghost mut rows: Seq<RowView> = Seq::empty();
    let ghost results = Seq::new(
        (read.len() - 4) as nat,
        |i: int|
            match read[i + 4] {
                Some(record) => scanned_row(annotated_columns(read), record, floats),
                None => Err(ResponseErrorView::CsvError),
            },
    );
    proof {
        assert(tables.deep_view() =~= grouped_rows(rows));
    }
    let mut place: usize = 0;
    for record in it: records.into_iter()
        invariant
            place == it.index(),
            it.seq() == items,
            items.len() == read.len(),
            total == items.len(),
            forall|i: int|
                0 <= i < items.len() ==> match #[trigger] items[i] {
                    Ok(fields) => read[i] == Some(fields.deep_view()),
                    Err(_) => read[i] is None,
                },
            forall|text: &str| call_requires(*parse_float, (text,)),
            reads_as(*parse_float, floats),
            forall|i: int| 0 <= i < it.index() ==> (#[trigger] read[i]) is Some,
            it.index() > 0 ==> data_types.deep_view() == read[0]->Some_0,
            it.index() > 1 ==> groups.deep_view() == read[1]->Some_0,
            it.index() > 2 ==> defaults.deep_view() == read[2]->Some_0,
            it.index() > 3 ==> columns.deep_view() == annotated_columns(read),
            results == Seq::new(
                (read.len() - 4) as nat,
                |i: int|
                    match read[i + 4] {
                        Some(record) => scanned_row(annotated_columns(read), record, floats),
                        None => Err(ResponseErrorView::CsvError),
                    },
            ),
            it.index() <= 4 ==> rows.len() == 0,
            it.index() > 4 ==> rows.len() == it.index() - 4,
            forall|i: int| 0 <= i < rows.len() ==> #[trigger] results[i] == Ok::<
                RowView,
                ResponseErrorView,
            >(rows[i]),
            tables.deep_view() == grouped_rows(rows),
    {
        let ghost at = it.index() as int;
        let fields = match record {
            Ok(fields) => fields,
            Err(error) => {
                proof {
                    assert(read[at] is None);
                    if at >= 4 {
                        lemma_collected_error(results, at - 4, ResponseErrorView::CsvError);
                    }
                }
                return Err(ResponseError::CsvError(error));
            },
        };
        assert(read[at] == Some(fields.deep_view()));
        if place == 0 {
            data_types = fields;
        } else if place == 1 {
            groups = fields;
        } else if place == 2 {
            defaults = fields;
        } else if place == 3 {
            columns = read_columns(&data_types, &groups, &defaults, &fields);
        } else {
            let row = match scan_row(&columns, &fields, parse_float, Ghost(floats)) {
                Ok(row) => row,
                Err(error) => {
                    proof {
                        lemma_collected_error(results, at - 4, error@);
                    }
                    return Err(error);
                },
            };
            proof {
                let grown = rows.push(row@);
                assert(grown.drop_last() =~= rows);
                rows = grown;
            }
            add_row(&mut tables, row);
        }
        place += 1;
    }
    proof {
        if read.len() >= 4 {
            lemma_collected_ok(results, rows);
        }
    }
    if total < 1 {
        Err(ResponseError::DataTypes)
    } else if total < 2 {
        Err(ResponseError::Grouping)
    } else if total < 3 {
        Err(ResponseError::Default)
    } else if total < 4 {
        Err(ResponseError::Columns)
    } else {
        Ok((columns, tables))
    }
}

/// Once a cell has failed, the cells after it change nothing.
pub proof fn lemma_scan_stops(
    columns: Seq<ColumnMetaView>,
    record: Seq<Seq<char>>,
    failed: nat,
    count: nat,
    floats: spec_fn(Seq<char>) -> Option<Float64>,
)
    requires
        failed <= count,
        scanned_cells(columns, record, failed, floats) is Err,
    ensures
        scanned_cells(columns, record, count, floats) == scanned_cells(
            columns,
            record,
            failed,
            floats,
        ),
    decreases count,
{
    if failed < count {
        lemma_scan_stops(columns, record, failed, (count - 1) as nat, floats);
    }
}

} // verus!
