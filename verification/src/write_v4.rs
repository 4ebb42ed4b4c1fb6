//! The values a v4 image is written with, derived from the same cells its
//! read-back expects, and the round trip between the two: an image that
//! holds what was written reads back cleanly.

use vstd::prelude::*;
use crate::error::IndexError;
use crate::limits::IndexLimits;
use crate::readback_v4::{expected_v4_cells, expected_v4_image, SnapshotCellsV4};
use crate::rows::{
    cell_outcome, cells_outcome, image_outcome, image_view, row_outcome, rows_outcome,
    table_outcome, tables_outcome, table_view, cells_view, ExpectedCell, ExpectedView, SqlCell,
};

verus! {

/// A value bound into an insert statement, borrowed from the snapshot.
pub enum SqlValue<'a> {
    Null,
    Integer(i64),
    Text(&'a [u8]),
}

/// The value of a stored or bound SQL value.
pub enum StoredValue {
    Null,
    Integer(i64),
    Text(Seq<u8>),
}

impl<'a> View for SqlValue<'a> {
    type V = StoredValue;

    open spec fn view(&self) -> StoredValue {
        match *self {
            SqlValue::Null => StoredValue::Null,
            SqlValue::Integer(value) => StoredValue::Integer(value),
            SqlValue::Text(text) => StoredValue::Text(text@),
        }
    }
}

/// The value a read-back cell holds; a real or a blob holds none of the
/// values this index writes.
pub open spec fn cell_value(cell: SqlCell) -> Option<StoredValue> {
    match cell {
        SqlCell::Null => Some(StoredValue::Null),
        SqlCell::Integer(value) => Some(StoredValue::Integer(value)),
        SqlCell::Text(text) => Some(StoredValue::Text(text@)),
        _ => None,
    }
}

/// Whether writing a cell overflows SQLite's signed integers.
pub open spec fn cell_overflows(expected: ExpectedView) -> bool {
    expected matches ExpectedView::U64(value) && value > i64::MAX
}

/// The value a cell is written as.
pub open spec fn written_value(expected: ExpectedView) -> StoredValue {
    match expected {
        ExpectedView::U64(value) => StoredValue::Integer(value as i64),
        ExpectedView::Bool(value) => StoredValue::Integer(
            if value {
                1
            } else {
                0
            },
        ),
        ExpectedView::Text(text) => StoredValue::Text(text),
        ExpectedView::OptionalText(text) => match text {
            Some(text) => StoredValue::Text(text),
            None => StoredValue::Null,
        },
        ExpectedView::CheckedText(text, _) => StoredValue::Text(text),
    }
}

/// Whether any cell of an image overflows when written.
pub open spec fn image_overflows(expected: Seq<Seq<Seq<ExpectedView>>>) -> bool {
    exists|t: int, i: int, k: int|
        0 <= t < expected.len() && 0 <= i < expected[t].len() && 0 <= k < expected[t][i].len()
            && #[trigger] cell_overflows(expected[t][i][k])
}

/// The values an image is written with, table by table, row by row.
pub open spec fn image_written(expected: Seq<Seq<Seq<ExpectedView>>>) -> Seq<Seq<Seq<StoredValue>>> {
    expected.map_values(
        |table: Seq<Seq<ExpectedView>>|
            table.map_values(
                |row: Seq<ExpectedView>| row.map_values(|cell: ExpectedView| written_value(cell)),
            ),
    )
}

/// The values of bound rows.
pub open spec fn values_view(values: Seq<Vec<Vec<SqlValue>>>) -> Seq<Seq<Seq<StoredValue>>> {
    values.map_values(
        |table: Vec<Vec<SqlValue>>|
            table@.map_values(|row: Vec<SqlValue>| row@.map_values(|value: SqlValue| value@)),
    )
}

fn write_cell<'a>(cell: &ExpectedCell<'a>) -> (result: Result<SqlValue<'a>, IndexError>)
    ensures
        match result {
            Ok(value) => !cell_overflows(cell@) && value@ == written_value(cell@),
            Err(error) => cell_overflows(cell@) && error == IndexError::IntegerOutOfRange,
        },
{
    match cell {
        ExpectedCell::U64(value) => {
            if *value > i64::MAX as u64 {
                return Err(IndexError::IntegerOutOfRange);
            }
            Ok(SqlValue::Integer(*value as i64))
        },
        ExpectedCell::Bool(value) => Ok(SqlValue::Integer(
            if *value {
                1
            } else {
                0
            },
        )),
        ExpectedCell::Text(text) => Ok(SqlValue::Text(*text)),
        ExpectedCell::OptionalText(text) => match text {
            Some(text) => Ok(SqlValue::Text(*text)),
            None => Ok(SqlValue::Null),
        },
        ExpectedCell::CheckedText { text, .. } => Ok(SqlValue::Text(*text)),
    }
}

fn write_row<'a>(row: &Vec<ExpectedCell<'a>>) -> (result: Result<Vec<SqlValue<'a>>, IndexError>)
    ensures
        match result {
            Ok(values) => values@.map_values(|value: SqlValue| value@) == cells_view(row@).map_values(
                |cell: ExpectedView| written_value(cell),
            ) && forall|k: int| 0 <= k < row@.len() ==> !#[trigger] cell_overflows(row@[k]@),
            Err(error) => error == IndexError::IntegerOutOfRange && exists|k: int|
                0 <= k < row@.len() && #[trigger] cell_overflows(row@[k]@),
        },
{
    let mut values: Vec<SqlValue<'a>> = Vec::new();
    let mut k: usize = 0;
    while k < row.len()
        invariant
            k <= row@.len(),
            values@.len() == k,
            forall|j: int| 0 <= j < k ==> (#[trigger] values@[j])@ == written_value(row@[j]@),
            forall|j: int| 0 <= j < k ==> !#[trigger] cell_overflows(row@[j]@),
        decreases row@.len() - k,
    {
        match write_cell(&row[k]) {
            Ok(value) => values.push(value),
            Err(error) => return Err(error),
        }
        k += 1;
    }
    proof {
        assert(values@.map_values(|value: SqlValue| value@) =~= cells_view(row@).map_values(
            |cell: ExpectedView| written_value(cell),
        ));
    }
    Ok(values)
}

/// The values a v4 image is written with: every cell its read-back
/// expects, in the same tables, rows and columns, each as SQLite stores
/// it.  An unsigned integer above SQLite's signed range cannot be written.
pub fn v4_insert_values(snapshot: &SnapshotCellsV4) -> (result: Result<
    Vec<Vec<Vec<SqlValue<'_>>>>,
    IndexError,
>)
    ensures
        match result {
            Ok(values) => !image_overflows(expected_v4_cells(*snapshot)) && values_view(values@)
                == image_written(expected_v4_cells(*snapshot)),
            Err(error) => error == IndexError::IntegerOutOfRange && image_overflows(
                expected_v4_cells(*snapshot),
            ),
        },
{
    let expected = expected_v4_image(snapshot);
    let ghost cells = image_view(expected@);
    let mut image: Vec<Vec<Vec<SqlValue<'_>>>> = Vec::new();
    let mut t: usize = 0;
    while t < expected.len()
        invariant
            t <= expected@.len(),
            cells == image_view(expected@),
            cells == expected_v4_cells(*snapshot),
            image@.len() == t,
            forall|u: int| 0 <= u < t ==> (#[trigger] values_view(image@)[u]) == image_written(cells)[u],
            forall|u: int, i: int, k: int|
                0 <= u < t && 0 <= i < cells[u].len() && 0 <= k < cells[u][i].len() ==> !#[trigger] cell_overflows(
                    cells[u][i][k],
                ),
        decreases expected@.len() - t,
    {
        let table = &expected[t];
        let mut rows: Vec<Vec<SqlValue<'_>>> = Vec::new();
        let mut i: usize = 0;
        while i < table.len()
            invariant
                i <= table@.len(),
                t < expected@.len(),
                table == expected@[t as int],
                cells == image_view(expected@),
                cells == expected_v4_cells(*snapshot),
                rows@.len() == i,
                forall|j: int|
                    0 <= j < i ==> (#[trigger] rows@[j])@.map_values(|value: SqlValue| value@)
                        == cells[t as int][j].map_values(|cell: ExpectedView| written_value(cell)),
                forall|j: int, k: int|
                    0 <= j < i && 0 <= k < cells[t as int][j].len() ==> !#[trigger] cell_overflows(
                        cells[t as int][j][k],
                    ),
            decreases table@.len() - i,
        {
            proof {
                assert(cells[t as int] == table_view(table@));
                assert(cells[t as int][i as int] == cells_view(table@[i as int]@));
            }
            match write_row(&table[i]) {
                Ok(values) => rows.push(values),
                Err(error) => {
                    proof {
                        let k = choose|k: int| 0 <= k < table@[i as int]@.len() && #[trigger] cell_overflows(
                            table@[i as int]@[k]@,
                        );
                        assert(cells[t as int][i as int][k] == table@[i as int]@[k]@);
                        assert(cell_overflows(cells[t as int][i as int][k]));
                    }
                    return Err(error);
                },
            }
            i += 1;
        }
        let ghost before = image@;
        image.push(rows);
        proof {
            assert(values_view(image@)[t as int] =~= image_written(cells)[t as int]);
            assert forall|u: int| 0 <= u < t implies (#[trigger] values_view(image@)[u])
                == image_written(cells)[u] by {
                assert(image@[u] == before[u]);
                assert(values_view(image@)[u] == values_view(before)[u]);
            }
        }
        t += 1;
    }
    proof {
        assert(values_view(image@) =~= image_written(cells));
    }
    Ok(image)
}


/// Whether a written cell reads back under `limits`: an integer in
/// SQLite's signed range, text within the query bound, and a JSON column
/// whose verdict is favourable.
pub open spec fn readable(expected: ExpectedView, limits: IndexLimits) -> bool {
    match expected {
        ExpectedView::U64(value) => value <= i64::MAX,
        ExpectedView::Bool(_) => true,
        ExpectedView::Text(text) => text.len() <= limits.max_query_bytes,
        ExpectedView::OptionalText(text) => match text {
            Some(text) => text.len() <= limits.max_query_bytes,
            None => true,
        },
        ExpectedView::CheckedText(text, well_formed) => well_formed && text.len()
            <= limits.max_query_bytes,
    }
}

/// Whether every cell of an image reads back under `limits`.
pub open spec fn image_readable(expected: Seq<Seq<Seq<ExpectedView>>>, limits: IndexLimits) -> bool {
    forall|t: int, i: int, k: int|
        0 <= t < expected.len() && 0 <= i < expected[t].len() && 0 <= k < expected[t][i].len()
            ==> #[trigger] readable(expected[t][i][k], limits)
}

/// Whether the cells read back hold exactly the values written: the same
/// tables, rows and columns, each cell holding its value.
pub open spec fn image_holds(stored: Seq<Seq<Seq<SqlCell>>>, written: Seq<Seq<Seq<StoredValue>>>) -> bool {
    &&& stored.len() == written.len()
    &&& forall|t: int| 0 <= t < stored.len() ==> (#[trigger] stored[t]).len() == written[t].len()
    &&& forall|t: int, i: int|
        0 <= t < stored.len() && 0 <= i < stored[t].len() ==> (#[trigger] stored[t][i]).len()
            == written[t][i].len()
    &&& forall|t: int, i: int, k: int|
        0 <= t < stored.len() && 0 <= i < stored[t].len() && 0 <= k < stored[t][i].len()
            ==> cell_value(#[trigger] stored[t][i][k]) == Some(written[t][i][k])
}

proof fn lemma_cell_reads_back(actual: SqlCell, expected: ExpectedView, limits: IndexLimits)
    requires
        readable(expected, limits),
        cell_value(actual) == Some(written_value(expected)),
    ensures
        cell_outcome(actual, expected, limits) == Ok::<(), IndexError>(()),
{
}

proof fn lemma_cells_read_back(actual: Seq<SqlCell>, expected: Seq<ExpectedView>, limits: IndexLimits)
    requires
        actual.len() == expected.len(),
        forall|k: int| 0 <= k < expected.len() ==> #[trigger] readable(expected[k], limits),
        forall|k: int|
            0 <= k < expected.len() ==> cell_value(#[trigger] actual[k]) == Some(
                written_value(expected[k]),
            ),
    ensures
        cells_outcome(actual, expected, limits) == Ok::<(), IndexError>(()),
    decreases expected.len(),
{
    if expected.len() > 0 {
        let front = expected.drop_last();
        let last = expected.len() - 1;
        assert forall|k: int| 0 <= k < front.len() implies #[trigger] readable(front[k], limits) by {
            assert(front[k] == expected[k]);
        }
        lemma_cells_prefix(actual, expected, limits, last);
        lemma_cell_reads_back(actual[last], expected[last], limits);
    }
}

proof fn lemma_cells_prefix(actual: Seq<SqlCell>, expected: Seq<ExpectedView>, limits: IndexLimits, n: int)
    requires
        0 <= n <= expected.len(),
        actual.len() == expected.len(),
        forall|k: int| 0 <= k < expected.len() ==> #[trigger] readable(expected[k], limits),
        forall|k: int|
            0 <= k < expected.len() ==> cell_value(#[trigger] actual[k]) == Some(
                written_value(expected[k]),
            ),
    ensures
        cells_outcome(actual, expected.subrange(0, n), limits) == Ok::<(), IndexError>(()),
    decreases n,
{
    if n > 0 {
        lemma_cells_prefix(actual, expected, limits, n - 1);
        let prefix = expected.subrange(0, n);
        assert(prefix.drop_last() =~= expected.subrange(0, n - 1));
        lemma_cell_reads_back(actual[n - 1], expected[n - 1], limits);
    }
    if n == expected.len() {
        assert(expected.subrange(0, n) =~= expected);
    }
}

proof fn lemma_rows_read_back(
    actual: Seq<Seq<SqlCell>>,
    expected: Seq<Seq<ExpectedView>>,
    limits: IndexLimits,
    n: int,
)
    requires
        0 <= n <= expected.len(),
        actual.len() == expected.len(),
        forall|i: int| 0 <= i < expected.len() ==> (#[trigger] actual[i]).len() == expected[i].len(),
        forall|i: int, k: int|
            0 <= i < expected.len() && 0 <= k < expected[i].len() ==> #[trigger] readable(
                expected[i][k],
                limits,
            ),
        forall|i: int, k: int|
            0 <= i < expected.len() && 0 <= k < expected[i].len() ==> cell_value(
                #[trigger] actual[i][k],
            ) == Some(written_value(expected[i][k])),
    ensures
        rows_outcome(actual, expected.subrange(0, n), limits) == Ok::<(), IndexError>(()),
    decreases n,
{
    if n > 0 {
        lemma_rows_read_back(actual, expected, limits, n - 1);
        let prefix = expected.subrange(0, n);
        assert(prefix.drop_last() =~= expected.subrange(0, n - 1));
        let row = expected[n - 1];
        assert forall|k: int| 0 <= k < row.len() implies #[trigger] readable(row[k], limits) by {
            assert(readable(expected[n - 1][k], limits));
        }
        assert forall|k: int| 0 <= k < row.len() implies cell_value(#[trigger] actual[n - 1][k])
            == Some(written_value(row[k])) by {
            assert(cell_value(actual[n - 1][k]) == Some(written_value(expected[n - 1][k])));
        }
        lemma_cells_read_back(actual[n - 1], row, limits);
        assert(row_outcome(actual[n - 1], row, limits) == Ok::<(), IndexError>(()));
    }
}

proof fn lemma_tables_read_back(
    actual: Seq<Seq<Seq<SqlCell>>>,
    expected: Seq<Seq<Seq<ExpectedView>>>,
    limits: IndexLimits,
    n: int,
)
    requires
        0 <= n <= expected.len(),
        image_readable(expected, limits),
        image_holds(actual, image_written(expected)),
    ensures
        tables_outcome(actual, expected.subrange(0, n), limits) == Ok::<(), IndexError>(()),
    decreases n,
{
    if n > 0 {
        lemma_tables_read_back(actual, expected, limits, n - 1);
        let prefix = expected.subrange(0, n);
        assert(prefix.drop_last() =~= expected.subrange(0, n - 1));
        let t = n - 1;
        let table = expected[t];
        let written = image_written(expected);
        assert(written[t] == table.map_values(
            |row: Seq<ExpectedView>| row.map_values(|cell: ExpectedView| written_value(cell)),
        ));
        assert forall|i: int| 0 <= i < table.len() implies (#[trigger] actual[t][i]).len()
            == table[i].len() by {
            assert(written[t][i] == table[i].map_values(|cell: ExpectedView| written_value(cell)));
        }
        assert forall|i: int, k: int|
            0 <= i < table.len() && 0 <= k < table[i].len() implies #[trigger] readable(
            table[i][k],
            limits,
        ) by {
            assert(readable(expected[t][i][k], limits));
        }
        assert forall|i: int, k: int|
            0 <= i < table.len() && 0 <= k < table[i].len() implies cell_value(
            #[trigger] actual[t][i][k],
        ) == Some(written_value(table[i][k])) by {
            assert(written[t][i] == table[i].map_values(|cell: ExpectedView| written_value(cell)));
            assert(written[t][i][k] == written_value(table[i][k]));
            assert(actual[t][i].len() == written[t][i].len());
            assert(cell_value(actual[t][i][k]) == Some(written[t][i][k]));
        }
        lemma_rows_read_back(actual[t], table, limits, table.len() as int);
        assert(table.subrange(0, table.len() as int) =~= table);
        assert(table_outcome(actual[t], table, limits) == Ok::<(), IndexError>(()));
    }
}

/// What is written is read back: when every cell of a snapshot's image is
/// readable under `limits`, an image whose cells hold exactly the values
/// the snapshot is written with passes the read-back.
pub proof fn lemma_written_image_reads_back(
    stored: Seq<Seq<Seq<SqlCell>>>,
    snapshot: SnapshotCellsV4,
    limits: IndexLimits,
)
    requires
        image_readable(expected_v4_cells(snapshot), limits),
        image_holds(stored, image_written(expected_v4_cells(snapshot))),
    ensures
        image_outcome(stored, expected_v4_cells(snapshot), limits) == Ok::<(), IndexError>(()),
{
    let expected = expected_v4_cells(snapshot);
    lemma_tables_read_back(stored, expected, limits, expected.len() as int);
    assert(expected.subrange(0, expected.len() as int) =~= expected);
}

/// A readable image never overflows when written.
pub proof fn lemma_readable_image_writes(expected: Seq<Seq<Seq<ExpectedView>>>, limits: IndexLimits)
    requires
        image_readable(expected, limits),
    ensures
        !image_overflows(expected),
{
    assert forall|t: int, i: int, k: int|
        0 <= t < expected.len() && 0 <= i < expected[t].len() && 0 <= k < expected[t][i].len()
            implies !#[trigger] cell_overflows(expected[t][i][k]) by {
        assert(readable(expected[t][i][k], limits));
    }
}

} // verus!
