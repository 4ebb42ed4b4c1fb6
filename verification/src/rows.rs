//! Read-back of a rebuilt image: each SQL cell compared with the value the
//! snapshot expects there, and the cursors that walk the retained tables
//! while the journal is replayed against them.

use vstd::prelude::*;
use crate::error::IndexError;
use crate::limits::IndexLimits;

verus! {

/// A SQL value as SQLite returns it, borrowed; a floating-point value is
/// only known to be one.
pub enum SqlCell<'a> {
    Null,
    Integer(i64),
    Real,
    Text(&'a [u8]),
    Blob(&'a [u8]),
}

/// What one cell of a stored row must hold, borrowed from the snapshot.
pub enum ExpectedCell<'a> {
    /// An unsigned integer, stored as SQLite's signed integer.
    U64(u64),
    /// A boolean, stored as 0 or 1.
    Bool(bool),
    /// Exactly this text.
    Text(&'a [u8]),
    /// This text, or NULL for none.
    OptionalText(Option<&'a [u8]>),
    /// Exactly this text, which must also be well formed in its own
    /// right (canonical JSON that re-encodes to itself, a baseline policy,
    /// a provenance of the same run); `well_formed` records that verdict.
    CheckedText { text: &'a [u8], well_formed: bool },
}

/// The value of an expected cell.
pub enum ExpectedView {
    U64(u64),
    Bool(bool),
    Text(Seq<u8>),
    OptionalText(Option<Seq<u8>>),
    CheckedText(Seq<u8>, bool),
}

impl<'a> View for ExpectedCell<'a> {
    type V = ExpectedView;

    open spec fn view(&self) -> ExpectedView {
        match *self {
            ExpectedCell::U64(value) => ExpectedView::U64(value),
            ExpectedCell::Bool(value) => ExpectedView::Bool(value),
            ExpectedCell::Text(text) => ExpectedView::Text(text@),
            ExpectedCell::OptionalText(text) => ExpectedView::OptionalText(
                match text {
                    Some(text) => Some(text@),
                    None => None,
                },
            ),
            ExpectedCell::CheckedText { text, well_formed } => ExpectedView::CheckedText(
                text@,
                well_formed,
            ),
        }
    }
}

/// The values of a row of expected cells.
pub open spec fn cells_view(cells: Seq<ExpectedCell>) -> Seq<ExpectedView> {
    cells.map_values(|cell: ExpectedCell| cell@)
}

/// The values of a table of expected rows.
pub open spec fn table_view(rows: Seq<Vec<ExpectedCell>>) -> Seq<Seq<ExpectedView>> {
    rows.map_values(|row: Vec<ExpectedCell>| cells_view(row@))
}

/// The values of an image's expected tables.
pub open spec fn image_view(tables: Seq<Vec<Vec<ExpectedCell>>>) -> Seq<Seq<Seq<ExpectedView>>> {
    tables.map_values(|table: Vec<Vec<ExpectedCell>>| table_view(table@))
}

/// The cells of a table as read back, row by row.
pub open spec fn stored_table(rows: Seq<Vec<SqlCell>>) -> Seq<Seq<SqlCell>> {
    rows.map_values(|row: Vec<SqlCell>| row@)
}

/// The tables of an image as read back.
pub open spec fn stored_image(tables: Seq<Vec<Vec<SqlCell>>>) -> Seq<Seq<Seq<SqlCell>>> {
    tables.map_values(|table: Vec<Vec<SqlCell>>| stored_table(table@))
}

/// The outcome of comparing a text cell: it must be text no longer than
/// the query budget and equal to `expected`.
pub open spec fn text_outcome(actual: SqlCell, expected: Seq<u8>, limits: IndexLimits) -> Result<
    (),
    IndexError,
> {
    match actual {
        SqlCell::Text(bytes) => if bytes@.len() <= limits.max_query_bytes && bytes@ == expected {
            Ok(())
        } else {
            Err(IndexError::CorruptIndex)
        },
        _ => Err(IndexError::CorruptIndex),
    }
}

/// The outcome of comparing one cell with what is expected there.
pub open spec fn cell_outcome(actual: SqlCell, expected: ExpectedView, limits: IndexLimits) -> Result<
    (),
    IndexError,
> {
    match expected {
        ExpectedView::U64(value) => match actual {
            SqlCell::Integer(stored) => if value > i64::MAX {
                Err(IndexError::IntegerOutOfRange)
            } else if stored != value {
                Err(IndexError::CorruptIndex)
            } else {
                Ok(())
            },
            _ => Err(IndexError::CorruptIndex),
        },
        ExpectedView::Bool(value) => match actual {
            SqlCell::Integer(stored) => if stored == (if value {
                1i64
            } else {
                0i64
            }) {
                Ok(())
            } else {
                Err(IndexError::CorruptIndex)
            },
            _ => Err(IndexError::CorruptIndex),
        },
        ExpectedView::Text(text) => text_outcome(actual, text, limits),
        ExpectedView::OptionalText(text) => match text {
            Some(text) => text_outcome(actual, text, limits),
            None => if actual is Null {
                Ok(())
            } else {
                Err(IndexError::CorruptIndex)
            },
        },
        ExpectedView::CheckedText(text, well_formed) => match text_outcome(actual, text, limits) {
            Err(error) => Err(error),
            Ok(()) => if well_formed {
                Ok(())
            } else {
                Err(IndexError::CorruptIndex)
            },
        },
    }
}

/// The outcome of comparing a row cell by cell, stopping at the first
/// mismatch.
pub open spec fn cells_outcome(
    actual: Seq<SqlCell>,
    expected: Seq<ExpectedView>,
    limits: IndexLimits,
) -> Result<(), IndexError>
    decreases expected.len(),
{
    if expected.len() == 0 {
        Ok(())
    } else {
        match cells_outcome(actual, expected.drop_last(), limits) {
            Err(error) => Err(error),
            Ok(()) => cell_outcome(actual[expected.len() - 1], expected.last(), limits),
        }
    }
}

/// The outcome of comparing a stored row: the column counts must agree,
/// then each cell in order.
pub open spec fn row_outcome(actual: Seq<SqlCell>, expected: Seq<ExpectedView>, limits: IndexLimits) -> Result<
    (),
    IndexError,
> {
    if actual.len() != expected.len() {
        Err(IndexError::CorruptIndex)
    } else {
        cells_outcome(actual, expected, limits)
    }
}

/// The outcome of meeting the expected rows of a table in order: each
/// must find a stored row at its position and match it.
pub open spec fn rows_outcome(
    actual: Seq<Seq<SqlCell>>,
    expected: Seq<Seq<ExpectedView>>,
    limits: IndexLimits,
) -> Result<(), IndexError>
    decreases expected.len(),
{
    if expected.len() == 0 {
        Ok(())
    } else {
        match rows_outcome(actual, expected.drop_last(), limits) {
            Err(error) => Err(error),
            Ok(()) => if expected.len() - 1 >= actual.len() {
                Err(IndexError::CorruptIndex)
            } else {
                row_outcome(actual[expected.len() - 1], expected.last(), limits)
            },
        }
    }
}

/// The outcome of reading a whole table back: every expected row is met
/// in order, and a stored row left over is corruption.
pub open spec fn table_outcome(
    actual: Seq<Seq<SqlCell>>,
    expected: Seq<Seq<ExpectedView>>,
    limits: IndexLimits,
) -> Result<(), IndexError> {
    match rows_outcome(actual, expected, limits) {
        Err(error) => Err(error),
        Ok(()) => if actual.len() > expected.len() {
            Err(IndexError::CorruptIndex)
        } else {
            Ok(())
        },
    }
}

/// The outcome of reading tables back one after another, stopping at the
/// first that fails.
pub open spec fn tables_outcome(
    actual: Seq<Seq<Seq<SqlCell>>>,
    expected: Seq<Seq<Seq<ExpectedView>>>,
    limits: IndexLimits,
) -> Result<(), IndexError>
    decreases expected.len(),
{
    if expected.len() == 0 {
        Ok(())
    } else {
        match tables_outcome(actual, expected.drop_last(), limits) {
            Err(error) => Err(error),
            Ok(()) => table_outcome(actual[expected.len() - 1], expected.last(), limits),
        }
    }
}

/// The outcome of reading an image back: it must hold as many tables as
/// expected, each read back in order.
pub open spec fn image_outcome(
    actual: Seq<Seq<Seq<SqlCell>>>,
    expected: Seq<Seq<Seq<ExpectedView>>>,
    limits: IndexLimits,
) -> Result<(), IndexError> {
    if actual.len() != expected.len() {
        Err(IndexError::CorruptIndex)
    } else {
        tables_outcome(actual, expected, limits)
    }
}

/// Byte-wise equality of two borrowed byte strings.
fn slices_eq(left: &[u8], right: &[u8]) -> (result: bool)
    ensures
        result == (left@ == right@),
{
    if left.len() != right.len() {
        return false;
    }
    let mut i: usize = 0;
    while i < left.len()
        invariant
            left@.len() == right@.len(),
            i <= left@.len(),
            forall|j: int| 0 <= j < i ==> left@[j] == #[trigger] right@[j],
        decreases left@.len() - i,
    {
        if left[i] != right[i] {
            return false;
        }
        i += 1;
    }
    proof {
        assert(left@ =~= right@);
    }
    true
}

fn compare_text(actual: &SqlCell, expected: &[u8], limits: IndexLimits) -> (result: Result<
    (),
    IndexError,
>)
    ensures
        result == text_outcome(*actual, expected@, limits),
{
    match actual {
        SqlCell::Text(bytes) => {
            if bytes.len() as u64 > limits.max_query_bytes || !slices_eq(expected, bytes) {
                return Err(IndexError::CorruptIndex);
            }
            Ok(())
        },
        _ => Err(IndexError::CorruptIndex),
    }
}

/// Compares one stored cell with what the snapshot expects there.
pub fn compare_cell(actual: &SqlCell, expected: &ExpectedCell, limits: IndexLimits) -> (result:
    Result<(), IndexError>)
    ensures
        result == cell_outcome(*actual, expected@, limits),
{
    match expected {
        ExpectedCell::U64(value) => match actual {
            SqlCell::Integer(stored) => {
                if *value > i64::MAX as u64 {
                    return Err(IndexError::IntegerOutOfRange);
                }
                if *stored != *value as i64 {
                    return Err(IndexError::CorruptIndex);
                }
                Ok(())
            },
            _ => Err(IndexError::CorruptIndex),
        },
        ExpectedCell::Bool(value) => match actual {
            SqlCell::Integer(stored) => {
                let flag: i64 = if *value {
                    1
                } else {
                    0
                };
                if *stored != flag {
                    return Err(IndexError::CorruptIndex);
                }
                Ok(())
            },
            _ => Err(IndexError::CorruptIndex),
        },
        ExpectedCell::Text(text) => compare_text(actual, text, limits),
        ExpectedCell::OptionalText(text) => match text {
            Some(text) => compare_text(actual, text, limits),
            None => match actual {
                SqlCell::Null => Ok(()),
                _ => Err(IndexError::CorruptIndex),
            },
        },
        ExpectedCell::CheckedText { text, well_formed } => {
            match compare_text(actual, text, limits) {
                Ok(()) => {},
                Err(error) => return Err(error),
            }
            if !*well_formed {
                return Err(IndexError::CorruptIndex);
            }
            Ok(())
        },
    }
}

/// Compares a stored row with what the snapshot expects: the column
/// counts must agree, then each cell in order.
pub fn compare_row(actual: &[SqlCell], expected: &[ExpectedCell], limits: IndexLimits) -> (result:
    Result<(), IndexError>)
    ensures
        result == row_outcome(actual@, cells_view(expected@), limits),
{
    let ghost view = cells_view(expected@);
    if actual.len() != expected.len() {
        return Err(IndexError::CorruptIndex);
    }
    let mut k: usize = 0;
    while k < expected.len()
        invariant
            k <= expected@.len(),
            actual@.len() == expected@.len(),
            view == cells_view(expected@),
            cells_outcome(actual@, view.subrange(0, k as int), limits) == Ok::<(), IndexError>(()),
        decreases expected@.len() - k,
    {
        proof {
            assert(view.subrange(0, k + 1int).drop_last() =~= view.subrange(0, k as int));
            assert(view.subrange(0, k + 1int).last() == expected@[k as int]@);
        }
        match compare_cell(&actual[k], &expected[k], limits) {
            Ok(()) => {},
            Err(error) => {
                proof {
                    lemma_cells_outcome_stops(actual@, view, k + 1, limits);
                }
                return Err(error);
            },
        }
        k += 1;
    }
    proof {
        assert(view.subrange(0, view.len() as int) =~= view);
    }
    Ok(())
}

/// Reads a table back: every expected row must meet a stored row at its
/// position and match it, and no stored row may be left over.
pub fn compare_table(
    actual: &Vec<Vec<SqlCell>>,
    expected: &Vec<Vec<ExpectedCell>>,
    limits: IndexLimits,
) -> (result: Result<(), IndexError>)
    ensures
        result == table_outcome(stored_table(actual@), table_view(expected@), limits),
{
    let ghost stored = stored_table(actual@);
    let ghost view = table_view(expected@);
    let mut i: usize = 0;
    while i < expected.len()
        invariant
            i <= expected@.len(),
            stored == stored_table(actual@),
            view == table_view(expected@),
            rows_outcome(stored, view.subrange(0, i as int), limits) == Ok::<(), IndexError>(()),
        decreases expected@.len() - i,
    {
        proof {
            assert(view.subrange(0, i + 1int).drop_last() =~= view.subrange(0, i as int));
            assert(view.subrange(0, i + 1int).last() == cells_view(expected@[i as int]@));
        }
        if i >= actual.len() {
            proof {
                lemma_rows_outcome_stops(stored, view, i + 1, limits);
            }
            return Err(IndexError::CorruptIndex);
        }
        proof {
            assert(stored[i as int] == actual@[i as int]@);
        }
        match compare_row(actual[i].as_slice(), expected[i].as_slice(), limits) {
            Ok(()) => {},
            Err(error) => {
                proof {
                    lemma_rows_outcome_stops(stored, view, i + 1, limits);
                }
                return Err(error);
            },
        }
        i += 1;
    }
    proof {
        assert(view.subrange(0, view.len() as int) =~= view);
    }
    if actual.len() > expected.len() {
        return Err(IndexError::CorruptIndex);
    }
    Ok(())
}

/// Reads an image back: it must hold as many tables as expected, and each
/// is read back in order until one fails.
pub fn compare_image(
    actual: &Vec<Vec<Vec<SqlCell>>>,
    expected: &Vec<Vec<Vec<ExpectedCell>>>,
    limits: IndexLimits,
) -> (result: Result<(), IndexError>)
    ensures
        result == image_outcome(stored_image(actual@), image_view(expected@), limits),
{
    let ghost stored = stored_image(actual@);
    let ghost view = image_view(expected@);
    if actual.len() != expected.len() {
        return Err(IndexError::CorruptIndex);
    }
    let mut t: usize = 0;
    while t < expected.len()
        invariant
            t <= expected@.len(),
            actual@.len() == expected@.len(),
            stored == stored_image(actual@),
            view == image_view(expected@),
            tables_outcome(stored, view.subrange(0, t as int), limits) == Ok::<(), IndexError>(()),
        decreases expected@.len() - t,
    {
        proof {
            assert(view.subrange(0, t + 1int).drop_last() =~= view.subrange(0, t as int));
            assert(view.subrange(0, t + 1int).last() == table_view(expected@[t as int]@));
            assert(stored[t as int] == stored_table(actual@[t as int]@));
        }
        match compare_table(&actual[t], &expected[t], limits) {
            Ok(()) => {},
            Err(error) => {
                proof {
                    lemma_tables_outcome_stops(stored, view, t + 1, limits);
                }
                return Err(error);
            },
        }
        t += 1;
    }
    proof {
        assert(view.subrange(0, view.len() as int) =~= view);
    }
    Ok(())
}

/// Once a prefix of the cells mismatches, the whole row does, with the
/// same error.
pub proof fn lemma_cells_outcome_stops(
    actual: Seq<SqlCell>,
    expected: Seq<ExpectedView>,
    k: int,
    limits: IndexLimits,
)
    requires
        0 <= k <= expected.len(),
        cells_outcome(actual, expected.subrange(0, k), limits) is Err,
    ensures
        cells_outcome(actual, expected, limits) == cells_outcome(
            actual,
            expected.subrange(0, k),
            limits,
        ),
    decreases expected.len() - k,
{
    if k < expected.len() {
        assert(expected.subrange(0, k + 1).drop_last() =~= expected.subrange(0, k));
        lemma_cells_outcome_stops(actual, expected, k + 1, limits);
    } else {
        assert(expected.subrange(0, k) =~= expected);
    }
}

/// Once a prefix of the expected rows fails, the whole table does, with
/// the same error.
pub proof fn lemma_rows_outcome_stops(
    actual: Seq<Seq<SqlCell>>,
    expected: Seq<Seq<ExpectedView>>,
    k: int,
    limits: IndexLimits,
)
    requires
        0 <= k <= expected.len(),
        rows_outcome(actual, expected.subrange(0, k), limits) is Err,
    ensures
        rows_outcome(actual, expected, limits) == rows_outcome(
            actual,
            expected.subrange(0, k),
            limits,
        ),
    decreases expected.len() - k,
{
    if k < expected.len() {
        assert(expected.subrange(0, k + 1).drop_last() =~= expected.subrange(0, k));
        lemma_rows_outcome_stops(actual, expected, k + 1, limits);
    } else {
        assert(expected.subrange(0, k) =~= expected);
    }
}

/// Once a prefix of the tables fails, the whole image does, with the same
/// error.
pub proof fn lemma_tables_outcome_stops(
    actual: Seq<Seq<Seq<SqlCell>>>,
    expected: Seq<Seq<Seq<ExpectedView>>>,
    k: int,
    limits: IndexLimits,
)
    requires
        0 <= k <= expected.len(),
        tables_outcome(actual, expected.subrange(0, k), limits) is Err,
    ensures
        tables_outcome(actual, expected, limits) == tables_outcome(
            actual,
            expected.subrange(0, k),
            limits,
        ),
    decreases expected.len() - k,
{
    if k < expected.len() {
        assert(expected.subrange(0, k + 1).drop_last() =~= expected.subrange(0, k));
        lemma_tables_outcome_stops(actual, expected, k + 1, limits);
    } else {
        assert(expected.subrange(0, k) =~= expected);
    }
}

/// A table that reads back cleanly holds exactly the expected rows, each
/// of them matching.
pub proof fn lemma_table_outcome_ok(
    actual: Seq<Seq<SqlCell>>,
    expected: Seq<Seq<ExpectedView>>,
    limits: IndexLimits,
)
    requires
        table_outcome(actual, expected, limits) is Ok,
    ensures
        actual.len() == expected.len(),
        forall|i: int|
            0 <= i < expected.len() ==> #[trigger] row_outcome(actual[i], expected[i], limits)
                is Ok,
{
    lemma_rows_outcome_ok(actual, expected, limits);
}

proof fn lemma_rows_outcome_ok(
    actual: Seq<Seq<SqlCell>>,
    expected: Seq<Seq<ExpectedView>>,
    limits: IndexLimits,
)
    requires
        rows_outcome(actual, expected, limits) is Ok,
    ensures
        expected.len() <= actual.len(),
        forall|i: int|
            0 <= i < expected.len() ==> #[trigger] row_outcome(actual[i], expected[i], limits)
                is Ok,
    decreases expected.len(),
{
    if expected.len() > 0 {
        lemma_rows_outcome_ok(actual, expected.drop_last(), limits);
        assert forall|i: int| 0 <= i < expected.len() implies #[trigger] row_outcome(
            actual[i],
            expected[i],
            limits,
        ) is Ok by {
            if i < expected.len() - 1 {
                assert(expected.drop_last()[i] == expected[i]);
            }
        }
    }
}

/// An image that reads back cleanly holds exactly the expected tables,
/// each with exactly the expected rows, each row matching.
pub proof fn lemma_image_outcome_ok(
    actual: Seq<Seq<Seq<SqlCell>>>,
    expected: Seq<Seq<Seq<ExpectedView>>>,
    limits: IndexLimits,
)
    requires
        image_outcome(actual, expected, limits) is Ok,
    ensures
        actual.len() == expected.len(),
        forall|t: int|
            0 <= t < expected.len() ==> (#[trigger] actual[t]).len() == expected[t].len(),
        forall|t: int, i: int|
            0 <= t < expected.len() && 0 <= i < expected[t].len() ==> #[trigger] row_outcome(
                actual[t][i],
                expected[t][i],
                limits,
            ) is Ok,
{
    lemma_tables_outcome_ok(actual, expected, limits);
}

proof fn lemma_tables_outcome_ok(
    actual: Seq<Seq<Seq<SqlCell>>>,
    expected: Seq<Seq<Seq<ExpectedView>>>,
    limits: IndexLimits,
)
    requires
        tables_outcome(actual, expected, limits) is Ok,
    ensures
        forall|t: int|
            0 <= t < expected.len() ==> (#[trigger] actual[t]).len() == expected[t].len(),
        forall|t: int, i: int|
            0 <= t < expected.len() && 0 <= i < expected[t].len() ==> #[trigger] row_outcome(
                actual[t][i],
                expected[t][i],
                limits,
            ) is Ok,
    decreases expected.len(),
{
    if expected.len() > 0 {
        let last = expected.len() - 1;
        lemma_tables_outcome_ok(actual, expected.drop_last(), limits);
        lemma_table_outcome_ok(actual[last], expected[last], limits);
        assert forall|t: int| 0 <= t < expected.len() implies (#[trigger] actual[t]).len()
            == expected[t].len() by {
            if t < last {
                assert(expected.drop_last()[t] == expected[t]);
            }
        }
        assert forall|t: int, i: int|
            0 <= t < expected.len() && 0 <= i < expected[t].len() implies #[trigger] row_outcome(
            actual[t][i],
            expected[t][i],
            limits,
        ) is Ok by {
            if t < last {
                assert(expected.drop_last()[t] == expected[t]);
            }
        }
    }
}

/// The retained tables that a replayed journal is compared against, row
/// by row.
#[derive(Clone, Copy, Debug, PartialEq, Eq, Structural)]
pub enum ComparedTable {
    Events,
    Registrations,
    Plans,
    Contexts,
    Executions,
    Claims,
}

/// How far the comparison has reached in each retained table.
#[derive(Clone, Copy, Debug, PartialEq, Eq)]
pub struct ComparatorCursor {
    pub events: usize,
    pub registrations: usize,
    pub plans: usize,
    pub contexts: usize,
    pub executions: usize,
    pub claims: usize,
}

impl ComparatorCursor {
    /// The position reached in one table.
    pub open spec fn at(self, table: ComparedTable) -> usize {
        match table {
            ComparedTable::Events => self.events,
            ComparedTable::Registrations => self.registrations,
            ComparedTable::Plans => self.plans,
            ComparedTable::Contexts => self.contexts,
            ComparedTable::Executions => self.executions,
            ComparedTable::Claims => self.claims,
        }
    }

    /// A comparison that has not yet reached any row.
    pub fn new() -> (result: ComparatorCursor)
        ensures
            forall|table: ComparedTable| #[trigger] result.at(table) == 0,
    {
        ComparatorCursor {
            events: 0,
            registrations: 0,
            plans: 0,
            contexts: 0,
            executions: 0,
            claims: 0,
        }
    }

    /// The position of the next row of `table`, which holds `len` rows: a
    /// journal event with no row left to meet it means the image is
    /// corrupt.
    pub fn next_row(&self, table: ComparedTable, len: usize) -> (result: Result<usize, IndexError>)
        ensures
            self.at(table) < len ==> result == Ok::<usize, IndexError>(self.at(table)),
            self.at(table) >= len ==> result == Err::<usize, IndexError>(IndexError::CorruptIndex),
    {
        let position = match table {
            ComparedTable::Events => self.events,
            ComparedTable::Registrations => self.registrations,
            ComparedTable::Plans => self.plans,
            ComparedTable::Contexts => self.contexts,
            ComparedTable::Executions => self.executions,
            ComparedTable::Claims => self.claims,
        };
        if position >= len {
            return Err(IndexError::CorruptIndex);
        }
        Ok(position)
    }

    /// Moves past the row of `table` that was just matched.
    pub fn advance(&mut self, table: ComparedTable)
        requires
            old(self).at(table) < usize::MAX,
        ensures
            final(self).at(table) == old(self).at(table) + 1,
            forall|other: ComparedTable|
                other != table ==> #[trigger] final(self).at(other) == old(self).at(other),
    {
        match table {
            ComparedTable::Events => self.events = self.events + 1,
            ComparedTable::Registrations => self.registrations = self.registrations + 1,
            ComparedTable::Plans => self.plans = self.plans + 1,
            ComparedTable::Contexts => self.contexts = self.contexts + 1,
            ComparedTable::Executions => self.executions = self.executions + 1,
            ComparedTable::Claims => self.claims = self.claims + 1,
        }
    }

    /// Closes the comparison: every retained row must have been met by the
    /// journal.  `lens` holds the row counts of the tables in the order of
    /// `ComparedTable`.
    pub fn finish(&self, lens: [usize; 6]) -> (result: Result<(), IndexError>)
        ensures
            result == if self.events == lens@[0] && self.registrations == lens@[1] && self.plans
                == lens@[2] && self.contexts == lens@[3] && self.executions == lens@[4]
                && self.claims == lens@[5] {
                Ok::<(), IndexError>(())
            } else {
                Err::<(), IndexError>(IndexError::CorruptIndex)
            },
    {
        if self.events != lens[0] || self.registrations != lens[1] || self.plans != lens[2]
            || self.contexts != lens[3] || self.executions != lens[4] || self.claims != lens[5] {
            return Err(IndexError::CorruptIndex);
        }
        Ok(())
    }
}

} // verus!
