//! The structural preflight of a v4 image: every row and cell is counted
//! against the row and working limits, and every canonical JSON cell is
//! scanned for the staging it would need, before anything is decoded.

use vstd::prelude::*;
use crate::error::IndexError;
use crate::json_model::utf8_valid;
use crate::json_scan::{cell_preflight_agrees, preflight_json_cell, utf8_valid_from};
use crate::limits::IndexLimits;
use crate::rows::SqlCell;

verus! {

/// Number of tables a v4 image holds, in scan order.
pub const V4_SCAN_TABLE_COUNT: usize = 21;

/// Scan position of `artifact_registrations`, whose column 9 holds the
/// typed source as JSON.
pub const REGISTRATIONS_TABLE: usize = 9;

/// Whether column `column` of scan table `table` holds canonical JSON that
/// must be scanned.
pub open spec fn json_column(table: usize, column: usize) -> bool {
    ||| table == 3 && column == 3
    ||| table == 5 && column == 2
    ||| table == 7 && (column == 7 || column == 15 || column == 17 || column == 21 || column == 23)
    ||| table == 8 && (column == 4 || column == 6 || (10 <= column <= 13))
    ||| table == REGISTRATIONS_TABLE && column == 9
    ||| table == 11 && (column == 8 || (10 <= column <= 12))
    ||| table == 12 && (column == 6 || column == 7 || (9 <= column <= 13))
    ||| table == 15 && column == 6
    ||| table == 17 && (column == 9 || column == 11)
    ||| table == 18 && column == 13
    ||| table == 19 && (column == 7 || column == 8)
    ||| table == 20 && (3 <= column <= 7)
}

/// The JSON columns of each scan table, as the scan lists them: the
/// canonical JSON columns, and column 9 of `artifact_registrations`, which
/// holds an artifact's typed source.
pub open spec fn scan_json_columns() -> Seq<Seq<usize>> {
    seq![
        seq![],
        seq![],
        seq![],
        seq![3usize],
        seq![],
        seq![2usize],
        seq![],
        seq![7usize, 15, 17, 21, 23],
        seq![4usize, 6, 10, 11, 12, 13],
        seq![9usize],
        seq![],
        seq![8usize, 10, 11, 12],
        seq![6usize, 7, 9, 10, 11, 12, 13],
        seq![],
        seq![],
        seq![6usize],
        seq![],
        seq![9usize, 11],
        seq![13usize],
        seq![7usize, 8],
        seq![3usize, 4, 5, 6, 7],
    ]
}

/// A cell is scanned as JSON exactly when its column is one of its
/// table's JSON columns; no column of a table past the scan is.
pub proof fn lemma_json_columns_are_the_scan_list(table: usize, column: usize)
    ensures
        table < V4_SCAN_TABLE_COUNT ==> (json_column(table, column) <==> scan_json_columns()[
            table as int
        ].contains(column)),
        table >= V4_SCAN_TABLE_COUNT ==> !json_column(table, column),
{
    let list = scan_json_columns();
    assert(list.len() == V4_SCAN_TABLE_COUNT);
    if table < V4_SCAN_TABLE_COUNT {
        let columns = list[table as int];
        if columns.contains(column) {
            let k = choose|k: int| 0 <= k < columns.len() && columns[k] == column;
            assert(json_column(table, column));
        }
        if json_column(table, column) {
            if table == 3 {
                assert(columns[0] == column);
            } else if table == 5 {
                assert(columns[0] == column);
            } else if table == 7 {
                if column == 7 { assert(columns[0] == column); }
                else if column == 15 { assert(columns[1] == column); }
                else if column == 17 { assert(columns[2] == column); }
                else if column == 21 { assert(columns[3] == column); }
                else { assert(columns[4] == column); }
            } else if table == 8 {
                if column == 4 { assert(columns[0] == column); }
                else if column == 6 { assert(columns[1] == column); }
                else { assert(columns[column - 8] == column); }
            } else if table == 9 {
                assert(columns[0] == column);
            } else if table == 11 {
                if column == 8 { assert(columns[0] == column); }
                else { assert(columns[column - 9] == column); }
            } else if table == 12 {
                if column == 6 { assert(columns[0] == column); }
                else if column == 7 { assert(columns[1] == column); }
                else { assert(columns[column - 7] == column); }
            } else if table == 15 {
                assert(columns[0] == column);
            } else if table == 17 {
                if column == 9 { assert(columns[0] == column); }
                else { assert(columns[1] == column); }
            } else if table == 18 {
                assert(columns[0] == column);
            } else if table == 19 {
                if column == 7 { assert(columns[0] == column); }
                else { assert(columns[1] == column); }
            } else {
                assert(columns[column - 3] == column);
            }
        }
    }
}

/// Decides whether a scanned cell holds canonical JSON.
pub fn is_json_column(table: usize, column: usize) -> (result: bool)
    ensures
        result == json_column(table, column),
{
    match table {
        3 => column == 3,
        5 => column == 2,
        7 => column == 7 || column == 15 || column == 17 || column == 21 || column == 23,
        8 => column == 4 || column == 6 || (10 <= column && column <= 13),
        9 => column == 9,
        11 => column == 8 || (10 <= column && column <= 12),
        12 => column == 6 || column == 7 || (9 <= column && column <= 13),
        15 => column == 6,
        17 => column == 9 || column == 11,
        18 => column == 13,
        19 => column == 7 || column == 8,
        20 => 3 <= column && column <= 7,
        _ => false,
    }
}

/// The running totals of a structural preflight.
#[derive(Clone, Copy, Debug, PartialEq, Eq)]
pub struct StructurePreflight {
    pub rows_seen: u64,
    pub text_seen: u64,
    pub integer_cells: u64,
    pub max_json_staging: u64,
}

impl StructurePreflight {
    pub fn new() -> (result: StructurePreflight)
        ensures
            result == (StructurePreflight {
                rows_seen: 0,
                text_seen: 0,
                integer_cells: 0,
                max_json_staging: 0,
            }),
    {
        StructurePreflight { rows_seen: 0, text_seen: 0, integer_cells: 0, max_json_staging: 0 }
    }

    /// Counts one more row against `max_rows`.
    pub fn begin_row(&mut self, limits: IndexLimits) -> (result: Result<(), IndexError>)
        ensures
            final(self).text_seen == old(self).text_seen,
            final(self).integer_cells == old(self).integer_cells,
            final(self).max_json_staging == old(self).max_json_staging,
            old(self).rows_seen == u64::MAX ==> result == Err::<(), IndexError>(
                IndexError::IntegerOutOfRange,
            ) && final(self).rows_seen == old(self).rows_seen,
            old(self).rows_seen < u64::MAX ==> final(self).rows_seen == old(self).rows_seen + 1
                && result == if old(self).rows_seen + 1 > limits.max_rows {
                Err::<(), IndexError>(
                    IndexError::Incomplete {
                        limit: limits.max_rows,
                        observed: (old(self).rows_seen + 1) as u64,
                    },
                )
            } else {
                Ok::<(), IndexError>(())
            },
    {
        self.rows_seen = match self.rows_seen.checked_add(1) {
            Some(rows) => rows,
            None => return Err(IndexError::IntegerOutOfRange),
        };
        if self.rows_seen > limits.max_rows {
            return Err(IndexError::Incomplete { limit: limits.max_rows, observed: self.rows_seen });
        }
        Ok(())
    }

    /// Counts one cell: nothing for NULL, one integer cell for an integer,
    /// the bytes of a text (which must be UTF-8), and for a JSON column the
    /// staging its scan reports, kept if it is the largest so far.  Real
    /// and blob values are not part of the schema.  Returns the scan of a
    /// JSON cell.
    pub fn cell(&mut self, cell: &SqlCell, json: bool) -> (result: Result<Option<u64>, IndexError>)
        ensures
            final(self).rows_seen == old(self).rows_seen,
            match *cell {
                SqlCell::Null => result == Ok::<Option<u64>, IndexError>(None) && *final(self)
                    == *old(self),
                SqlCell::Integer(_) => if old(self).integer_cells == u64::MAX {
                    result == Err::<Option<u64>, IndexError>(IndexError::IntegerOutOfRange)
                } else {
                    result == Ok::<Option<u64>, IndexError>(None) && *final(self) == (
                    StructurePreflight {
                        integer_cells: (old(self).integer_cells + 1) as u64,
                        ..*old(self)
                    })
                },
                SqlCell::Text(bytes) => if !utf8_valid(bytes@, 0) {
                    result == Err::<Option<u64>, IndexError>(IndexError::CorruptIndex)
                } else if old(self).text_seen + bytes@.len() > u64::MAX {
                    result == Err::<Option<u64>, IndexError>(IndexError::IntegerOutOfRange)
                } else if !json {
                    result == Ok::<Option<u64>, IndexError>(None) && *final(self) == (
                    StructurePreflight {
                        text_seen: (old(self).text_seen + bytes@.len()) as u64,
                        ..*old(self)
                    })
                } else {
                    &&& final(self).text_seen == old(self).text_seen + bytes@.len()
                    &&& final(self).integer_cells == old(self).integer_cells
                    &&& match result {
                        Ok(scan) => scan matches Some(staging) && cell_preflight_agrees(
                            bytes@,
                            Ok::<u64, IndexError>(staging),
                        ) && final(self).max_json_staging == if staging > old(
                            self,
                        ).max_json_staging {
                            staging
                        } else {
                            old(self).max_json_staging
                        },
                        Err(error) => cell_preflight_agrees(
                            bytes@,
                            Err::<u64, IndexError>(error),
                        ),
                    }
                },
                SqlCell::Real | SqlCell::Blob(_) => result == Err::<Option<u64>, IndexError>(
                    IndexError::CorruptIndex,
                ),
            },
    {
        match cell {
            SqlCell::Null => Ok(None),
            SqlCell::Integer(_) => {
                self.integer_cells = match self.integer_cells.checked_add(1) {
                    Some(cells) => cells,
                    None => return Err(IndexError::IntegerOutOfRange),
                };
                Ok(None)
            },
            SqlCell::Text(bytes) => {
                if !utf8_valid_from(bytes, 0) {
                    return Err(IndexError::CorruptIndex);
                }
                self.text_seen = match self.text_seen.checked_add(bytes.len() as u64) {
                    Some(text) => text,
                    None => return Err(IndexError::IntegerOutOfRange),
                };
                if !json {
                    return Ok(None);
                }
                let staging = match preflight_json_cell(bytes) {
                    Ok(staging) => staging,
                    Err(error) => return Err(error),
                };
                if staging > self.max_json_staging {
                    self.max_json_staging = staging;
                }
                Ok(Some(staging))
            },
            SqlCell::Real | SqlCell::Blob(_) => Err(IndexError::CorruptIndex),
        }
    }

    /// Closes the preflight: the SQL bytes seen (text, eight per integer
    /// cell, one per row) must fit the working limit.  Returns the largest
    /// JSON staging seen.
    pub fn finish(&self, limits: IndexLimits) -> (result: Result<u64, IndexError>)
        ensures
            ({
                let sql = self.text_seen + 8 * self.integer_cells + self.rows_seen;
                if sql > u64::MAX {
                    result == Err::<u64, IndexError>(IndexError::IntegerOutOfRange)
                } else if sql > limits.max_working_bytes {
                    result == Err::<u64, IndexError>(
                        IndexError::Incomplete {
                            limit: limits.max_working_bytes,
                            observed: sql as u64,
                        },
                    )
                } else {
                    result == Ok::<u64, IndexError>(self.max_json_staging)
                }
            }),
    {
        let sql: u128 = self.text_seen as u128 + 8 * (self.integer_cells as u128)
            + self.rows_seen as u128;
        if sql > 0xffff_ffff_ffff_ffff {
            return Err(IndexError::IntegerOutOfRange);
        }
        if sql > limits.max_working_bytes as u128 {
            return Err(
                IndexError::Incomplete { limit: limits.max_working_bytes, observed: sql as u64 },
            );
        }
        Ok(self.max_json_staging)
    }
}

} // verus!
