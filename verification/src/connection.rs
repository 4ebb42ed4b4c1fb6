//! What a configured SQLite connection must report: the limits installed
//! on it and the pragmas read back from it.

use vstd::prelude::*;
use vstd::string::StringSliceAdditionalSpecFns;
use crate::classify::str_eq;
use crate::error::IndexError;
use crate::limits::{IndexLimits, PAGE_SIZE};

verus! {

/// The SQLite run-time limits a connection is held to, in installation
/// order: the value length, the statement length, the column count, the
/// compound-select terms, the expression depth and the bound variables.
#[derive(Clone, Copy, Debug, PartialEq, Eq)]
pub struct SqliteLimitValues {
    pub length: i32,
    pub sql_length: i32,
    pub column: i32,
    pub compound_select: i32,
    pub expr_depth: i32,
    pub variable_number: i32,
}

/// The run-time limits of a connection under `limits`: an image no longer
/// than the serialized bound, a statement no longer than the statement
/// bound, and fixed schema-sized ceilings.  Bounds beyond `i32` are out of
/// range.
pub fn sqlite_limit_values(limits: IndexLimits) -> (result: Result<SqliteLimitValues, IndexError>)
    ensures
        (limits.max_serialized_bytes > i32::MAX || limits.max_statement_bytes > i32::MAX)
            ==> result == Err::<SqliteLimitValues, IndexError>(IndexError::IntegerOutOfRange),
        (limits.max_serialized_bytes <= i32::MAX && limits.max_statement_bytes <= i32::MAX)
            ==> result == Ok::<SqliteLimitValues, IndexError>(
            SqliteLimitValues {
                length: limits.max_serialized_bytes as i32,
                sql_length: limits.max_statement_bytes as i32,
                column: 64,
                compound_select: 32,
                expr_depth: 128,
                variable_number: 256,
            },
        ),
{
    if limits.max_serialized_bytes > i32::MAX as u64 || limits.max_statement_bytes
        > i32::MAX as u64 {
        return Err(IndexError::IntegerOutOfRange);
    }
    Ok(
        SqliteLimitValues {
            length: limits.max_serialized_bytes as i32,
            sql_length: limits.max_statement_bytes as i32,
            column: 64,
            compound_select: 32,
            expr_depth: 128,
            variable_number: 256,
        },
    )
}

/// A statement is run only when it fits the statement bound.
pub fn admit_statement(statement: &str, limits: IndexLimits) -> (result: Result<(), IndexError>)
    ensures
        statement.len() > limits.max_statement_bytes ==> result == Err::<(), IndexError>(
            IndexError::Incomplete {
                limit: limits.max_statement_bytes,
                observed: statement.len() as u64,
            },
        ),
        statement.len() <= limits.max_statement_bytes ==> result == Ok::<
            (),
            IndexError,
        >(()),
{
    let observed = statement.len() as u64;
    if observed > limits.max_statement_bytes {
        return Err(IndexError::Incomplete { limit: limits.max_statement_bytes, observed });
    }
    Ok(())
}

/// The pragmas a build connection reports once configured.
#[derive(Clone, Copy, Debug, PartialEq, Eq)]
pub struct BuildPragmas {
    pub page_size: i64,
    pub user_version: i64,
    pub temp_store: i64,
    pub foreign_keys: i64,
    pub cache_size: i64,
    pub trusted_schema: i64,
    pub max_page_count: i64,
}

/// Whether a build connection is configured as the index requires: pages
/// of `PAGE_SIZE`, the v3 schema version, in-memory temporary storage and
/// journal, enforced foreign keys, untrusted schema, the one-KiB cache,
/// the page ceiling of the limits, and exclusive locking.
pub open spec fn build_pragmas_ok(
    pragmas: BuildPragmas,
    journal_mode: &str,
    locking_mode: &str,
    cache_kib: i64,
    max_pages: i64,
) -> bool {
    &&& pragmas.page_size == PAGE_SIZE
    &&& pragmas.user_version == 3
    &&& pragmas.temp_store == 2
    &&& pragmas.foreign_keys == 1
    &&& pragmas.trusted_schema == 0
    &&& pragmas.cache_size == -cache_kib
    &&& pragmas.max_page_count == max_pages
    &&& journal_mode.spec_bytes() == "memory".spec_bytes()
    &&& locking_mode.spec_bytes() == "exclusive".spec_bytes()
}

/// Checks what a configured build connection reports.
pub fn check_build_pragmas(
    pragmas: &BuildPragmas,
    journal_mode: &str,
    locking_mode: &str,
    cache_kib: i64,
    max_pages: i64,
) -> (result: Result<(), IndexError>)
    requires
        cache_kib > i64::MIN,
    ensures
        build_pragmas_ok(*pragmas, journal_mode, locking_mode, cache_kib, max_pages) ==> result
            == Ok::<(), IndexError>(()),
        !build_pragmas_ok(*pragmas, journal_mode, locking_mode, cache_kib, max_pages) ==> result
            == Err::<(), IndexError>(IndexError::ProjectionContractViolation),
{
    if pragmas.page_size != PAGE_SIZE as i64 || pragmas.user_version != 3 || pragmas.temp_store
        != 2 || pragmas.foreign_keys != 1 || pragmas.trusted_schema != 0 || pragmas.cache_size
        != -cache_kib || pragmas.max_page_count != max_pages {
        return Err(IndexError::ProjectionContractViolation);
    }
    if !str_eq(journal_mode, "memory") || !str_eq(locking_mode, "exclusive") {
        return Err(IndexError::ProjectionContractViolation);
    }
    Ok(())
}

/// Checks what a configured query connection reports: in-memory temporary
/// storage, enforced foreign keys, untrusted schema and the one-KiB cache.
/// A reconstructed image that does not hold them is corrupt.
pub fn check_query_pragmas(
    temp_store: i64,
    foreign_keys: i64,
    trusted_schema: i64,
    cache_size: i64,
    cache_kib: i64,
) -> (result: Result<(), IndexError>)
    requires
        cache_kib > i64::MIN,
    ensures
        result == if temp_store == 2 && foreign_keys == 1 && trusted_schema == 0 && cache_size
            == -cache_kib {
            Ok::<(), IndexError>(())
        } else {
            Err::<(), IndexError>(IndexError::CorruptIndex)
        },
{
    if temp_store != 2 || foreign_keys != 1 || trusted_schema != 0 || cache_size != -cache_kib {
        return Err(IndexError::CorruptIndex);
    }
    Ok(())
}

/// A limit read back from SQLite must be the one installed.
pub fn check_installed_limit(installed: i32, reported: i32, refusal: IndexError) -> (result: Result<
    (),
    IndexError,
>)
    ensures
        installed == reported ==> result == Ok::<(), IndexError>(()),
        installed != reported ==> result == Err::<(), IndexError>(refusal),
{
    if installed != reported {
        return Err(refusal);
    }
    Ok(())
}

} // verus!
