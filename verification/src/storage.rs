//! The SQLite-backed stores as plain values (a database file path, and the ledger a store is
//! scoped to), the schema migration plan, and the order an import inserts its rows in.
use crate::calendar::{date_before, date_lt};
use crate::model::Transaction;
use crate::sorting::{stable_sort, stable_sorted};
use vstd::prelude::*;

verus! {

/// The latest schema version this build understands.
pub const SCHEMA_VERSION: i64 = 4;

/// A database file, opened anew for each operation.
#[derive(Debug, Clone)]
pub struct SqliteDatabase {
    pub path: String,
}

impl SqliteDatabase {
    pub fn new(path: String) -> (r: Self)
        ensures
            r.path == path,
    {
        SqliteDatabase { path }
    }
}

/// Why the schema cannot be brought up to date.
#[derive(Debug, Clone, Copy, PartialEq, Eq, Structural)]
pub enum MigrationError {
    /// The file was written by a newer build, at this schema version.
    NewerVersion(i64),
}

/// The migrations to run, in order, for a database at schema version `current`: every known
/// version after it, up to the latest; none when it is up to date; refused when it is newer.
pub open spec fn migration_steps(current: i64) -> Result<Seq<i64>, MigrationError> {
    if current > SCHEMA_VERSION {
        Err(MigrationError::NewerVersion(current))
    } else {
        Ok(Seq::new(
            (SCHEMA_VERSION - (if current >= 0 { current } else { 0 })) as nat,
            |i: int| (if current >= 0 { current } else { 0 }) + 1 + i,
        ).map_values(|v: int| v as i64))
    }
}

pub fn migration_plan(current: i64) -> (r: Result<Vec<i64>, MigrationError>)
    ensures
        match (r, migration_steps(current)) {
            (Ok(v), Ok(s)) => v@ == s,
            (Err(a), Err(b)) => a == b,
            _ => false,
        },
{
    if current > SCHEMA_VERSION {
        return Err(MigrationError::NewerVersion(current));
    }
    let from: i64 = if current >= 0 {
        current
    } else {
        0
    };
    let ghost expected = Seq::new((SCHEMA_VERSION - from) as nat, |i: int| from + 1 + i).map_values(
        |v: int| v as i64,
    );
    let mut steps: Vec<i64> = Vec::new();
    let mut version = from + 1;
    while version <= SCHEMA_VERSION
        invariant
            0 <= from <= SCHEMA_VERSION,
            from + 1 <= version <= SCHEMA_VERSION + 1,
            expected == Seq::new((SCHEMA_VERSION - from) as nat, |i: int| from + 1 + i).map_values(
                |v: int| v as i64,
            ),
            steps@ == expected.take(version - from - 1),
        decreases SCHEMA_VERSION + 1 - version,
    {
        proof {
            assert(expected.take(version - from) =~= expected.take(version - from - 1).push(
                version,
            ));
        }
        steps.push(version);
        version = version + 1;
    }
    proof {
        assert(expected.take(version - from - 1) =~= expected);
    }
    Ok(steps)
}

/// Transactions of one ledger.
pub struct SqliteTransactionStore {
    pub database: SqliteDatabase,
    pub ledger_id: i64,
}

impl SqliteTransactionStore {
    pub fn new(database: SqliteDatabase, ledger_id: i64) -> (r: Self)
        ensures
            r.database.path == database.path,
            r.ledger_id == ledger_id,
    {
        SqliteTransactionStore { database, ledger_id }
    }
}

/// The category catalog, shared by every ledger.
pub struct SqliteCategoryStore {
    pub database: SqliteDatabase,
}

impl SqliteCategoryStore {
    pub fn new(database: SqliteDatabase) -> (r: Self)
        ensures
            r.database.path == database.path,
    {
        SqliteCategoryStore { database }
    }
}

/// Budget periods of every ledger.
pub struct SqliteBudgetStore {
    pub database: SqliteDatabase,
}

impl SqliteBudgetStore {
    pub fn new(database: SqliteDatabase) -> (r: Self)
        ensures
            r.database.path == database.path,
    {
        SqliteBudgetStore { database }
    }
}

/// The ledgers and which one is active.
pub struct SqliteLedgerStore {
    pub database: SqliteDatabase,
}

impl SqliteLedgerStore {
    pub fn new(database: SqliteDatabase) -> (r: Self)
        ensures
            r.database.path == database.path,
    {
        SqliteLedgerStore { database }
    }
}

/// Outcome of a merge-dedupe import.
#[derive(Debug, Clone, Copy, Default, PartialEq, Eq, Structural)]
pub struct ImportSummary {
    pub added: usize,
    pub skipped: usize,
}

/// Rows ordered by date only.
pub open spec fn by_date() -> spec_fn(Transaction, Transaction) -> bool {
    |a: Transaction, b: Transaction| date_lt(a.date, b.date)
}

/// The order an import inserts its rows in: oldest first, rows of the same date in the order
/// given, so database ids follow the calendar.
pub fn import_order(rows: Vec<Transaction>) -> (r: Vec<Transaction>)
    ensures
        r@ == stable_sorted(rows@, by_date()),
{
    let less = |a: &Transaction, b: &Transaction| -> (r: bool)
        ensures
            r == date_lt(a.date, b.date),
        { date_before(&a.date, &b.date) };
    stable_sort(rows, &less, Ghost(by_date()), Ghost(|t: Transaction| true))
}

} // verus!
