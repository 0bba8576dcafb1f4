//! Where the database of the store lies, and how it is opened.
//!
//! The store lies in a directory of its own beside the database of the
//! chain. Opening it is the work of the backend; what to open, and how, is
//! decided here.

use crate::db::NUM_COLUMNS;
use vstd::prelude::*;
use vstd::string::StringExecFns;

verus! {

/// The kind of database that the configuration of the node names.
#[derive(Clone, Copy, PartialEq, Eq, Debug)]
pub enum DatabaseSource {
    /// A RocksDB database: the one kind that the store can be opened on.
    RocksDb,
    /// A ParityDb database.
    ParityDb,
    /// Whatever database is found on disk.
    Auto,
    /// A database that the embedder of the node brings.
    Custom,
}

/// How the database of the store is opened.
#[derive(Debug)]
pub struct OpenPlan {
    /// The name of the directory of the store, beside the directory of the
    /// chain's database.
    pub dir_name: String,
    /// The number of columns that the database is opened with.
    pub columns: u32,
    /// Whether the database is opened as a secondary instance, which reads
    /// while another process holds the database for writing.
    pub secondary: bool,
}

/// Whether `r` is the decision on opening the store: a RocksDB database is
/// opened under the store's name with all the columns of the store, as a
/// secondary instance where it is only read; for any other kind the result
/// names the feature that would be needed.
pub open spec fn planned(source: DatabaseSource, read_only: bool, r: Result<OpenPlan, &'static str>) -> bool {
    match source {
        DatabaseSource::RocksDb => {
            &&& r is Ok
            &&& r->Ok_0.dir_name@ == "db_state_kv"@
            &&& r->Ok_0.columns == NUM_COLUMNS
            &&& r->Ok_0.secondary == read_only
        },
        DatabaseSource::ParityDb => r is Err && r->Err_0@ == "with-parity-db"@,
        DatabaseSource::Auto => r is Err && r->Err_0@ == "auto"@,
        DatabaseSource::Custom => r is Err && r->Err_0@ == "with-custom-db"@,
    }
}

/// Decides how the database of the store is opened.
pub fn open_plan(source: DatabaseSource, read_only: bool) -> (r: Result<OpenPlan, &'static str>)
    ensures
        planned(source, read_only, r),
{
    match source {
        DatabaseSource::RocksDb => Ok(
            OpenPlan {
                dir_name: String::from_str("db_state_kv"),
                columns: NUM_COLUMNS,
                secondary: read_only,
            },
        ),
        DatabaseSource::ParityDb => Err("with-parity-db"),
        DatabaseSource::Auto => Err("auto"),
        DatabaseSource::Custom => Err("with-custom-db"),
    }
}

} // verus!
