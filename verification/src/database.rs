//! The layout of the store and the way to a connection.

use vstd::prelude::*;
use crate::store::Gateway;
use crate::store::Issued;
use crate::store::load_array_module;
use crate::store::open;
use crate::store::Reply;
use crate::store::settled;
use crate::store::SqlArg;
use crate::store::SqlArgView;
use crate::store::StoreError;

verus! {

/// The statements that lay the store out, in the order in which they are
/// run. Each creates a table or an index only where it is absent, so the
/// whole list can be run on every start.
pub const MIGRATIONS: [&'static str; 17] = [
    "CREATE TABLE IF NOT EXISTS areas (
        id integer NOT NULL PRIMARY KEY AUTOINCREMENT,
        name text NOT NULL DEFAULT ''
    );",
    "CREATE TABLE IF NOT EXISTS channels (
        id integer NOT NULL PRIMARY KEY AUTOINCREMENT,
        name text NOT NULL DEFAULT ''
    );",
    "CREATE TABLE IF NOT EXISTS files (
        id integer NOT NULL PRIMARY KEY AUTOINCREMENT,
        series_id integer NOT NULL DEFAULT 0,
        way_id integer NOT NULL DEFAULT 0,
        address text NOT NULL DEFAULT '',
        password text NOT NULL DEFAULT ''
    );",
    "CREATE TABLE IF NOT EXISTS formats (
        id integer NOT NULL PRIMARY KEY AUTOINCREMENT,
        season_id integer NOT NULL DEFAULT 0,
        format text NOT NULL DEFAULT ''
    );",
    "CREATE TABLE IF NOT EXISTS resources (
        id integer NOT NULL PRIMARY KEY AUTOINCREMENT,
        name text NOT NULL DEFAULT '',
        original_name text NOT NULL DEFAULT '',
        alias_name text NOT NULL DEFAULT '',
        channel_id integer NOT NULL DEFAULT 0,
        area_id integer NOT NULL DEFAULT 0,
        pic text NOT NULL DEFAULT '',
        directors text NOT NULL DEFAULT '',
        writers text NOT NULL DEFAULT '',
        actors text NOT NULL DEFAULT '',
        types text NOT NULL DEFAULT '',
        released_at text NOT NULL DEFAULT '',
        summary text NOT NULL DEFAULT '',
        rating real NOT NULL DEFAULT 0
    );",
    "CREATE TABLE IF NOT EXISTS seasons (
        id integer NOT NULL PRIMARY KEY AUTOINCREMENT,
        resource_id integer NOT NULL DEFAULT 0,
        season integer NOT NULL DEFAULT 0,
        name text NOT NULL DEFAULT ''
    );",
    "CREATE TABLE IF NOT EXISTS series (
        id integer NOT NULL PRIMARY KEY AUTOINCREMENT,
        format_id integer NOT NULL DEFAULT 0,
        episode integer NOT NULL DEFAULT 0,
        name text NOT NULL DEFAULT '',
        size text NOT NULL DEFAULT ''
    );",
    "CREATE TABLE IF NOT EXISTS ways (
        id integer NOT NULL PRIMARY KEY AUTOINCREMENT,
        name text NOT NULL DEFAULT ''
    );",
    "CREATE TABLE IF NOT EXISTS favorites (
        id integer NOT NULL PRIMARY KEY AUTOINCREMENT,
        resource_id integer NOT NULL DEFAULT 0
    );",
    "CREATE INDEX IF NOT EXISTS series_id ON files (
        series_id ASC
    );",
    "CREATE INDEX IF NOT EXISTS way_id ON files (
        way_id ASC
    );",
    "CREATE INDEX IF NOT EXISTS season_id ON formats (
        season_id ASC
    );",
    "CREATE INDEX IF NOT EXISTS area_id ON resources (
        area_id ASC
    );",
    "CREATE INDEX IF NOT EXISTS channel_id ON resources (
        channel_id ASC
    );",
    "CREATE INDEX IF NOT EXISTS resource_id ON seasons (
        resource_id ASC
    );",
    "CREATE INDEX IF NOT EXISTS format_id ON series (
        format_id ASC
    );",
    "CREATE INDEX IF NOT EXISTS favorite_resource_id ON favorites (
        resource_id ASC
    );",
];

/// Opens the store at `db`, creating the file where it is absent, and makes
/// the connection ready for queries by sets of ids.
pub fn connect(db: &std::path::PathBuf) -> (r: Result<rusqlite::Connection, StoreError>) {
    let connection = match settled(open(db)) {
        Ok(connection) => connection,
        Err(error) => {
            return Err(error);
        },
    };
    match settled(load_array_module(&connection)) {
        Ok(()) => Ok(connection),
        Err(error) => Err(error),
    }
}

/// Whether `entry` is the statement of the layout with the given index.
pub open spec fn is_migration(entry: Issued, index: int) -> bool {
    &&& entry.sql == MIGRATIONS[index]@
    &&& entry.args == Seq::<SqlArgView>::empty()
    &&& entry.reply is Changed
}

/// Whether the store carried a statement of the layout out.
pub open spec fn laid(entry: Issued) -> bool {
    entry.reply matches Reply::Changed(Some(_))
}

/// `new` is a run of the layout: its statements in order, up to the first
/// one that the store did not carry out, and `done` says whether the store
/// carried all of them out.
pub open spec fn laid_out(new: Seq<Issued>, done: bool) -> bool {
    &&& new.len() <= MIGRATIONS.len()
    &&& forall|k: int| 0 <= k < new.len() ==> is_migration(#[trigger] new[k], k)
    &&& forall|k: int| 0 <= k < new.len() - 1 ==> laid(#[trigger] new[k])
    &&& done <==> new.len() == MIGRATIONS.len() && laid(new.last())
    &&& !done <==> new.len() > 0 && !laid(new.last())
}

/// Lays the store out: runs the statements of the layout in order, and stops
/// at the first one that the store does not carry out, which is the error
/// returned.
pub fn migrate(gateway: &mut Gateway) -> (r: Result<(), StoreError>)
    ensures
        old(gateway).issued().is_prefix_of(final(gateway).issued()),
        laid_out(final(gateway).issued().skip(old(gateway).issued().len() as int), r is Ok),
{
    let ghost start = gateway.issued();
    let args: Vec<SqlArg> = Vec::new();
    let mut i: usize = 0;
    while i < MIGRATIONS.len()
        invariant
            i <= MIGRATIONS.len(),
            args.deep_view() == Seq::<SqlArgView>::empty(),
            start == old(gateway).issued(),
            start.is_prefix_of(gateway.issued()),
            gateway.issued().len() == start.len() + i,
            forall|k: int|
                0 <= k < i ==> is_migration(
                    #[trigger] gateway.issued().skip(start.len() as int)[k],
                    k,
                ) && laid(gateway.issued().skip(start.len() as int)[k]),
        decreases MIGRATIONS.len() - i,
    {
        let ghost here = gateway.issued();
        let outcome = gateway.run(MIGRATIONS[i], &args);
        proof {
            let new = gateway.issued().skip(start.len() as int);
            assert forall|k: int| 0 <= k < i implies is_migration(#[trigger] new[k], k) && laid(
                new[k],
            ) by {
                assert(new[k] == here.skip(start.len() as int)[k]);
            }
        }
        match outcome {
            Ok(_) => {},
            Err(error) => {
                return Err(error);
            },
        }
        i = i + 1;
    }
    Ok(())
}

/// Lays a store out, given what came of opening it. Where the store could
/// not be opened, its error is the result; otherwise the result is that of
/// [`migrate`].
pub fn setup_in(opened: Result<rusqlite::Connection, StoreError>) -> (r: Result<(), StoreError>)
    ensures
        opened matches Err(error) ==> r == Err::<(), StoreError>(error),
{
    match opened {
        Ok(connection) => {
            let mut gateway = Gateway::new(&connection);
            migrate(&mut gateway)
        },
        Err(error) => Err(error),
    }
}

/// Opens the store at `db` and lays it out. It succeeds exactly where the
/// store could be opened and carried every statement of the layout out.
pub fn setup(db: &std::path::PathBuf) -> (r: Result<(), StoreError>) {
    setup_in(connect(db))
}

/// Hands the connection to a store to `work`, given what came of opening
/// the store. Where it was opened, `work` is called once and its result is
/// the result, success or failure. Where it was not, `work` is not called
/// and the error of the store is the result.
pub fn execute_in<T, F>(opened: Result<rusqlite::Connection, StoreError>, work: F) -> (r: Result<
    T,
    StoreError,
>) where F: FnOnce(&mut rusqlite::Connection) -> Result<T, StoreError>
    requires
        forall|connection: &mut rusqlite::Connection| work.requires((connection,)),
    ensures
        match opened {
            Ok(_) => exists|connection: &mut rusqlite::Connection|
                work.ensures((connection,), r),
            Err(error) => r == Err::<T, StoreError>(error),
        },
{
    match opened {
        Ok(mut connection) => work(&mut connection),
        Err(error) => Err(error),
    }
}

/// Opens the store at `db` and hands the connection to `work`. The result
/// is that of `work`, or the error of the store where it cannot be opened.
pub fn execute<T, F>(db: &std::path::PathBuf, work: F) -> (r: Result<T, StoreError>) where
    F: FnOnce(&mut rusqlite::Connection) -> Result<T, StoreError>,

    requires
        forall|connection: &mut rusqlite::Connection| work.requires((connection,)),
    ensures
        r is Ok ==> exists|connection: &mut rusqlite::Connection|
            work.ensures((connection,), r),
{
    execute_in(connect(db), work)
}

} // verus!
