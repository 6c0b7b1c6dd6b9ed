//! What the application asks of the catalog on its start.

use vstd::prelude::*;
use crate::database::connect;
use crate::model::Count;
use crate::model::list;
use crate::model::listed;
use crate::store::asked;
use crate::store::Gateway;
use crate::store::is_query;
use crate::store::Issued;
use crate::store::SqlArg;
use crate::store::SqlArgView;
use crate::store::StoreError;

verus! {

/// The name of the directory that holds what the application keeps.
pub const IDENTIFIER: &'static str = "com.abtswath.rubick";

/// The name of the store's file in that directory.
pub const STORE_FILE: &'static str = "rubick.db";

/// The name of the directory of the pictures in that directory.
pub const IMAGES: &'static str = "images";

pub const COUNT_RESOURCES: &'static str = "select count(*) as c from resources";

/// Whether a count of the resources says that the catalog holds some: the
/// count returned a row whose number is above zero and is a 32-bit number.
pub open spec fn holds_some(counts: Option<Seq<i64>>) -> bool {
    match counts {
        Some(counts) => counts.len() > 0 && 0 < counts[0] <= i32::MAX,
        None => false,
    }
}

/// Whether the rows that a count of the resources returned say that the
/// catalog holds some.
pub fn filled(counts: &Vec<Count>) -> (r: bool)
    ensures
        r == holds_some(Some(counts.deep_view())),
{
    if counts.len() > 0 {
        0 < counts[0].value && counts[0].value <= 2147483647
    } else {
        false
    }
}

/// Whether the catalog on a connection was filled: whether the store holds
/// a resource. A store that cannot count its resources reads as not filled.
pub fn initialized_on(gateway: &mut Gateway) -> (r: bool)
    ensures
        asked(old(gateway).issued(), final(gateway).issued(), COUNT_RESOURCES@, Seq::empty()),
        r == holds_some(listed::<Count>(final(gateway).issued().last())),
{
    let args: Vec<SqlArg> = Vec::new();
    assert(args.deep_view() =~= Seq::<SqlArgView>::empty());
    match list::<Count>(gateway, COUNT_RESOURCES, &args) {
        Ok(counts) => filled(&counts),
        Err(_) => false,
    }
}

/// Whether the catalog in a store was filled, given what came of opening
/// the store. A store that could not be opened reads as not filled.
pub fn initialized_in(opened: Result<rusqlite::Connection, StoreError>) -> (r: bool)
    ensures
        opened is Err ==> !r,
{
    match opened {
        Ok(connection) => {
            let mut gateway = Gateway::new(&connection);
            initialized_on(&mut gateway)
        },
        Err(_) => false,
    }
}

/// Whether the catalog in the store at `db` was filled. `present` says
/// whether the store's file is there: a store without a file is not opened,
/// so that none is created, and reads as not filled, as does one that
/// cannot be opened.
pub fn initialized(present: bool, db: &std::path::PathBuf) -> (r: bool)
    ensures
        !present ==> !r,
{
    if !present {
        return false;
    }
    initialized_in(connect(db))
}

} // verus!
