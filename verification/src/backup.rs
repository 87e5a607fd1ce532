//! The object-store backup tool's piece of pure logic: deriving the local
//! database path a restore writes to. Listing, restoring and removing
//! generations against the object store is the surrounding tool's I/O.

use vstd::prelude::*;

use crate::json::{has_prefix, strip_text_prefix};

verus! {

/// The local path a restore of `database` under `namespace` writes to:
/// `<database>/dbs/<namespace without its `ns-` prefix>/data`. A namespace
/// that does not carry the `ns-` prefix is rejected.
pub fn restore_db_path(database: &str, namespace: &str) -> (r: Option<String>)
    ensures
        match r {
            Some(p) => has_prefix(namespace@, "ns-"@) && p@ == database@ + "/dbs/"@
                + namespace@.subrange(3, namespace@.len() as int) + "/data"@,
            None => !has_prefix(namespace@, "ns-"@),
        },
{
    let bare = match strip_text_prefix(namespace, "ns-") {
        Some(rest) => rest,
        None => {
            return None;
        },
    };
    proof {
        reveal_strlit("ns-");
    }
    let mut path = database.to_owned();
    path.append("/dbs/");
    path.append(bare.as_str());
    path.append("/data");
    Some(path)
}

} // verus!
