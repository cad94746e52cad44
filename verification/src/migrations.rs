//! The database migration ledger: the ordered list of schema versions the
//! catalog storage has gone through.  Applying a migration is database work
//! outside this library; the ledger itself — which versions exist, and in
//! which order they chain — is plain data.

use vstd::prelude::*;

verus! {

/// One schema migration: the version it establishes and the version it
/// expects, `None` for the initial one.
#[derive(Debug)]
pub struct Migration {
    pub prev_version: Option<String>,
    pub version: String,
}

/// All migrations, in the order they are applied starting from a database's
/// current version.  Every migration expects exactly its predecessor's
/// version; the first expects an empty database.
pub fn all_migrations() -> (r: Vec<Migration>)
    ensures
        r@.len() == 8,
        r@[0].prev_version is None,
        forall|i: int|
            0 < i < 8 ==> ((#[trigger] r@[i].prev_version) matches Some(p) && p@ == r@[i
                - 1].version@),
        r@[0].version@ == "0000_initial"@,
        r@[1].version@ == "0001_raster_stacks"@,
        r@[2].version@ == "0002_dataset_listing_provider"@,
        r@[3].version@ == "0003_gbif_config"@,
        r@[4].version@ == "0004_dataset_listing_provider_prio"@,
        r@[5].version@ == "0005_gbif_column_selection"@,
        r@[6].version@ == "0006_ebv_provider"@,
        r@[7].version@ == "0007_owner_role"@,
{
    let names: [&str; 8] = [
        "0000_initial",
        "0001_raster_stacks",
        "0002_dataset_listing_provider",
        "0003_gbif_config",
        "0004_dataset_listing_provider_prio",
        "0005_gbif_column_selection",
        "0006_ebv_provider",
        "0007_owner_role",
    ];
    let mut out: Vec<Migration> = Vec::new();
    let mut i: usize = 0;
    while i < 8
        invariant
            i <= 8,
            out@.len() == i,
            forall|k: int| 0 <= k < i ==> (#[trigger] out@[k].version)@ == names@[k]@,
            i > 0 ==> out@[0].prev_version is None,
            forall|k: int|
                0 < k < i ==> ((#[trigger] out@[k].prev_version) matches Some(p) && p@ == out@[k
                    - 1].version@),
        decreases 8 - i,
    {
        let prev_version: Option<String> = if i == 0 {
            None
        } else {
            Some(names[i - 1].to_owned())
        };
        out.push(Migration { prev_version, version: names[i].to_owned() });
        i += 1;
    }
    out
}

} // verus!
