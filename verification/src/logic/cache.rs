//! How much room the registry of removed items takes.

use crate::db::{Database, DatabaseView, DbError};
use crate::util::str::{decimal, pretty_size_string, size_number, size_unit};
use vstd::prelude::*;

verus! {

/// The bytes that a registry of `count` hashes is reckoned to take: 32 for
/// each hash, and no more than a `u64` holds.
pub open spec fn cache_bytes(count: nat) -> u64 {
    if count * 32 <= u64::MAX {
        (count * 32) as u64
    } else {
        u64::MAX
    }
}

/// The size of the registry of removed items as the user reads it, or
/// nothing where the store has no registry.
pub fn cache_size(db: &Database) -> (r: Option<String>)
    ensures
        match db@.trash {
            Some(set) => r is Some && r->0@ == decimal(size_number(cache_bytes(set.len())))
                + size_unit(cache_bytes(set.len())),
            None => r is None,
        },
{
    match crate::db::trash::row_count(db) {
        Err(_) => None,
        Ok(count) => {
            let bytes: u64 = if count as u64 <= u64::MAX / 32 {
                count as u64 * 32
            } else {
                u64::MAX
            };
            Some(pretty_size_string(bytes))
        },
    }
}

/// Forgets every removed item, so that a later sync may bring any of them
/// back.
pub fn remove_all_cache(db: &mut Database) -> (r: Result<(), DbError>)
    ensures
        r == if old(db)@.trash is Some {
            Ok::<(), DbError>(())
        } else {
            Err::<(), DbError>(DbError::NoSuchTable)
        },
        final(db)@ == (DatabaseView {
            trash: match old(db)@.trash {
                Some(_) => Some(Set::<Seq<char>>::empty()),
                None => None,
            },
            ..old(db)@
        }),
{
    crate::db::trash::delete_all(db)
}

} // verus!
