//! The registry of removed items: the hashes of their addresses.

use crate::db::{Database, DatabaseView, DbError};
use vstd::hash_set::StringHashSet;
use vstd::prelude::*;

verus! {

/// Creates the registry where it is absent; one that exists stays as it is.
pub fn new(db: &mut Database) -> (r: Result<(), DbError>)
    ensures
        r == Ok::<(), DbError>(()),
        final(db)@ == (DatabaseView {
            trash: Some(
                match old(db)@.trash {
                    Some(set) => set,
                    None => Set::<Seq<char>>::empty(),
                },
            ),
            ..old(db)@
        }),
{
    if db.trash.is_none() {
        db.trash = Some(StringHashSet::new());
    }
    Ok(())
}

/// The registry with one more hash. An absent registry stays absent.
pub open spec fn with_hash(trash: Option<Set<Seq<char>>>, md5: Seq<char>) -> Option<
    Set<Seq<char>>,
> {
    match trash {
        Some(set) => Some(set.insert(md5)),
        None => None,
    }
}

/// How registering a hash ends: refused without the registry, and where the
/// hash is registered already.
pub open spec fn insert_result(trash: Option<Set<Seq<char>>>, md5: Seq<char>) -> Result<
    (),
    DbError,
> {
    match trash {
        None => Err(DbError::NoSuchTable),
        Some(set) => if set.contains(md5) {
            Err(DbError::Duplicate)
        } else {
            Ok(())
        },
    }
}

/// Registers a hash. One that is registered already is refused, and stays
/// registered.
pub fn insert(db: &mut Database, md5: &str) -> (r: Result<(), DbError>)
    ensures
        r == insert_result(old(db)@.trash, md5@),
        final(db)@ == (DatabaseView { trash: with_hash(old(db)@.trash, md5@), ..old(db)@ }),
{
    match &mut db.trash {
        None => Err(DbError::NoSuchTable),
        Some(set) => {
            if set.contains(md5) {
                assert(set@.insert(md5@) =~= set@);
                Err(DbError::Duplicate)
            } else {
                set.insert(md5.to_string());
                Ok(())
            }
        },
    }
}

/// Empties the registry.
pub fn delete_all(db: &mut Database) -> (r: Result<(), DbError>)
    ensures
        r == if old(db)@.trash is Some {
            Ok::<(), DbError>(())
        } else {
            Err::<(), DbError>(DbError::NoSuchTable)
        },
        final(db)@ == (DatabaseView {
            trash: match old(db)@.trash {
                Some(_) => Some(Set::<Seq<char>>::empty()),
                None => None,
            },
            ..old(db)@
        }),
{
    match &mut db.trash {
        None => Err(DbError::NoSuchTable),
        Some(set) => {
            set.clear();
            Ok(())
        },
    }
}

/// Whether a hash is registered. In an absent registry none is.
pub open spec fn in_trash(trash: Option<Set<Seq<char>>>, md5: Seq<char>) -> bool {
    match trash {
        Some(set) => set.contains(md5),
        None => false,
    }
}

/// The registered hash that equals `md5`.
pub fn select(db: &Database, md5: &str) -> (r: Result<String, DbError>)
    ensures
        match db@.trash {
            None => r == Err::<String, DbError>(DbError::NoSuchTable),
            Some(set) => if set.contains(md5@) {
                r is Ok && r->Ok_0@ == md5@
            } else {
                r == Err::<String, DbError>(DbError::NotFound)
            },
        },
{
    match &db.trash {
        None => Err(DbError::NoSuchTable),
        Some(set) => {
            if set.contains(md5) {
                Ok(md5.to_string())
            } else {
                Err(DbError::NotFound)
            }
        },
    }
}

/// Succeeds exactly when the hash is registered.
pub fn is_exist(db: &Database, md5: &str) -> (r: Result<(), DbError>)
    ensures
        r is Ok <==> in_trash(db@.trash, md5@),
        r is Err ==> r == Err::<(), DbError>(
            if db@.trash is None {
                DbError::NoSuchTable
            } else {
                DbError::NotFound
            },
        ),
{
    match select(db, md5) {
        Ok(_) => Ok(()),
        Err(e) => Err(e),
    }
}

/// The number of registered hashes.
pub fn row_count(db: &Database) -> (r: Result<usize, DbError>)
    ensures
        match db@.trash {
            None => r == Err::<usize, DbError>(DbError::NoSuchTable),
            Some(set) => r is Ok && r->Ok_0 == set.len(),
        },
{
    match &db.trash {
        None => Err(DbError::NoSuchTable),
        Some(set) => Ok(set.len()),
    }
}

} // verus!
