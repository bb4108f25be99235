//! The durable state: the table of subscriptions, the registry of removed
//! items, and one table of entries for each subscription.

use crate::db::entry::{entry_views, find_table, is_named, RssEntry, RssEntryView};
use crate::db::rss::{config_views, RssConfig, RssConfigView};
use vstd::hash_set::StringHashSet;
use crate::util::list::{first_index, found};
use crate::util::str::str_eq;
use vstd::prelude::*;

pub mod entry;
pub mod rss;
pub mod trash;

verus! {

/// A row as it lies on disk: an identity and a serialized payload.
#[derive(Debug, PartialEq, Eq)]
pub struct ComEntry {
    pub uuid: String,
    pub data: String,
}

/// What a row holds, as plain values.
pub struct ComEntryView {
    pub uuid: Seq<char>,
    pub data: Seq<char>,
}

impl View for ComEntry {
    type V = ComEntryView;

    open spec fn view(&self) -> ComEntryView {
        ComEntryView { uuid: self.uuid@, data: self.data@ }
    }
}

impl Clone for ComEntry {
    fn clone(&self) -> (r: Self)
        ensures
            r@ == self@,
    {
        ComEntry { uuid: self.uuid.clone(), data: self.data.clone() }
    }
}

/// Why the store refused an operation.
#[derive(Debug, PartialEq, Eq, Clone, Copy)]
pub enum DbError {
    /// The table that the operation names does not exist.
    NoSuchTable,
    /// A row with this identity is already there.
    Duplicate,
    /// No row has this identity.
    NotFound,
}

/// The entries of one subscription, in the order in which they were
/// inserted.
pub struct EntryTable {
    pub name: String,
    pub rows: Vec<RssEntry>,
}

/// A table of entries as plain values: its name, and its rows in the order of
/// insertion.
pub struct EntryTableView {
    pub name: Seq<char>,
    pub rows: Seq<RssEntryView>,
}

impl View for EntryTable {
    type V = EntryTableView;

    open spec fn view(&self) -> EntryTableView {
        EntryTableView { name: self.name@, rows: entry_views(self.rows@) }
    }
}

/// The tables of a list as plain values, in the list's order.
pub open spec fn table_views(tables: Seq<EntryTable>) -> Seq<EntryTableView> {
    tables.map_values(|t: EntryTable| t@)
}

/// The durable state. A table that was never created, or was dropped, is
/// absent.
pub struct Database {
    /// The table `rss`: the settings of every subscription.
    pub rss: Option<Vec<RssConfig>>,
    /// The table `trash`: the hashes of the addresses of removed items.
    pub trash: Option<StringHashSet>,
    /// The tables of entries, one for each subscription that has one.
    pub entry: Vec<EntryTable>,
}

/// The durable state as plain values. The registry of removed items is a set
/// of hashes.
pub struct DatabaseView {
    pub rss: Option<Seq<RssConfigView>>,
    pub trash: Option<Set<Seq<char>>>,
    pub entry: Seq<EntryTableView>,
}

impl View for Database {
    type V = DatabaseView;

    open spec fn view(&self) -> DatabaseView {
        DatabaseView {
            rss: match self.rss {
                Some(rows) => Some(config_views(rows@)),
                None => None,
            },
            trash: match self.trash {
                Some(set) => Some(set@),
                None => None,
            },
            entry: table_views(self.entry@),
        }
    }
}

impl Database {
    /// A store without any table.
    pub fn new() -> (db: Database)
        ensures
            db@.rss is None,
            db@.trash is None,
            db@.entry == Seq::<EntryTableView>::empty(),
    {
        let entry: Vec<EntryTable> = Vec::new();
        assert(table_views(entry@) =~= Seq::<EntryTableView>::empty());
        Database { rss: None, trash: None, entry }
    }
}

impl Default for Database {
    fn default() -> (db: Database)
        ensures
            db@.rss is None,
            db@.trash is None,
            db@.entry == Seq::<EntryTableView>::empty(),
    {
        Database::new()
    }
}

/// Makes the store ready for use: the table of subscriptions and the
/// registry of removed items are created where they are absent. What the
/// store holds already stays.
pub fn init(db: &mut Database)
    ensures
        final(db)@.rss == Some(
            match old(db)@.rss {
                Some(rows) => rows,
                None => Seq::<RssConfigView>::empty(),
            },
        ),
        final(db)@.trash == Some(
            match old(db)@.trash {
                Some(set) => set,
                None => Set::<Seq<char>>::empty(),
            },
        ),
        final(db)@.entry == old(db)@.entry,
{
    let _ = rss::new(db);
    let _ = trash::new(db);
}

/// Whether the store has a table of a given name: `rss`, `trash`, or the
/// name of a table of entries.
pub open spec fn table_exists(db: DatabaseView, table_name: Seq<char>) -> bool {
    if table_name == "rss"@ {
        db.rss is Some
    } else if table_name == "trash"@ {
        db.trash is Some
    } else {
        found(db.entry, is_named(table_name))
    }
}

/// Succeeds exactly when the store has a table of the given name.
pub fn is_table_exist(db: &Database, table_name: &str) -> (r: Result<(), DbError>)
    ensures
        r == if table_exists(db@, table_name@) {
            Ok::<(), DbError>(())
        } else {
            Err::<(), DbError>(DbError::NoSuchTable)
        },
{
    let found = if str_eq(table_name, "rss") {
        db.rss.is_some()
    } else if str_eq(table_name, "trash") {
        db.trash.is_some()
    } else {
        find_table(db, table_name) < db.entry.len()
    };
    if found {
        Ok(())
    } else {
        Err(DbError::NoSuchTable)
    }
}

/// What dropping the table of a given name leaves.
pub open spec fn after_drop_table(db: DatabaseView, table_name: Seq<char>) -> DatabaseView {
    if table_name == "rss"@ {
        DatabaseView { rss: None, ..db }
    } else if table_name == "trash"@ {
        DatabaseView { trash: None, ..db }
    } else if found(db.entry, is_named(table_name)) {
        DatabaseView { entry: db.entry.remove(first_index(db.entry, is_named(table_name))), ..db }
    } else {
        db
    }
}

/// Destroys the table of a given name with all its rows. A name that no
/// table has is refused.
pub fn drop_table(db: &mut Database, table_name: &str) -> (r: Result<(), DbError>)
    ensures
        r == if table_exists(old(db)@, table_name@) {
            Ok::<(), DbError>(())
        } else {
            Err::<(), DbError>(DbError::NoSuchTable)
        },
        final(db)@ == after_drop_table(old(db)@, table_name@),
{
    if str_eq(table_name, "rss") {
        if db.rss.is_none() {
            return Err(DbError::NoSuchTable);
        }
        db.rss = None;
    } else if str_eq(table_name, "trash") {
        if db.trash.is_none() {
            return Err(DbError::NoSuchTable);
        }
        db.trash = None;
    } else {
        let i = find_table(db, table_name);
        if i == db.entry.len() {
            return Err(DbError::NoSuchTable);
        }
        db.entry.remove(i);
        assert(db@.entry =~= old(db)@.entry.remove(i as int));
    }
    Ok(())
}

} // verus!
