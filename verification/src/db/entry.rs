//! Entries, and the table of entries that each subscription owns.

use crate::db::{Database, DatabaseView, DbError, EntryTable, EntryTableView};
use crate::util::list::{first_index, found, lemma_first_index, lemma_first_index_is};
use crate::util::str::{chars_of, str_eq, string_of};
use vstd::prelude::*;

verus! {

/// One normalized item of a feed.
#[derive(Debug, PartialEq, Eq)]
pub struct RssEntry {
    /// Identity of the owning subscription.
    pub suuid: String,
    /// Identity of the entry itself.
    pub uuid: String,
    /// Canonical address of the item: what tells one item from another.
    pub url: String,
    pub title: String,
    pub pub_date: String,
    pub tags: String,
    pub author: String,
    pub summary: String,
    pub is_read: bool,
}

/// What an entry holds, as plain values.
pub struct RssEntryView {
    pub suuid: Seq<char>,
    pub uuid: Seq<char>,
    pub url: Seq<char>,
    pub title: Seq<char>,
    pub pub_date: Seq<char>,
    pub tags: Seq<char>,
    pub author: Seq<char>,
    pub summary: Seq<char>,
    pub is_read: bool,
}

impl View for RssEntry {
    type V = RssEntryView;

    open spec fn view(&self) -> RssEntryView {
        RssEntryView {
            suuid: self.suuid@,
            uuid: self.uuid@,
            url: self.url@,
            title: self.title@,
            pub_date: self.pub_date@,
            tags: self.tags@,
            author: self.author@,
            summary: self.summary@,
            is_read: self.is_read,
        }
    }
}

impl Clone for RssEntry {
    fn clone(&self) -> (r: Self)
        ensures
            r@ == self@,
    {
        RssEntry {
            suuid: self.suuid.clone(),
            uuid: self.uuid.clone(),
            url: self.url.clone(),
            title: self.title.clone(),
            pub_date: self.pub_date.clone(),
            tags: self.tags.clone(),
            author: self.author.clone(),
            summary: self.summary.clone(),
            is_read: self.is_read,
        }
    }
}

impl Default for RssEntry {
    fn default() -> (r: Self)
        ensures
            r@ == empty_entry(),
    {
        RssEntry {
            suuid: String::new(),
            uuid: String::new(),
            url: String::new(),
            title: String::new(),
            pub_date: String::new(),
            tags: String::new(),
            author: String::new(),
            summary: String::new(),
            is_read: false,
        }
    }
}

/// The entry with every text empty that is not read yet.
pub open spec fn empty_entry() -> RssEntryView {
    RssEntryView {
        suuid: Seq::empty(),
        uuid: Seq::empty(),
        url: Seq::empty(),
        title: Seq::empty(),
        pub_date: Seq::empty(),
        tags: Seq::empty(),
        author: Seq::empty(),
        summary: Seq::empty(),
        is_read: false,
    }
}

/// The entries of a list as plain values, in the list's order.
pub open spec fn entry_views(entries: Seq<RssEntry>) -> Seq<RssEntryView> {
    entries.map_values(|e: RssEntry| e@)
}

/// A copy of a list of entries.
pub fn clone_entries(entries: &Vec<RssEntry>) -> (r: Vec<RssEntry>)
    ensures
        entry_views(r@) == entry_views(entries@),
{
    let mut r: Vec<RssEntry> = Vec::new();
    let mut i: usize = 0;
    while i < entries.len()
        invariant
            i <= entries.len(),
            r@.len() == i,
            forall|k: int| 0 <= k < i ==> r@[k]@ == entries@[k]@,
        decreases entries.len() - i,
    {
        r.push(entries[i].clone());
        i = i + 1;
    }
    assert(entry_views(r@) =~= entry_views(entries@));
    r
}

/// The entry with another identity.
pub open spec fn with_uuid(e: RssEntryView, uuid: Seq<char>) -> RssEntryView {
    RssEntryView { uuid, ..e }
}

/// The name of the table that holds the entries of a subscription: `entry_`
/// and the subscription's identity, each `-` in it written as `_`.
pub open spec fn spec_table_name(suuid: Seq<char>) -> Seq<char> {
    "entry_"@ + suuid.map_values(
        |c: char|
            if c == '-' {
                '_'
            } else {
                c
            },
    )
}

/// The name of the table that holds the entries of a subscription.
pub fn table_name(suuid: &str) -> (r: String)
    ensures
        r@ == spec_table_name(suuid@),
{
    let chars = chars_of(suuid);
    let mut out: Vec<char> = Vec::new();
    let mut i: usize = 0;
    while i < chars.len()
        invariant
            i <= chars.len(),
            out@.len() == i,
            forall|k: int|
                0 <= k < i ==> out@[k] == (if chars@[k] == '-' {
                    '_'
                } else {
                    chars@[k]
                }),
        decreases chars.len() - i,
    {
        let c = chars[i];
        out.push(
            if c == '-' {
                '_'
            } else {
                c
            },
        );
        i = i + 1;
    }
    let mut r = "entry_".to_string();
    let tail = string_of(&out);
    r.append(tail.as_str());
    assert(r@ =~= spec_table_name(suuid@));
    r
}

/// Whether a table has a given name.
pub open spec fn is_named(name: Seq<char>) -> spec_fn(EntryTableView) -> bool {
    |t: EntryTableView| t.name == name
}

/// Whether an entry has a given identity.
pub open spec fn is_entry(uuid: Seq<char>) -> spec_fn(RssEntryView) -> bool {
    |e: RssEntryView| e.uuid == uuid
}

/// Position of the table of a subscription among the tables, or their
/// number where it has none.
pub open spec fn table_index(tables: Seq<EntryTableView>, suuid: Seq<char>) -> int {
    first_index(tables, is_named(spec_table_name(suuid)))
}

/// Position of the entry with a given identity in a list, or the length of
/// the list where it holds none.
pub open spec fn entry_index(entries: Seq<RssEntryView>, uuid: Seq<char>) -> int {
    first_index(entries, is_entry(uuid))
}

/// The tables with the rows of table `i` replaced.
pub open spec fn with_rows(tables: Seq<EntryTableView>, i: int, rows: Seq<RssEntryView>) -> Seq<
    EntryTableView,
> {
    tables.update(i, EntryTableView { name: tables[i].name, rows })
}

/// The rows of the table of a subscription, where it has one.
pub open spec fn rows_of(tables: Seq<EntryTableView>, suuid: Seq<char>) -> Option<
    Seq<RssEntryView>,
> {
    let i = table_index(tables, suuid);
    if i < tables.len() {
        Some(tables[i].rows)
    } else {
        None
    }
}

/// No two tables have one name, and no two rows of a table one identity.
pub open spec fn tables_wf(tables: Seq<EntryTableView>) -> bool {
    &&& forall|i: int, j: int|
        0 <= i < j < tables.len() ==> (#[trigger] tables[i]).name != (#[trigger] tables[j]).name
    &&& forall|t: int, i: int, j: int|
        0 <= t < tables.len() && 0 <= i < j < tables[t].rows.len() ==> (#[trigger] tables[t].rows[i]).uuid
            != (#[trigger] tables[t].rows[j]).uuid
}

/// What creating the table of a subscription leaves: the tables as they
/// were where it has one, else one more table, empty, behind them.
pub open spec fn after_new(tables: Seq<EntryTableView>, suuid: Seq<char>) -> Seq<EntryTableView> {
    if rows_of(tables, suuid) is Some {
        tables
    } else {
        tables.push(EntryTableView { name: spec_table_name(suuid), rows: Seq::empty() })
    }
}

/// How an insertion ends: refused without a table, and where a row has the
/// entry's identity already.
pub open spec fn insert_result(
    tables: Seq<EntryTableView>,
    suuid: Seq<char>,
    e: RssEntryView,
) -> Result<(), DbError> {
    match rows_of(tables, suuid) {
        None => Err(DbError::NoSuchTable),
        Some(rows) => if found(rows, is_entry(e.uuid)) {
            Err(DbError::Duplicate)
        } else {
            Ok(())
        },
    }
}

/// What an insertion leaves: the entry behind the rows of the table where
/// it is accepted, and the tables as they were where it is refused.
pub open spec fn after_insert(
    tables: Seq<EntryTableView>,
    suuid: Seq<char>,
    e: RssEntryView,
) -> Seq<EntryTableView> {
    if insert_result(tables, suuid, e) is Ok {
        let i = table_index(tables, suuid);
        with_rows(tables, i, tables[i].rows.push(e))
    } else {
        tables
    }
}

/// How an operation on the row with a given identity ends: refused without
/// a table, and where no row has the identity.
pub open spec fn row_result(
    tables: Seq<EntryTableView>,
    suuid: Seq<char>,
    uuid: Seq<char>,
) -> Result<(), DbError> {
    match rows_of(tables, suuid) {
        None => Err(DbError::NoSuchTable),
        Some(rows) => if found(rows, is_entry(uuid)) {
            Ok(())
        } else {
            Err(DbError::NotFound)
        },
    }
}

/// What a deletion leaves: the table without the first row of the given
/// identity where there is one, and the tables as they were where it is
/// refused.
pub open spec fn after_delete(
    tables: Seq<EntryTableView>,
    suuid: Seq<char>,
    uuid: Seq<char>,
) -> Seq<EntryTableView> {
    if row_result(tables, suuid, uuid) is Ok {
        let i = table_index(tables, suuid);
        with_rows(tables, i, tables[i].rows.remove(entry_index(tables[i].rows, uuid)))
    } else {
        tables
    }
}

/// How an operation on a whole table ends: refused without the table.
pub open spec fn table_result(tables: Seq<EntryTableView>, suuid: Seq<char>) -> Result<
    (),
    DbError,
> {
    if rows_of(tables, suuid) is Some {
        Ok(())
    } else {
        Err(DbError::NoSuchTable)
    }
}

/// What deleting every row of a table leaves.
pub open spec fn after_delete_all(tables: Seq<EntryTableView>, suuid: Seq<char>) -> Seq<
    EntryTableView,
> {
    if rows_of(tables, suuid) is Some {
        with_rows(tables, table_index(tables, suuid), Seq::empty())
    } else {
        tables
    }
}

/// What an update leaves: the row of the given identity replaced by the
/// entry under that identity, and the tables as they were where it is
/// refused.
pub open spec fn after_update(
    tables: Seq<EntryTableView>,
    suuid: Seq<char>,
    uuid: Seq<char>,
    e: RssEntryView,
) -> Seq<EntryTableView> {
    if row_result(tables, suuid, uuid) is Ok {
        let i = table_index(tables, suuid);
        with_rows(
            tables,
            i,
            tables[i].rows.update(entry_index(tables[i].rows, uuid), with_uuid(e, uuid)),
        )
    } else {
        tables
    }
}

/// What dropping the table of a subscription leaves.
pub open spec fn after_drop(tables: Seq<EntryTableView>, suuid: Seq<char>) -> Seq<EntryTableView> {
    if rows_of(tables, suuid) is Some {
        tables.remove(table_index(tables, suuid))
    } else {
        tables
    }
}

/// Position of the first entry with a given identity, or the length of the
/// list.
pub fn find_entry(entries: &Vec<RssEntry>, uuid: &str) -> (i: usize)
    ensures
        i == entry_index(entry_views(entries@), uuid@),
        i <= entries.len(),
{
    let mut i: usize = 0;
    while i < entries.len()
        invariant
            i <= entries.len(),
            forall|k: int| 0 <= k < i ==> entries@[k]@.uuid != uuid@,
        decreases entries.len() - i,
    {
        if str_eq(entries[i].uuid.as_str(), uuid) {
            proof {
                lemma_first_index_is(entry_views(entries@), is_entry(uuid@), i as int);
            }
            return i;
        }
        i = i + 1;
    }
    proof {
        lemma_first_index_is(entry_views(entries@), is_entry(uuid@), i as int);
    }
    i
}

/// Position of the table with a given name, or the number of tables.
pub fn find_table(db: &Database, name: &str) -> (i: usize)
    ensures
        i == first_index(db@.entry, is_named(name@)),
        i <= db.entry.len(),
{
    let mut i: usize = 0;
    while i < db.entry.len()
        invariant
            i <= db.entry.len(),
            forall|k: int| 0 <= k < i ==> db.entry@[k]@.name != name@,
        decreases db.entry.len() - i,
    {
        if str_eq(db.entry[i].name.as_str(), name) {
            proof {
                lemma_first_index_is(db@.entry, is_named(name@), i as int);
            }
            return i;
        }
        i = i + 1;
    }
    proof {
        lemma_first_index_is(db@.entry, is_named(name@), i as int);
    }
    i
}

/// Creates the table of a subscription where it has none; a table that
/// exists stays as it is.
pub fn new(db: &mut Database, suuid: &str) -> (r: Result<(), DbError>)
    ensures
        r == Ok::<(), DbError>(()),
        final(db)@ == (DatabaseView { entry: after_new(old(db)@.entry, suuid@), ..old(db)@ }),
        tables_wf(old(db)@.entry) ==> tables_wf(final(db)@.entry),
{
    let name = table_name(suuid);
    let i = find_table(db, name.as_str());
    if i == db.entry.len() {
        let table = EntryTable { name, rows: Vec::new() };
        proof {
            db.entry@.lemma_push_map_commute(|t: EntryTable| t@, table);
            assert(entry_views(table.rows@) =~= Seq::<RssEntryView>::empty());
            lemma_first_index(old(db)@.entry, is_named(spec_table_name(suuid@)));
        }
        db.entry.push(table);
    }
    Ok(())
}

/// Inserts an entry into the table of a subscription, behind the rows that
/// are there. An entry whose identity a row already has is refused.
pub fn insert(db: &mut Database, suuid: &str, entry: RssEntry) -> (r: Result<(), DbError>)
    ensures
        r == insert_result(old(db)@.entry, suuid@, entry@),
        final(db)@ == (DatabaseView {
            entry: after_insert(old(db)@.entry, suuid@, entry@),
            ..old(db)@
        }),
        tables_wf(old(db)@.entry) ==> tables_wf(final(db)@.entry),
{
    let name = table_name(suuid);
    let i = find_table(db, name.as_str());
    if i == db.entry.len() {
        return Err(DbError::NoSuchTable);
    }
    let j = find_entry(&db.entry[i].rows, entry.uuid.as_str());
    if j < db.entry[i].rows.len() {
        return Err(DbError::Duplicate);
    }
    proof {
        db.entry@[i as int].rows@.lemma_push_map_commute(|e: RssEntry| e@, entry);
        lemma_first_index(entry_views(db.entry@[i as int].rows@), is_entry(entry@.uuid));
    }
    db.entry[i].rows.push(entry);
    proof {
        assert(final(db)@.entry =~= with_rows(
            old(db)@.entry,
            i as int,
            old(db)@.entry[i as int].rows.push(entry@),
        ));
    }
    Ok(())
}

/// Deletes the entry with a given identity from the table of a
/// subscription. The rows that stay keep their order.
pub fn delete(db: &mut Database, suuid: &str, uuid: &str) -> (r: Result<(), DbError>)
    ensures
        r == row_result(old(db)@.entry, suuid@, uuid@),
        final(db)@ == (DatabaseView {
            entry: after_delete(old(db)@.entry, suuid@, uuid@),
            ..old(db)@
        }),
        tables_wf(old(db)@.entry) ==> tables_wf(final(db)@.entry),
{
    let name = table_name(suuid);
    let i = find_table(db, name.as_str());
    if i == db.entry.len() {
        return Err(DbError::NoSuchTable);
    }
    let j = find_entry(&db.entry[i].rows, uuid);
    if j == db.entry[i].rows.len() {
        return Err(DbError::NotFound);
    }
    db.entry[i].rows.remove(j);
    proof {
        let rows = old(db)@.entry[i as int].rows;
        assert(entry_views(db.entry@[i as int].rows@) =~= rows.remove(j as int));
        assert(db@.entry =~= with_rows(old(db)@.entry, i as int, rows.remove(j as int)));
    }
    Ok(())
}

/// Deletes every entry from the table of a subscription.
pub fn delete_all(db: &mut Database, suuid: &str) -> (r: Result<(), DbError>)
    ensures
        r == table_result(old(db)@.entry, suuid@),
        final(db)@ == (DatabaseView {
            entry: after_delete_all(old(db)@.entry, suuid@),
            ..old(db)@
        }),
        tables_wf(old(db)@.entry) ==> tables_wf(final(db)@.entry),
{
    let name = table_name(suuid);
    let i = find_table(db, name.as_str());
    if i == db.entry.len() {
        return Err(DbError::NoSuchTable);
    }
    db.entry[i].rows.clear();
    proof {
        assert(entry_views(db.entry@[i as int].rows@) =~= Seq::<RssEntryView>::empty());
        assert(db@.entry =~= with_rows(old(db)@.entry, i as int, Seq::empty()));
    }
    Ok(())
}

/// Replaces the entry with a given identity in the table of a subscription.
/// The row keeps its place and its identity, whatever identity `entry`
/// carries.
pub fn update(db: &mut Database, suuid: &str, uuid: &str, entry: RssEntry) -> (r: Result<
    (),
    DbError,
>)
    ensures
        r == row_result(old(db)@.entry, suuid@, uuid@),
        final(db)@ == (DatabaseView {
            entry: after_update(old(db)@.entry, suuid@, uuid@, entry@),
            ..old(db)@
        }),
        tables_wf(old(db)@.entry) ==> tables_wf(final(db)@.entry),
{
    let name = table_name(suuid);
    let i = find_table(db, name.as_str());
    if i == db.entry.len() {
        return Err(DbError::NoSuchTable);
    }
    let j = find_entry(&db.entry[i].rows, uuid);
    if j == db.entry[i].rows.len() {
        return Err(DbError::NotFound);
    }
    let mut row = entry;
    row.uuid = uuid.to_string();
    proof {
        lemma_first_index(old(db)@.entry[i as int].rows, is_entry(uuid@));
    }
    db.entry[i].rows[j] = row;
    proof {
        let rows = old(db)@.entry[i as int].rows;
        assert(entry_views(db.entry@[i as int].rows@) =~= rows.update(
            j as int,
            with_uuid(entry@, uuid@),
        ));
        assert(db@.entry =~= with_rows(
            old(db)@.entry,
            i as int,
            rows.update(j as int, with_uuid(entry@, uuid@)),
        ));
    }
    Ok(())
}

/// The entry with a given identity in the table of a subscription.
pub fn select(db: &Database, suuid: &str, uuid: &str) -> (r: Result<RssEntry, DbError>)
    ensures
        match rows_of(db@.entry, suuid@) {
            None => r is Err && r->Err_0 == DbError::NoSuchTable,
            Some(rows) => if found(rows, is_entry(uuid@)) {
                r is Ok && r->Ok_0@ == rows[entry_index(rows, uuid@)]
            } else {
                r is Err && r->Err_0 == DbError::NotFound
            },
        },
{
    let name = table_name(suuid);
    let i = find_table(db, name.as_str());
    if i == db.entry.len() {
        return Err(DbError::NoSuchTable);
    }
    let j = find_entry(&db.entry[i].rows, uuid);
    if j == db.entry[i].rows.len() {
        return Err(DbError::NotFound);
    }
    Ok(db.entry[i].rows[j].clone())
}

/// Every entry in the table of a subscription, in the order of insertion.
pub fn select_all(db: &Database, suuid: &str) -> (r: Result<Vec<RssEntry>, DbError>)
    ensures
        match rows_of(db@.entry, suuid@) {
            None => r is Err && r->Err_0 == DbError::NoSuchTable,
            Some(rows) => r is Ok && entry_views(r->Ok_0@) == rows,
        },
{
    let name = table_name(suuid);
    let i = find_table(db, name.as_str());
    if i == db.entry.len() {
        return Err(DbError::NoSuchTable);
    }
    Ok(clone_entries(&db.entry[i].rows))
}

/// Destroys the table of a subscription with all its rows.
pub fn drop_table(db: &mut Database, suuid: &str) -> (r: Result<(), DbError>)
    ensures
        r == table_result(old(db)@.entry, suuid@),
        final(db)@ == (DatabaseView { entry: after_drop(old(db)@.entry, suuid@), ..old(db)@ }),
        tables_wf(old(db)@.entry) ==> tables_wf(final(db)@.entry),
{
    let name = table_name(suuid);
    let i = find_table(db, name.as_str());
    if i == db.entry.len() {
        return Err(DbError::NoSuchTable);
    }
    db.entry.remove(i);
    proof {
        assert(db@.entry =~= old(db)@.entry.remove(i as int));
    }
    Ok(())
}

} // verus!
