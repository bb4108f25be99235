//! What happens to the entries of a subscription: taking in what a sync
//! found, reading, removing and favoriting.

use crate::db::entry::{
    after_delete, after_delete_all, after_insert, after_new, after_update, entry_index,
    entry_views, find_entry, is_entry, rows_of, RssEntry, RssEntryView,
};
use crate::db::{Database, DatabaseView, DbError, EntryTableView};
use crate::logic::feed::reversed;
use crate::logic::store::{
    count_unread, find_subscription, is_unread, lemma_count_unread_add, lemma_count_unread_bound,
    lemma_count_unread_remove, lemma_count_unread_update, registry_wf, subscription_index,
    subscription_wf, with_subscription, Registry, RegistryView, SubscriptionView, FAVORITE_UUID,
};
use crate::db::trash::with_hash;
use crate::logic::rss::{
    after_decease, decease_unread_counts, reset_unread_counts, rss_entrys_unread_counts,
    with_unread_counts,
};
use crate::logic::ActionError;
use crate::util::crypto::{md5_hex, spec_md5_hex};
use crate::util::id::new_uuid;
use crate::logic::store::is_subscription;
use crate::util::list::{
    found, lemma_filter_none, lemma_first_index, lemma_first_index_is, lemma_found_iff,
};
use crate::util::str::str_eq;
use vstd::prelude::*;

verus! {

/// The rows of a table as they are shown: the latest first, and nothing
/// where the table is absent.
pub open spec fn shown_rows(tables: Seq<EntryTableView>, suuid: Seq<char>) -> Seq<RssEntryView> {
    match rows_of(tables, suuid) {
        Some(rows) => rows.reverse(),
        None => Seq::empty(),
    }
}

/// The entries that the store holds for a subscription, the latest first. A
/// subscription without a table has none.
pub fn get_from_db(db: &Database, suuid: &str) -> (r: Vec<RssEntry>)
    ensures
        entry_views(r@) == shown_rows(db@.entry, suuid@),
{
    match crate::db::entry::select_all(db, suuid) {
        Ok(items) => reversed(items),
        Err(_) => {
            let r: Vec<RssEntry> = Vec::new();
            assert(entry_views(r@) =~= Seq::<RssEntryView>::empty());
            r
        },
    }
}

/// Makes the favorites ready: their table is created where it is absent, and
/// what it holds is taken into memory, the latest first.
pub fn init_favorite(ui: &mut Registry, db: &mut Database)
    ensures
        final(db)@ == (DatabaseView {
            entry: after_new(old(db)@.entry, FAVORITE_UUID@),
            ..old(db)@
        }),
        final(ui)@ == (RegistryView {
            rss_favorite_entrys: shown_rows(final(db)@.entry, FAVORITE_UUID@),
            ..old(ui)@
        }),
{
    let _ = crate::db::entry::new(db, FAVORITE_UUID);
    ui.rss_favorite_entrys = get_from_db(db, FAVORITE_UUID);
}

/// Makes the entries ready for use.
pub fn init(ui: &mut Registry, db: &mut Database)
    ensures
        final(db)@ == (DatabaseView {
            entry: after_new(old(db)@.entry, FAVORITE_UUID@),
            ..old(db)@
        }),
        final(ui)@ == (RegistryView {
            rss_favorite_entrys: shown_rows(final(db)@.entry, FAVORITE_UUID@),
            ..old(ui)@
        }),
{
    init_favorite(ui, db);
}

/// How an action on an entry of a subscription ends: it needs the
/// subscription, the entry in it, and the subscription's table in the store.
pub open spec fn entry_action_result(
    ui: RegistryView,
    db: DatabaseView,
    suuid: Seq<char>,
    uuid: Seq<char>,
) -> Result<(), ActionError> {
    let i = subscription_index(ui.rss_lists, suuid);
    if i >= ui.rss_lists.len() {
        Err(ActionError::NoSuchSubscription)
    } else if !found(ui.rss_lists[i].entry, is_entry(uuid)) {
        Err(ActionError::NoSuchEntry)
    } else if rows_of(db.entry, suuid) is None {
        Err(ActionError::Store(DbError::NoSuchTable))
    } else {
        Ok(())
    }
}

/// The entry that an action on a subscription's entry is about.
pub open spec fn entry_of(ui: RegistryView, suuid: Seq<char>, uuid: Seq<char>) -> RssEntryView {
    let s = ui.rss_lists[subscription_index(ui.rss_lists, suuid)];
    s.entry[entry_index(s.entry, uuid)]
}

/// The registry with the entries of a subscription replaced.
pub open spec fn with_entries(
    ui: RegistryView,
    suuid: Seq<char>,
    entries: Seq<RssEntryView>,
) -> RegistryView {
    let i = subscription_index(ui.rss_lists, suuid);
    with_subscription(ui, i, SubscriptionView { entry: entries, ..ui.rss_lists[i] })
}

/// The registry after an entry no longer counts as unread: the counter of
/// its subscription is one lower where the entry was unread, and stays where
/// it was read.
pub open spec fn uncounted(ui: RegistryView, suuid: Seq<char>, uuid: Seq<char>) -> RegistryView {
    if entry_of(ui, suuid, uuid).is_read {
        ui
    } else {
        after_decease(ui, suuid)
    }
}

/// The registry without an entry of a subscription.
pub open spec fn ui_after_remove_entry(
    ui: RegistryView,
    suuid: Seq<char>,
    uuid: Seq<char>,
) -> RegistryView {
    let s = ui.rss_lists[subscription_index(ui.rss_lists, suuid)];
    with_entries(uncounted(ui, suuid, uuid), suuid, s.entry.remove(entry_index(s.entry, uuid)))
}

/// The store after an entry was removed: its row is gone, and the hash of
/// its address is registered.
pub open spec fn db_after_remove_entry(
    db: DatabaseView,
    suuid: Seq<char>,
    uuid: Seq<char>,
    url: Seq<char>,
) -> DatabaseView {
    DatabaseView {
        trash: with_hash(db.trash, spec_md5_hex(url)),
        entry: after_delete(db.entry, suuid, uuid),
        ..db
    }
}

/// The store's part in removing an entry: the row goes, and the hash of the
/// entry's address is registered as removed. Without the subscription's
/// table nothing is done. A row that the table never held, or a hash that is
/// registered already, is no obstacle.
pub(crate) fn _remove_entry(db: &mut Database, suuid: &str, uuid: &str, url: &str) -> (r: Result<
    (),
    DbError,
>)
    ensures
        r == if rows_of(old(db)@.entry, suuid@) is Some {
            Ok::<(), DbError>(())
        } else {
            Err::<(), DbError>(DbError::NoSuchTable)
        },
        final(db)@ == if r is Ok {
            db_after_remove_entry(old(db)@, suuid@, uuid@, url@)
        } else {
            old(db)@
        },
{
    match crate::db::entry::delete(db, suuid, uuid) {
        Err(DbError::NoSuchTable) => {
            return Err(DbError::NoSuchTable);
        },
        _ => {},
    }
    let md5 = md5_hex(url);
    let _ = crate::db::trash::insert(db, md5.as_str());
    Ok(())
}

/// Removes an entry from a subscription. Its address is registered as
/// removed, its row in the store goes, and the unread counter of the
/// subscription is lowered where the entry was unread. Where the
/// subscription, the entry or the subscription's table is missing, nothing
/// changes.
pub fn remove_entry(ui: &mut Registry, db: &mut Database, suuid: &str, uuid: &str) -> (r: Result<
    (),
    ActionError,
>)
    ensures
        r == entry_action_result(old(ui)@, old(db)@, suuid@, uuid@),
        r is Ok ==> final(ui)@ == ui_after_remove_entry(old(ui)@, suuid@, uuid@),
        r is Ok ==> final(db)@ == db_after_remove_entry(
            old(db)@,
            suuid@,
            uuid@,
            entry_of(old(ui)@, suuid@, uuid@).url,
        ),
        r is Err ==> final(ui)@ == old(ui)@ && final(db)@ == old(db)@,
        registry_wf(old(ui)@) ==> registry_wf(final(ui)@),
{
    let i = find_subscription(ui, suuid);
    if i == ui.rss_lists.len() {
        return Err(ActionError::NoSuchSubscription);
    }
    let j = find_entry(&ui.rss_lists[i].entry, uuid);
    if j == ui.rss_lists[i].entry.len() {
        return Err(ActionError::NoSuchEntry);
    }
    let url = ui.rss_lists[i].entry[j].url.clone();
    let is_read = ui.rss_lists[i].entry[j].is_read;
    match _remove_entry(db, suuid, uuid, url.as_str()) {
        Err(e) => {
            return Err(ActionError::Store(e));
        },
        Ok(()) => {},
    }
    if !is_read {
        decease_unread_counts(ui, suuid);
    }
    proof {
        lemma_first_index(old(ui)@.rss_lists, is_subscription(suuid@));
        lemma_first_index_is(ui@.rss_lists, is_subscription(suuid@), i as int);
        assert(ui@.rss_lists.len() == old(ui)@.rss_lists.len());
        assert(ui@.rss_lists[i as int].entry == old(ui)@.rss_lists[i as int].entry);
        assert(ui.rss_lists@[i as int]@.entry.len() == ui.rss_lists@[i as int].entry@.len());
    }
    ui.rss_lists[i].entry.remove(j);
    proof {
        let s = old(ui)@.rss_lists[i as int];
        assert(ui@.rss_lists[i as int].entry =~= s.entry.remove(j as int));
        assert(ui@.rss_lists =~= ui_after_remove_entry(old(ui)@, suuid@, uuid@).rss_lists);
        if registry_wf(old(ui)@) {
            lemma_remove_entry_wf(old(ui)@, suuid@, uuid@);
        }
    }
    Ok(())
}

/// A registry is in order again once the one subscription that changed is.
pub proof fn lemma_wf_after(before: RegistryView, after: RegistryView, i: int)
    requires
        registry_wf(before),
        after.rss_lists.len() == before.rss_lists.len(),
        forall|k: int|
            0 <= k < before.rss_lists.len() && k != i ==> after.rss_lists[k]
                == before.rss_lists[k],
        0 <= i < after.rss_lists.len() ==> subscription_wf(after.rss_lists[i]),
    ensures
        registry_wf(after),
{
    assert forall|k: int| 0 <= k < after.rss_lists.len() implies subscription_wf(
        #[trigger] after.rss_lists[k],
    ) by {
        if k != i {
            assert(subscription_wf(before.rss_lists[k]));
        }
    }
}

/// An entry marked as read.
pub open spec fn read(e: RssEntryView) -> RssEntryView {
    RssEntryView { is_read: true, ..e }
}

/// The registry with an entry of a subscription marked as read.
pub open spec fn ui_after_set_entry_read(
    ui: RegistryView,
    suuid: Seq<char>,
    uuid: Seq<char>,
) -> RegistryView {
    let s = ui.rss_lists[subscription_index(ui.rss_lists, suuid)];
    let j = entry_index(s.entry, uuid);
    with_entries(uncounted(ui, suuid, uuid), suuid, s.entry.update(j, read(s.entry[j])))
}

/// The store's part in marking an entry as read: its row is replaced.
/// Without the subscription's table nothing is done; a row that the table
/// never held is no obstacle.
pub(crate) fn _set_entry_read(
    db: &mut Database,
    suuid: &str,
    entry: RssEntry,
) -> (r: Result<(), DbError>)
    ensures
        r == if rows_of(old(db)@.entry, suuid@) is Some {
            Ok::<(), DbError>(())
        } else {
            Err::<(), DbError>(DbError::NoSuchTable)
        },
        final(db)@ == (DatabaseView {
            entry: after_update(old(db)@.entry, suuid@, entry@.uuid, entry@),
            ..old(db)@
        }),
{
    let uuid = entry.uuid.clone();
    match crate::db::entry::update(db, suuid, uuid.as_str(), entry) {
        Err(DbError::NoSuchTable) => Err(DbError::NoSuchTable),
        _ => Ok(()),
    }
}

/// Marks an entry of a subscription as read, in memory and in the store. The
/// unread counter of the subscription is lowered by one, though never below
/// zero, where the entry was unread, and stays where it was read already.
/// Where the subscription, the entry or the subscription's table is missing,
/// nothing changes.
pub fn set_entry_read(ui: &mut Registry, db: &mut Database, suuid: &str, uuid: &str) -> (r: Result<
    (),
    ActionError,
>)
    ensures
        r == entry_action_result(old(ui)@, old(db)@, suuid@, uuid@),
        r is Ok ==> final(ui)@ == ui_after_set_entry_read(old(ui)@, suuid@, uuid@),
        r is Ok ==> final(db)@ == (DatabaseView {
            entry: after_update(
                old(db)@.entry,
                suuid@,
                uuid@,
                read(entry_of(old(ui)@, suuid@, uuid@)),
            ),
            ..old(db)@
        }),
        r is Err ==> final(ui)@ == old(ui)@ && final(db)@ == old(db)@,
        registry_wf(old(ui)@) ==> registry_wf(final(ui)@),
{
    let i = find_subscription(ui, suuid);
    if i == ui.rss_lists.len() {
        return Err(ActionError::NoSuchSubscription);
    }
    let j = find_entry(&ui.rss_lists[i].entry, uuid);
    if j == ui.rss_lists[i].entry.len() {
        return Err(ActionError::NoSuchEntry);
    }
    let was_read = ui.rss_lists[i].entry[j].is_read;
    let mut entry = ui.rss_lists[i].entry[j].clone();
    entry.is_read = true;
    proof {
        lemma_first_index(old(ui)@.rss_lists[i as int].entry, is_entry(uuid@));
    }
    match _set_entry_read(db, suuid, entry) {
        Err(e) => {
            return Err(ActionError::Store(e));
        },
        Ok(()) => {},
    }
    if !was_read {
        decease_unread_counts(ui, suuid);
    }
    proof {
        lemma_first_index(old(ui)@.rss_lists, is_subscription(suuid@));
        lemma_first_index_is(ui@.rss_lists, is_subscription(suuid@), i as int);
        assert(ui@.rss_lists.len() == old(ui)@.rss_lists.len());
        assert(ui@.rss_lists[i as int].entry == old(ui)@.rss_lists[i as int].entry);
        assert(ui.rss_lists@[i as int]@.entry.len() == ui.rss_lists@[i as int].entry@.len());
    }
    ui.rss_lists[i].entry[j].is_read = true;
    proof {
        let s = old(ui)@.rss_lists[i as int];
        assert(ui@.rss_lists[i as int].entry =~= s.entry.update(j as int, read(s.entry[j as int])));
        assert(ui@.rss_lists =~= ui_after_set_entry_read(old(ui)@, suuid@, uuid@).rss_lists);
        if registry_wf(old(ui)@) {
            lemma_set_entry_read_wf(old(ui)@, suuid@, uuid@);
        }
    }
    Ok(())
}

/// The registry with one more favorite in front of the others.
pub open spec fn ui_after_favorite(ui: RegistryView, e: RssEntryView) -> RegistryView {
    RegistryView { rss_favorite_entrys: seq![e] + ui.rss_favorite_entrys, ..ui }
}

/// How favoriting an entry ends. It needs the subscription and the entry in
/// it; an entry whose identity is among the favorites already, in memory or
/// in the store, is refused; so is any entry while the store has no table
/// for the favorites.
pub open spec fn favorite_result(
    ui: RegistryView,
    db: DatabaseView,
    suuid: Seq<char>,
    uuid: Seq<char>,
) -> Result<(), ActionError> {
    let i = subscription_index(ui.rss_lists, suuid);
    if i >= ui.rss_lists.len() {
        Err(ActionError::NoSuchSubscription)
    } else if !found(ui.rss_lists[i].entry, is_entry(uuid)) {
        Err(ActionError::NoSuchEntry)
    } else if found(ui.rss_favorite_entrys, is_entry(uuid)) {
        Err(ActionError::AlreadyFavorited)
    } else {
        match crate::db::entry::insert_result(db.entry, FAVORITE_UUID@, entry_of(ui, suuid, uuid)) {
            Ok(()) => Ok(()),
            Err(DbError::Duplicate) => Err(ActionError::AlreadyFavorited),
            Err(e) => Err(ActionError::Store(e)),
        }
    }
}

/// The store's part in favoriting an entry: a row for it in the table of
/// the favorites.
pub(crate) fn _favorite_entry(db: &mut Database, entry: RssEntry) -> (r: Result<(), DbError>)
    ensures
        r == crate::db::entry::insert_result(old(db)@.entry, FAVORITE_UUID@, entry@),
        final(db)@ == (DatabaseView {
            entry: after_insert(old(db)@.entry, FAVORITE_UUID@, entry@),
            ..old(db)@
        }),
{
    crate::db::entry::insert(db, FAVORITE_UUID, entry)
}

/// Copies an entry of a subscription to the favorites, under the identity
/// that it has, in front of the favorites that are there, and into the
/// store. An entry that is a favorite already is refused and not stored
/// again. The subscription keeps the entry.
pub fn favorite_entry(ui: &mut Registry, db: &mut Database, suuid: &str, uuid: &str) -> (r: Result<
    (),
    ActionError,
>)
    ensures
        r == favorite_result(old(ui)@, old(db)@, suuid@, uuid@),
        r is Ok ==> final(ui)@ == ui_after_favorite(old(ui)@, entry_of(old(ui)@, suuid@, uuid@)),
        r is Ok ==> final(db)@ == (DatabaseView {
            entry: after_insert(
                old(db)@.entry,
                FAVORITE_UUID@,
                entry_of(old(ui)@, suuid@, uuid@),
            ),
            ..old(db)@
        }),
        r is Err ==> final(ui)@ == old(ui)@ && final(db)@ == old(db)@,
{
    let i = find_subscription(ui, suuid);
    if i == ui.rss_lists.len() {
        return Err(ActionError::NoSuchSubscription);
    }
    let j = find_entry(&ui.rss_lists[i].entry, uuid);
    if j == ui.rss_lists[i].entry.len() {
        return Err(ActionError::NoSuchEntry);
    }
    if find_entry(&ui.rss_favorite_entrys, uuid) < ui.rss_favorite_entrys.len() {
        return Err(ActionError::AlreadyFavorited);
    }
    let entry = ui.rss_lists[i].entry[j].clone();
    match _favorite_entry(db, entry.clone()) {
        Ok(()) => {},
        Err(DbError::Duplicate) => {
            return Err(ActionError::AlreadyFavorited);
        },
        Err(e) => {
            return Err(ActionError::Store(e));
        },
    }
    ui.rss_favorite_entrys.insert(0, entry);
    assert(ui@.rss_favorite_entrys =~= seq![entry@] + old(ui)@.rss_favorite_entrys);
    assert(ui@.rss_lists =~= old(ui)@.rss_lists);
    Ok(())
}

/// The favorites without the first of a given identity, and as they are
/// where none has it.
pub open spec fn favorites_without(favorites: Seq<RssEntryView>, uuid: Seq<char>) -> Seq<
    RssEntryView,
> {
    if found(favorites, is_entry(uuid)) {
        favorites.remove(entry_index(favorites, uuid))
    } else {
        favorites
    }
}

/// The store's part in removing a favorite: its row goes. Without the table
/// of the favorites nothing is done; a row that the table never held is no
/// obstacle.
pub(crate) fn _remove_favorite_entry(db: &mut Database, uuid: &str) -> (r: Result<(), DbError>)
    ensures
        r == crate::db::entry::table_result(old(db)@.entry, FAVORITE_UUID@),
        final(db)@ == (DatabaseView {
            entry: after_delete(old(db)@.entry, FAVORITE_UUID@, uuid@),
            ..old(db)@
        }),
{
    match crate::db::entry::delete(db, FAVORITE_UUID, uuid) {
        Err(DbError::NoSuchTable) => Err(DbError::NoSuchTable),
        _ => Ok(()),
    }
}

/// Removes a favorite, in memory and in the store. The subscriptions and
/// the registry of removed items are left alone. While the store has no
/// table for the favorites, nothing changes.
pub fn remove_favorite_entry(ui: &mut Registry, db: &mut Database, uuid: &str) -> (r: Result<
    (),
    ActionError,
>)
    ensures
        r == match crate::db::entry::table_result(old(db)@.entry, FAVORITE_UUID@) {
            Ok(()) => Ok::<(), ActionError>(()),
            Err(e) => Err::<(), ActionError>(ActionError::Store(e)),
        },
        r is Ok ==> final(ui)@ == (RegistryView {
            rss_favorite_entrys: favorites_without(old(ui)@.rss_favorite_entrys, uuid@),
            ..old(ui)@
        }),
        r is Ok ==> final(db)@ == (DatabaseView {
            entry: after_delete(old(db)@.entry, FAVORITE_UUID@, uuid@),
            ..old(db)@
        }),
        r is Err ==> final(ui)@ == old(ui)@ && final(db)@ == old(db)@,
{
    match _remove_favorite_entry(db, uuid) {
        Err(e) => {
            return Err(ActionError::Store(e));
        },
        Ok(()) => {},
    }
    let j = find_entry(&ui.rss_favorite_entrys, uuid);
    if j < ui.rss_favorite_entrys.len() {
        ui.rss_favorite_entrys.remove(j);
        assert(ui@.rss_favorite_entrys =~= old(ui)@.rss_favorite_entrys.remove(j as int));
    }
    assert(ui@.rss_lists =~= old(ui)@.rss_lists);
    Ok(())
}

/// The store's part in removing every favorite.
pub(crate) fn _remove_all_favorite_entrys(db: &mut Database) -> (r: Result<(), DbError>)
    ensures
        r == crate::db::entry::table_result(old(db)@.entry, FAVORITE_UUID@),
        final(db)@ == (DatabaseView {
            entry: after_delete_all(old(db)@.entry, FAVORITE_UUID@),
            ..old(db)@
        }),
{
    crate::db::entry::delete_all(db, FAVORITE_UUID)
}

/// Removes every favorite, in memory and in the store. While the store has
/// no table for the favorites, nothing changes.
pub fn remove_all_favorite_entrys(ui: &mut Registry, db: &mut Database) -> (r: Result<
    (),
    ActionError,
>)
    ensures
        r == match crate::db::entry::table_result(old(db)@.entry, FAVORITE_UUID@) {
            Ok(()) => Ok::<(), ActionError>(()),
            Err(e) => Err::<(), ActionError>(ActionError::Store(e)),
        },
        r is Ok ==> final(ui)@ == (RegistryView {
            rss_favorite_entrys: Seq::empty(),
            ..old(ui)@
        }),
        final(db)@ == (DatabaseView {
            entry: after_delete_all(old(db)@.entry, FAVORITE_UUID@),
            ..old(db)@
        }),
        r is Err ==> final(ui)@ == old(ui)@ && final(db)@ == old(db)@,
{
    match _remove_all_favorite_entrys(db) {
        Err(e) => {
            return Err(ActionError::Store(e));
        },
        Ok(()) => {},
    }
    ui.rss_favorite_entrys.clear();
    assert(ui@.rss_favorite_entrys =~= Seq::<RssEntryView>::empty());
    assert(ui@.rss_lists =~= old(ui)@.rss_lists);
    Ok(())
}

/// The registry of removed items with the hash of the address of each of
/// the entries.
pub open spec fn with_hashes(trash: Option<Set<Seq<char>>>, entries: Seq<RssEntryView>) -> Option<
    Set<Seq<char>>,
>
    decreases entries.len(),
{
    if entries.len() == 0 {
        trash
    } else {
        with_hash(with_hashes(trash, entries.drop_last()), spec_md5_hex(entries.last().url))
    }
}

/// How removing every entry of a subscription ends: it needs a subscription
/// of that identity, which may not be empty, and the subscription's table in
/// the store.
pub open spec fn remove_all_result(ui: RegistryView, db: DatabaseView, suuid: Seq<char>) -> Result<
    (),
    ActionError,
> {
    if suuid.len() == 0 || !found(ui.rss_lists, is_subscription(suuid)) {
        Err(ActionError::NoSuchSubscription)
    } else if rows_of(db.entry, suuid) is None {
        Err(ActionError::Store(DbError::NoSuchTable))
    } else {
        Ok(())
    }
}

/// Registers the address of each entry as removed.
pub fn trash_entries(db: &mut Database, entries: &Vec<RssEntry>)
    ensures
        final(db)@ == (DatabaseView {
            trash: with_hashes(old(db)@.trash, entry_views(entries@)),
            ..old(db)@
        }),
{
    let ghost all = entry_views(entries@);
    let mut k: usize = 0;
    while k < entries.len()
        invariant
            k <= entries.len(),
            all == entry_views(entries@),
            db@ == (DatabaseView {
                trash: with_hashes(old(db)@.trash, all.take(k as int)),
                ..old(db)@
            }),
        decreases entries.len() - k,
    {
        proof {
            assert(all.take(k + 1).drop_last() =~= all.take(k as int));
        }
        let md5 = md5_hex(entries[k].url.as_str());
        let _ = crate::db::trash::insert(db, md5.as_str());
        k = k + 1;
    }
    assert(all.take(entries.len() as int) =~= all);
}

/// The store's part in removing every entry of a subscription: its table is
/// emptied, and the hash of the address of each entry is registered as
/// removed. Without the subscription's table nothing is done.
pub(crate) fn _remove_all_entrys(
    db: &mut Database,
    suuid: &str,
    entries: &Vec<RssEntry>,
) -> (r: Result<(), DbError>)
    ensures
        r == crate::db::entry::table_result(old(db)@.entry, suuid@),
        final(db)@ == if r is Ok {
            DatabaseView {
                trash: with_hashes(old(db)@.trash, entry_views(entries@)),
                entry: after_delete_all(old(db)@.entry, suuid@),
                ..old(db)@
            }
        } else {
            old(db)@
        },
{
    match crate::db::entry::delete_all(db, suuid) {
        Err(e) => {
            return Err(e);
        },
        Ok(()) => {},
    }
    trash_entries(db, entries);
    Ok(())
}

/// Removes every entry of a subscription: the address of each is registered
/// as removed, the subscription's table in the store is emptied, and its
/// unread counter is set to zero. Where the subscription or its table is
/// missing, nothing changes.
pub fn remove_all_entrys(ui: &mut Registry, db: &mut Database, suuid: &str) -> (r: Result<
    (),
    ActionError,
>)
    ensures
        r == remove_all_result(old(ui)@, old(db)@, suuid@),
        r is Ok ==> final(ui)@ == ui_after_remove_all(old(ui)@, suuid@),
        r is Ok ==> final(db)@ == (DatabaseView {
            trash: with_hashes(
                old(db)@.trash,
                old(ui)@.rss_lists[subscription_index(old(ui)@.rss_lists, suuid@)].entry,
            ),
            entry: after_delete_all(old(db)@.entry, suuid@),
            ..old(db)@
        }),
        r is Err ==> final(ui)@ == old(ui)@ && final(db)@ == old(db)@,
        registry_wf(old(ui)@) ==> registry_wf(final(ui)@),
{
    if suuid.is_empty() {
        return Err(ActionError::NoSuchSubscription);
    }
    let i = find_subscription(ui, suuid);
    if i == ui.rss_lists.len() {
        return Err(ActionError::NoSuchSubscription);
    }
    match _remove_all_entrys(db, suuid, &ui.rss_lists[i].entry) {
        Err(e) => {
            return Err(ActionError::Store(e));
        },
        Ok(()) => {},
    }
    reset_unread_counts(ui, suuid);
    proof {
        lemma_first_index(old(ui)@.rss_lists, is_subscription(suuid@));
        lemma_first_index_is(ui@.rss_lists, is_subscription(suuid@), i as int);
        assert(ui@.rss_lists.len() == old(ui)@.rss_lists.len());
    }
    ui.rss_lists[i].entry.clear();
    proof {
        assert(ui@.rss_lists[i as int].entry =~= Seq::<RssEntryView>::empty());
        assert(ui@.rss_lists =~= ui_after_remove_all(old(ui)@, suuid@).rss_lists);
        if registry_wf(old(ui)@) {
            lemma_remove_all_wf(old(ui)@, suuid@);
        }
    }
    Ok(())
}

/// Whether an entry has a given address.
pub open spec fn has_url(url: Seq<char>) -> spec_fn(RssEntryView) -> bool {
    |e: RssEntryView| e.url == url
}

/// Whether a candidate's address is that of none of the entries that are
/// present.
pub open spec fn is_new(present: Seq<RssEntryView>) -> spec_fn(RssEntryView) -> bool {
    |c: RssEntryView| !found(present, has_url(c.url))
}

/// The candidates whose address none of the present entries has, in the
/// candidates' order.
pub open spec fn net_new(present: Seq<RssEntryView>, candidates: Seq<RssEntryView>) -> Seq<
    RssEntryView,
> {
    candidates.filter(is_new(present))
}

/// A candidate as the entry that it becomes: owned by the subscription,
/// under a fresh identity, and unread.
pub open spec fn adopted_entry(suuid: Seq<char>, c: RssEntryView, uuid: Seq<char>) -> RssEntryView {
    RssEntryView { suuid, uuid, is_read: false, ..c }
}

/// The candidates as the entries that they become, each under the identity
/// at its position in `uuids`.
pub open spec fn adopted(suuid: Seq<char>, fresh: Seq<RssEntryView>, uuids: Seq<Seq<char>>) -> Seq<
    RssEntryView,
> {
    Seq::new(fresh.len(), |k: int| adopted_entry(suuid, fresh[k], uuids[k]))
}

/// A subscription with new entries in front of those that it has: the last
/// of the new ones first. Its counter is counted anew.
pub open spec fn sub_with_new(s: SubscriptionView, fresh: Seq<RssEntryView>) -> SubscriptionView {
    SubscriptionView {
        unread_counts: count_unread(fresh.reverse() + s.entry),
        entry: fresh.reverse() + s.entry,
        ..s
    }
}

/// The registry with new entries taken into a subscription, and as it is
/// where no subscription has the identity.
pub open spec fn ui_with_new(
    ui: RegistryView,
    suuid: Seq<char>,
    fresh: Seq<RssEntryView>,
) -> RegistryView {
    let i = subscription_index(ui.rss_lists, suuid);
    if i < ui.rss_lists.len() {
        with_subscription(ui, i, sub_with_new(ui.rss_lists[i], fresh))
    } else {
        ui
    }
}

/// The tables after each of the entries was offered to the table of the
/// subscription, one after the other. An entry that the table refuses is
/// passed over.
pub open spec fn persisted(
    tables: Seq<EntryTableView>,
    suuid: Seq<char>,
    fresh: Seq<RssEntryView>,
) -> Seq<EntryTableView>
    decreases fresh.len(),
{
    if fresh.len() == 0 {
        tables
    } else {
        after_insert(persisted(tables, suuid, fresh.drop_last()), suuid, fresh.last())
    }
}

/// Whether one of the entries has the given address.
pub fn is_url_present(entries: &Vec<RssEntry>, url: &str) -> (r: bool)
    ensures
        r == found(entry_views(entries@), has_url(url@)),
{
    let mut i: usize = 0;
    while i < entries.len()
        invariant
            i <= entries.len(),
            forall|k: int| 0 <= k < i ==> entries@[k]@.url != url@,
        decreases entries.len() - i,
    {
        if str_eq(entries[i].url.as_str(), url) {
            proof {
                lemma_first_index_is(entry_views(entries@), has_url(url@), i as int);
            }
            return true;
        }
        i = i + 1;
    }
    proof {
        lemma_first_index_is(entry_views(entries@), has_url(url@), i as int);
    }
    false
}

/// The candidates whose address none of the present entries has, in the
/// candidates' order.
pub fn unfound_entrys(present: &Vec<RssEntry>, entrys: Vec<RssEntry>) -> (r: Vec<RssEntry>)
    ensures
        entry_views(r@) == net_new(entry_views(present@), entry_views(entrys@)),
{
    let ghost all = entry_views(entrys@);
    let ghost keep = is_new(entry_views(present@));
    let mut rest = reversed(entrys);
    let mut unfound_list: Vec<RssEntry> = Vec::new();
    proof {
        assert(entry_views(rest@).len() == rest@.len());
        assert forall|k: int| 0 <= k < rest@.len() implies (#[trigger] rest@[k])@ == all[all.len()
            - 1 - k] by {
            assert(entry_views(rest@)[k] == rest@[k]@);
        }
        assert(entry_views(unfound_list@) =~= all.take(0).filter(keep));
    }
    while rest.len() > 0
        invariant
            rest@.len() <= all.len(),
            keep == is_new(entry_views(present@)),
            forall|k: int|
                0 <= k < rest@.len() ==> (#[trigger] rest@[k])@ == all[all.len() - 1 - k],
            entry_views(unfound_list@) == all.take(all.len() - rest@.len()).filter(keep),
        decreases rest.len(),
    {
        let ghost done = all.len() - rest@.len();
        match rest.pop() {
            Some(entry) => {
                proof {
                    assert(entry@ == all[done]);
                    assert(all.take(done + 1) =~= all.take(done).push(all[done]));
                    all.take(done).lemma_filter_push(all[done], keep);
                    unfound_list@.lemma_push_map_commute(|e: RssEntry| e@, entry);
                }
                if !is_url_present(present, entry.url.as_str()) {
                    unfound_list.push(entry);
                }
            },
            None => {},
        }
    }
    assert(all.take(all.len() as int) =~= all);
    unfound_list
}

/// The identities of the entries of a list, in the list's order.
pub open spec fn uuids_of(entries: Seq<RssEntryView>) -> Seq<Seq<char>> {
    entries.map_values(|e: RssEntryView| e.uuid)
}

/// Makes candidates the entries of a subscription: each gets the
/// subscription's identity, a fresh identity of its own, and counts as
/// unread. Which identities are drawn is left to chance; each is 36
/// characters long.
pub fn adopt(suuid: &str, fresh: Vec<RssEntry>) -> (r: Vec<RssEntry>)
    ensures
        entry_views(r@) == adopted(suuid@, entry_views(fresh@), uuids_of(entry_views(r@))),
        forall|k: int| 0 <= k < r@.len() ==> (#[trigger] r@[k])@.uuid.len() == 36,
{
    let ghost all = entry_views(fresh@);
    let mut r = fresh;
    let mut k: usize = 0;
    while k < r.len()
        invariant
            k <= r.len(),
            r@.len() == all.len(),
            forall|i: int|
                0 <= i < k ==> (#[trigger] r@[i])@ == adopted_entry(suuid@, all[i], r@[i]@.uuid)
                    && r@[i]@.uuid.len() == 36,
            forall|i: int| k <= i < r@.len() ==> (#[trigger] r@[i])@ == all[i],
        decreases r.len() - k,
    {
        r[k].suuid = suuid.to_string();
        r[k].uuid = new_uuid();
        r[k].is_read = false;
        k = k + 1;
    }
    assert(entry_views(r@) =~= adopted(suuid@, all, uuids_of(entry_views(r@))));
    r
}

/// The store's part in taking in a new entry: a row for it in the table of
/// its subscription.
pub fn update_new_entry(db: &mut Database, suuid: &str, entry: RssEntry) -> (r: Result<(), DbError>)
    ensures
        r == crate::db::entry::insert_result(old(db)@.entry, suuid@, entry@),
        final(db)@ == (DatabaseView {
            entry: after_insert(old(db)@.entry, suuid@, entry@),
            ..old(db)@
        }),
{
    crate::db::entry::insert(db, suuid, entry)
}

/// Takes new entries into a subscription. They go in front of the entries
/// that it has, the last of them first, and the unread counter is counted
/// anew; each is offered to the subscription's table in the store, and one
/// that the store refuses stays in memory all the same. Where no
/// subscription has the identity, nothing changes.
pub fn add_new_entrys(ui: &mut Registry, db: &mut Database, suuid: &str, fresh: Vec<RssEntry>)
    ensures
        final(ui)@ == ui_with_new(old(ui)@, suuid@, entry_views(fresh@)),
        final(db)@ == if found(old(ui)@.rss_lists, is_subscription(suuid@)) {
            DatabaseView {
                entry: persisted(old(db)@.entry, suuid@, entry_views(fresh@)),
                ..old(db)@
            }
        } else {
            old(db)@
        },
        registry_wf(old(ui)@) ==> registry_wf(final(ui)@),
{
    let i = find_subscription(ui, suuid);
    if i == ui.rss_lists.len() {
        return ;
    }
    let ghost all = entry_views(fresh@);
    let mut k: usize = 0;
    while k < fresh.len()
        invariant
            k <= fresh.len(),
            all == entry_views(fresh@),
            db@ == (DatabaseView {
                entry: persisted(old(db)@.entry, suuid@, all.take(k as int)),
                ..old(db)@
            }),
        decreases fresh.len() - k,
    {
        proof {
            assert(all.take(k + 1).drop_last() =~= all.take(k as int));
        }
        let _ = update_new_entry(db, suuid, fresh[k].clone());
        k = k + 1;
    }
    assert(all.take(fresh.len() as int) =~= all);
    let mut list = reversed(fresh);
    list.append(&mut ui.rss_lists[i].entry);
    proof {
        assert(entry_views(list@) =~= all.reverse() + old(ui)@.rss_lists[i as int].entry);
    }
    let unread_counts = rss_entrys_unread_counts(&list);
    ui.rss_lists[i].entry = list;
    ui.rss_lists[i].unread_counts = unread_counts;
    proof {
        assert(ui@.rss_lists =~= ui_with_new(old(ui)@, suuid@, all).rss_lists);
        if registry_wf(old(ui)@) {
            lemma_wf_after(old(ui)@, ui@, i as int);
        }
    }
}

/// The registry after a sync's candidates were taken in under given fresh
/// identities: those whose address the subscription did not have yet go in
/// front of its entries.
pub open spec fn ui_after_update_new_entrys(
    ui: RegistryView,
    suuid: Seq<char>,
    candidates: Seq<RssEntryView>,
    uuids: Seq<Seq<char>>,
) -> RegistryView {
    let i = subscription_index(ui.rss_lists, suuid);
    if i < ui.rss_lists.len() {
        ui_with_new(ui, suuid, adopted(suuid, net_new(ui.rss_lists[i].entry, candidates), uuids))
    } else {
        ui
    }
}

/// The store after a sync's candidates were taken in under given fresh
/// identities.
pub open spec fn db_after_update_new_entrys(
    ui: RegistryView,
    db: DatabaseView,
    suuid: Seq<char>,
    candidates: Seq<RssEntryView>,
    uuids: Seq<Seq<char>>,
) -> DatabaseView {
    let i = subscription_index(ui.rss_lists, suuid);
    if i < ui.rss_lists.len() {
        DatabaseView {
            entry: persisted(
                db.entry,
                suuid,
                adopted(suuid, net_new(ui.rss_lists[i].entry, candidates), uuids),
            ),
            ..db
        }
    } else {
        db
    }
}

/// Takes what a sync found into a subscription. Of the candidates, those
/// whose address the subscription does not have yet become entries of it:
/// each under a fresh identity, unread, in front of the entries that are
/// there, and offered to the store. Which identities are drawn is left to
/// chance, so the contract speaks of some list of them, each 36 characters
/// long.
pub fn update_new_entrys(ui: &mut Registry, db: &mut Database, suuid: &str, entrys: Vec<RssEntry>)
    ensures
        exists|uuids: Seq<Seq<char>>|
            {
                &&& forall|k: int| 0 <= k < uuids.len() ==> (#[trigger] uuids[k]).len() == 36
                &&& final(ui)@ == ui_after_update_new_entrys(
                    old(ui)@,
                    suuid@,
                    entry_views(entrys@),
                    uuids,
                )
                &&& final(db)@ == db_after_update_new_entrys(
                    old(ui)@,
                    old(db)@,
                    suuid@,
                    entry_views(entrys@),
                    uuids,
                )
            },
        registry_wf(old(ui)@) ==> registry_wf(final(ui)@),
{
    let i = find_subscription(ui, suuid);
    if i == ui.rss_lists.len() {
        assert(ui@ == ui_after_update_new_entrys(
            old(ui)@,
            suuid@,
            entry_views(entrys@),
            Seq::<Seq<char>>::empty(),
        ));
        assert(db@ == db_after_update_new_entrys(
            old(ui)@,
            old(db)@,
            suuid@,
            entry_views(entrys@),
            Seq::<Seq<char>>::empty(),
        ));
        return ;
    }
    let unfound_list = unfound_entrys(&ui.rss_lists[i].entry, entrys);
    let fresh = adopt(suuid, unfound_list);
    let ghost uuids = uuids_of(entry_views(fresh@));
    proof {
        assert forall|k: int| 0 <= k < uuids.len() implies (#[trigger] uuids[k]).len() == 36 by {
            assert(uuids[k] == fresh@[k]@.uuid);
        }
    }
    add_new_entrys(ui, db, suuid, fresh);
    proof {
        assert(ui@ == ui_after_update_new_entrys(old(ui)@, suuid@, entry_views(entrys@), uuids));
        assert(db@ == db_after_update_new_entrys(
            old(ui)@,
            old(db)@,
            suuid@,
            entry_views(entrys@),
            uuids,
        ));
    }
}

/// A candidate that is taken in is found by its address from then on.
pub proof fn lemma_taken_in_is_present(
    s: SubscriptionView,
    suuid: Seq<char>,
    candidates: Seq<RssEntryView>,
    uuids: Seq<Seq<char>>,
    k: int,
)
    requires
        0 <= k < candidates.len(),
    ensures
        found(
            sub_with_new(s, adopted(suuid, net_new(s.entry, candidates), uuids)).entry,
            has_url(candidates[k].url),
        ),
{
    let url = candidates[k].url;
    let fresh = net_new(s.entry, candidates);
    let taken = adopted(suuid, fresh, uuids);
    let after = taken.reverse() + s.entry;
    lemma_found_iff(after, has_url(url));
    if found(s.entry, has_url(url)) {
        lemma_found_iff(s.entry, has_url(url));
        let w = choose|w: int| 0 <= w < s.entry.len() && has_url(url)(#[trigger] s.entry[w]);
        assert(has_url(url)(after[taken.len() + w]));
    } else {
        assert(is_new(s.entry)(candidates[k]));
        candidates.lemma_filter_contains(is_new(s.entry), k);
        assert(fresh.contains(candidates[k]));
        let w = choose|w: int| 0 <= w < fresh.len() && fresh[w] == candidates[k];
        assert(taken[w].url == url);
        assert(has_url(url)(after[taken.len() - 1 - w]));
    }
}

/// Taking in the same candidates a second time, with no entry removed in
/// between, takes in none: each of them is found by its address among the
/// entries that the first time left.
pub proof fn law_second_sync_finds_nothing_new(
    s: SubscriptionView,
    suuid: Seq<char>,
    candidates: Seq<RssEntryView>,
    uuids: Seq<Seq<char>>,
)
    ensures
        net_new(
            sub_with_new(s, adopted(suuid, net_new(s.entry, candidates), uuids)).entry,
            candidates,
        ) == Seq::<RssEntryView>::empty(),
{
    let after = sub_with_new(s, adopted(suuid, net_new(s.entry, candidates), uuids)).entry;
    assert forall|k: int| 0 <= k < candidates.len() implies !is_new(after)(
        #[trigger] candidates[k],
    ) by {
        lemma_taken_in_is_present(s, suuid, candidates, uuids, k);
    }
    lemma_filter_none(candidates, is_new(after));
}

/// The same for the registry as a whole: a second sync that finds the same
/// candidates, with no entry removed in between, leaves the entries and the
/// unread counter of every subscription as the first sync left them,
/// whatever fresh identities it has at hand.
pub proof fn law_sync_is_idempotent(
    ui: RegistryView,
    suuid: Seq<char>,
    candidates: Seq<RssEntryView>,
    first: Seq<Seq<char>>,
    second: Seq<Seq<char>>,
)
    ensures
        ui_after_update_new_entrys(
            ui_after_update_new_entrys(ui, suuid, candidates, first),
            suuid,
            candidates,
            second,
        ) == ui_after_update_new_entrys(ui, suuid, candidates, first),
{
    let i = subscription_index(ui.rss_lists, suuid);
    lemma_first_index(ui.rss_lists, is_subscription(suuid));
    if i < ui.rss_lists.len() {
        let s = ui.rss_lists[i];
        let once = ui_after_update_new_entrys(ui, suuid, candidates, first);
        lemma_first_index_is(once.rss_lists, is_subscription(suuid), i);
        law_second_sync_finds_nothing_new(s, suuid, candidates, first);
        let s1 = once.rss_lists[i];
        let none = adopted(suuid, net_new(s1.entry, candidates), second);
        assert(none =~= Seq::<RssEntryView>::empty());
        assert(none.reverse() + s1.entry =~= s1.entry);
        let twice = ui_after_update_new_entrys(once, suuid, candidates, second);
        assert(twice.rss_lists =~= once.rss_lists);
    }
}

/// The new entries of a subscription are all unread, so its counter grows by
/// their number where it was in step with the entries before.
pub proof fn law_counter_grows_by_the_new_entries(
    s: SubscriptionView,
    suuid: Seq<char>,
    fresh: Seq<RssEntryView>,
    uuids: Seq<Seq<char>>,
)
    requires
        subscription_wf(s),
    ensures
        sub_with_new(s, adopted(suuid, fresh, uuids)).unread_counts == s.unread_counts
            + fresh.len(),
{
    let taken = adopted(suuid, fresh, uuids);
    lemma_count_unread_add(taken.reverse(), s.entry);
    lemma_count_unread_bound(taken.reverse());
}

/// Removing an entry keeps the counters in step with the entries.
pub proof fn lemma_remove_entry_wf(ui: RegistryView, suuid: Seq<char>, uuid: Seq<char>)
    requires
        registry_wf(ui),
        found(ui.rss_lists, is_subscription(suuid)),
        found(ui.rss_lists[subscription_index(ui.rss_lists, suuid)].entry, is_entry(uuid)),
    ensures
        registry_wf(ui_after_remove_entry(ui, suuid, uuid)),
{
    let i = subscription_index(ui.rss_lists, suuid);
    lemma_first_index(ui.rss_lists, is_subscription(suuid));
    let s = ui.rss_lists[i];
    let j = entry_index(s.entry, uuid);
    lemma_first_index(s.entry, is_entry(uuid));
    let counted = uncounted(ui, suuid, uuid);
    lemma_first_index_is(counted.rss_lists, is_subscription(suuid), i);
    lemma_count_unread_remove(s.entry, j);
    assert(subscription_wf(s));
    lemma_wf_after(ui, ui_after_remove_entry(ui, suuid, uuid), i);
}

/// Marking an entry as read keeps the counters in step with the entries.
pub proof fn lemma_set_entry_read_wf(ui: RegistryView, suuid: Seq<char>, uuid: Seq<char>)
    requires
        registry_wf(ui),
        found(ui.rss_lists, is_subscription(suuid)),
        found(ui.rss_lists[subscription_index(ui.rss_lists, suuid)].entry, is_entry(uuid)),
    ensures
        registry_wf(ui_after_set_entry_read(ui, suuid, uuid)),
{
    let i = subscription_index(ui.rss_lists, suuid);
    lemma_first_index(ui.rss_lists, is_subscription(suuid));
    let s = ui.rss_lists[i];
    let j = entry_index(s.entry, uuid);
    lemma_first_index(s.entry, is_entry(uuid));
    let counted = uncounted(ui, suuid, uuid);
    lemma_first_index_is(counted.rss_lists, is_subscription(suuid), i);
    lemma_count_unread_update(s.entry, j, read(s.entry[j]));
    assert(subscription_wf(s));
    lemma_wf_after(ui, ui_after_set_entry_read(ui, suuid, uuid), i);
}

/// The registry after every entry of a subscription was removed.
pub open spec fn ui_after_remove_all(ui: RegistryView, suuid: Seq<char>) -> RegistryView {
    with_entries(with_unread_counts(ui, suuid, 0), suuid, Seq::empty())
}

/// Removing every entry of a subscription keeps the counters in step with
/// the entries.
pub proof fn lemma_remove_all_wf(ui: RegistryView, suuid: Seq<char>)
    requires
        registry_wf(ui),
        found(ui.rss_lists, is_subscription(suuid)),
    ensures
        registry_wf(ui_after_remove_all(ui, suuid)),
{
    let i = subscription_index(ui.rss_lists, suuid);
    lemma_first_index(ui.rss_lists, is_subscription(suuid));
    let reset = with_unread_counts(ui, suuid, 0);
    lemma_first_index_is(reset.rss_lists, is_subscription(suuid), i);
    assert(Seq::<RssEntryView>::empty().filter(is_unread()) =~= Seq::<RssEntryView>::empty());
    lemma_wf_after(ui, ui_after_remove_all(ui, suuid), i);
}

/// Taking in what a sync found keeps the counters in step with the entries.
pub proof fn lemma_update_new_entrys_wf(
    ui: RegistryView,
    suuid: Seq<char>,
    candidates: Seq<RssEntryView>,
    uuids: Seq<Seq<char>>,
)
    requires
        registry_wf(ui),
    ensures
        registry_wf(ui_after_update_new_entrys(ui, suuid, candidates, uuids)),
{
    let i = subscription_index(ui.rss_lists, suuid);
    lemma_first_index(ui.rss_lists, is_subscription(suuid));
    if i < ui.rss_lists.len() {
        lemma_wf_after(ui, ui_after_update_new_entrys(ui, suuid, candidates, uuids), i);
    }
}

/// What changes the entries of a subscription.
pub enum Change {
    /// A sync found candidates; those that are new get the identities.
    TakeIn { suuid: Seq<char>, candidates: Seq<RssEntryView>, uuids: Seq<Seq<char>> },
    /// An entry is marked as read.
    MarkRead { suuid: Seq<char>, uuid: Seq<char> },
    /// An entry is removed.
    Remove { suuid: Seq<char>, uuid: Seq<char> },
    /// Every entry of a subscription is removed.
    RemoveAll { suuid: Seq<char> },
}

/// Whether the registry holds what a change is about: the subscription, and
/// the entry where the change names one.
pub open spec fn concerns(ui: RegistryView, suuid: Seq<char>, uuid: Option<Seq<char>>) -> bool {
    let i = subscription_index(ui.rss_lists, suuid);
    &&& i < ui.rss_lists.len()
    &&& match uuid {
        Some(uuid) => found(ui.rss_lists[i].entry, is_entry(uuid)),
        None => true,
    }
}

/// The registry after a change. A change that is about nothing that the
/// registry holds leaves it as it is.
pub open spec fn changed(ui: RegistryView, change: Change) -> RegistryView {
    match change {
        Change::TakeIn { suuid, candidates, uuids } => ui_after_update_new_entrys(
            ui,
            suuid,
            candidates,
            uuids,
        ),
        Change::MarkRead { suuid, uuid } => if concerns(ui, suuid, Some(uuid)) {
            ui_after_set_entry_read(ui, suuid, uuid)
        } else {
            ui
        },
        Change::Remove { suuid, uuid } => if concerns(ui, suuid, Some(uuid)) {
            ui_after_remove_entry(ui, suuid, uuid)
        } else {
            ui
        },
        Change::RemoveAll { suuid } => if concerns(ui, suuid, None) {
            ui_after_remove_all(ui, suuid)
        } else {
            ui
        },
    }
}

/// The registry after a series of changes.
pub open spec fn changed_by_all(ui: RegistryView, changes: Seq<Change>) -> RegistryView
    decreases changes.len(),
{
    if changes.len() == 0 {
        ui
    } else {
        changed(changed_by_all(ui, changes.drop_last()), changes.last())
    }
}

/// Whatever series of syncs, readings and removals a registry goes through:
/// where every unread counter said how many entries of its subscription
/// were unread before, every counter says so after.
pub proof fn law_unread_counters_stay_in_step(ui: RegistryView, changes: Seq<Change>)
    requires
        registry_wf(ui),
    ensures
        registry_wf(changed_by_all(ui, changes)),
    decreases changes.len(),
{
    if changes.len() > 0 {
        law_unread_counters_stay_in_step(ui, changes.drop_last());
        let before = changed_by_all(ui, changes.drop_last());
        match changes.last() {
            Change::TakeIn { suuid, candidates, uuids } => {
                lemma_update_new_entrys_wf(before, suuid, candidates, uuids);
            },
            Change::MarkRead { suuid, uuid } => {
                if concerns(before, suuid, Some(uuid)) {
                    lemma_set_entry_read_wf(before, suuid, uuid);
                }
            },
            Change::Remove { suuid, uuid } => {
                if concerns(before, suuid, Some(uuid)) {
                    lemma_remove_entry_wf(before, suuid, uuid);
                }
            },
            Change::RemoveAll { suuid } => {
                if concerns(before, suuid, None) {
                    lemma_remove_all_wf(before, suuid);
                }
            },
        }
    }
}

} // verus!
