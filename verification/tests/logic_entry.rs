use rssbox::db::entry::{insert, select, select_all, RssEntry};
use rssbox::db::rss::{feed_format_default, RssConfig};
use rssbox::db::trash::{is_exist, row_count};
use rssbox::db::{drop_table, init, Database, DbError};
use rssbox::logic::entry::{
    add_new_entrys, favorite_entry, get_from_db, remove_all_entrys, remove_all_favorite_entrys,
    remove_entry, remove_favorite_entry, set_entry_read,
};
use rssbox::logic::rss::{add_rss, rss_entrys_unread_counts};
use rssbox::logic::store::{Registry, FAVORITE_UUID};
use rssbox::logic::ActionError;
use rssbox::util::crypto::md5_hex;

fn config(uuid: &str, name: &str) -> RssConfig {
    RssConfig {
        uuid: uuid.to_string(),
        name: name.to_string(),
        url: format!("http://{name}.example"),
        icon_index: 0,
        use_http_proxy: false,
        use_socks5_proxy: false,
        is_favorite: false,
        update_time: String::new(),
        feed_format: feed_format_default(),
    }
}

fn entry(uuid: &str, url: &str, is_read: bool) -> RssEntry {
    RssEntry {
        suuid: "s".to_string(),
        uuid: uuid.to_string(),
        url: url.to_string(),
        title: url.to_string(),
        is_read,
        ..Default::default()
    }
}

/// A subscription `s` with the entries c (unread), b (read), a (unread), the latest first.
fn ready() -> (Registry, Database) {
    let mut db = Database::new();
    init(&mut db);
    let mut ui = Registry::new();
    rssbox::ui_after(&mut ui, &mut db, false);
    add_rss(&mut ui, &mut db, config("s", "S")).unwrap();
    add_new_entrys(
        &mut ui,
        &mut db,
        "s",
        vec![entry("a", "ua", false), entry("b", "ub", true), entry("c", "uc", false)],
    );
    (ui, db)
}

fn in_step(ui: &Registry) -> bool {
    ui.rss_lists.iter().all(|r| r.unread_counts == rss_entrys_unread_counts(&r.entry))
}

#[test]
fn removing_an_unread_entry_lowers_the_counter() {
    let (mut ui, mut db) = ready();
    assert_eq!(ui.rss_lists[0].unread_counts, 2);
    let flag = ui.rss_unread_counts_flag;
    assert_eq!(remove_entry(&mut ui, &mut db, "s", "a"), Ok(()));
    assert_eq!(ui.rss_lists[0].unread_counts, 1);
    assert_eq!(ui.rss_unread_counts_flag, !flag);
    assert_eq!(ui.rss_lists[0].entry, vec![entry("c", "uc", false), entry("b", "ub", true)]);
    assert_eq!(select(&db, "s", "a"), Err(DbError::NotFound));
    assert!(is_exist(&db, &md5_hex("ua")).is_ok());
    assert!(in_step(&ui));
}

#[test]
fn removing_a_read_entry_leaves_the_counter() {
    let (mut ui, mut db) = ready();
    let flag = ui.rss_unread_counts_flag;
    assert_eq!(remove_entry(&mut ui, &mut db, "s", "b"), Ok(()));
    assert_eq!(ui.rss_lists[0].unread_counts, 2);
    assert_eq!(ui.rss_unread_counts_flag, flag);
    assert!(is_exist(&db, &md5_hex("ub")).is_ok());
    assert!(in_step(&ui));
}

#[test]
fn removing_what_is_not_there_changes_nothing() {
    let (mut ui, mut db) = ready();
    assert_eq!(
        remove_entry(&mut ui, &mut db, "nobody", "a"),
        Err(ActionError::NoSuchSubscription)
    );
    assert_eq!(remove_entry(&mut ui, &mut db, "s", "zzz"), Err(ActionError::NoSuchEntry));
    assert_eq!(ui.rss_lists[0].entry.len(), 3);
    assert_eq!(row_count(&db), Ok(0));
}

#[test]
fn removing_without_the_table_is_refused_and_changes_nothing() {
    let (mut ui, mut db) = ready();
    drop_table(&mut db, "entry_s").unwrap();
    assert_eq!(
        remove_entry(&mut ui, &mut db, "s", "a"),
        Err(ActionError::Store(DbError::NoSuchTable))
    );
    assert_eq!(ui.rss_lists[0].entry.len(), 3);
    assert_eq!(ui.rss_lists[0].unread_counts, 2);
    assert_eq!(row_count(&db), Ok(0));
    assert_eq!(
        set_entry_read(&mut ui, &mut db, "s", "a"),
        Err(ActionError::Store(DbError::NoSuchTable))
    );
    assert!(!ui.rss_lists[0].entry[2].is_read);
    assert_eq!(
        remove_all_entrys(&mut ui, &mut db, "s"),
        Err(ActionError::Store(DbError::NoSuchTable))
    );
    assert_eq!(ui.rss_lists[0].entry.len(), 3);
}

#[test]
fn an_entry_that_the_store_never_held_can_still_be_removed() {
    let (mut ui, mut db) = ready();
    rssbox::db::entry::delete(&mut db, "s", "a").unwrap();
    assert_eq!(remove_entry(&mut ui, &mut db, "s", "a"), Ok(()));
    assert_eq!(ui.rss_lists[0].entry.len(), 2);
    assert!(is_exist(&db, &md5_hex("ua")).is_ok());
}

#[test]
fn marking_read_lowers_the_counter_once() {
    let (mut ui, mut db) = ready();
    assert_eq!(set_entry_read(&mut ui, &mut db, "s", "a"), Ok(()));
    assert_eq!(ui.rss_lists[0].unread_counts, 1);
    assert!(ui.rss_lists[0].entry[2].is_read);
    assert!(select(&db, "s", "a").unwrap().is_read);
    assert!(in_step(&ui));
    assert_eq!(set_entry_read(&mut ui, &mut db, "s", "a"), Ok(()));
    assert_eq!(ui.rss_lists[0].unread_counts, 1);
    assert_eq!(set_entry_read(&mut ui, &mut db, "s", "b"), Ok(()));
    assert_eq!(ui.rss_lists[0].unread_counts, 1);
    assert_eq!(set_entry_read(&mut ui, &mut db, "s", "c"), Ok(()));
    assert_eq!(ui.rss_lists[0].unread_counts, 0);
    assert!(in_step(&ui));
    assert_eq!(set_entry_read(&mut ui, &mut db, "s", "nope"), Err(ActionError::NoSuchEntry));
    assert_eq!(
        set_entry_read(&mut ui, &mut db, "nobody", "a"),
        Err(ActionError::NoSuchSubscription)
    );
}

#[test]
fn the_counter_never_goes_below_zero() {
    let (mut ui, mut db) = ready();
    ui.rss_lists[0].unread_counts = 0;
    assert_eq!(set_entry_read(&mut ui, &mut db, "s", "a"), Ok(()));
    assert_eq!(ui.rss_lists[0].unread_counts, 0);
    assert_eq!(remove_entry(&mut ui, &mut db, "s", "c"), Ok(()));
    assert_eq!(ui.rss_lists[0].unread_counts, 0);
}

#[test]
fn removing_every_entry_resets_the_counter_and_fills_the_trash() {
    let (mut ui, mut db) = ready();
    assert_eq!(remove_all_entrys(&mut ui, &mut db, "s"), Ok(()));
    assert_eq!(ui.rss_lists[0].unread_counts, 0);
    assert!(ui.rss_lists[0].entry.is_empty());
    assert_eq!(select_all(&db, "s"), Ok(vec![]));
    assert_eq!(row_count(&db), Ok(3));
    for url in ["ua", "ub", "uc"] {
        assert!(is_exist(&db, &md5_hex(url)).is_ok());
    }
    assert!(in_step(&ui));
    assert_eq!(remove_all_entrys(&mut ui, &mut db, "s"), Ok(()));
    assert_eq!(remove_all_entrys(&mut ui, &mut db, ""), Err(ActionError::NoSuchSubscription));
    assert_eq!(
        remove_all_entrys(&mut ui, &mut db, "nobody"),
        Err(ActionError::NoSuchSubscription)
    );
}

#[test]
fn a_favorite_is_a_copy_under_the_same_identity() {
    let (mut ui, mut db) = ready();
    assert_eq!(favorite_entry(&mut ui, &mut db, "s", "a"), Ok(()));
    assert_eq!(favorite_entry(&mut ui, &mut db, "s", "c"), Ok(()));
    assert_eq!(
        ui.rss_favorite_entrys,
        vec![entry("c", "uc", false), entry("a", "ua", false)]
    );
    assert_eq!(
        select_all(&db, FAVORITE_UUID).unwrap(),
        vec![entry("a", "ua", false), entry("c", "uc", false)]
    );
    assert_eq!(ui.rss_lists[0].entry.len(), 3);
    assert_eq!(ui.rss_lists[0].unread_counts, 2);
}

#[test]
fn an_entry_is_favorited_once() {
    let (mut ui, mut db) = ready();
    assert_eq!(favorite_entry(&mut ui, &mut db, "s", "a"), Ok(()));
    assert_eq!(favorite_entry(&mut ui, &mut db, "s", "a"), Err(ActionError::AlreadyFavorited));
    assert_eq!(ui.rss_favorite_entrys.len(), 1);
    assert_eq!(select_all(&db, FAVORITE_UUID).unwrap().len(), 1);
    assert_eq!(favorite_entry(&mut ui, &mut db, "s", "x"), Err(ActionError::NoSuchEntry));
    assert_eq!(
        favorite_entry(&mut ui, &mut db, "nobody", "a"),
        Err(ActionError::NoSuchSubscription)
    );
}

#[test]
fn an_entry_that_the_store_holds_as_a_favorite_is_not_stored_again() {
    let (mut ui, mut db) = ready();
    insert(&mut db, FAVORITE_UUID, entry("b", "ub", true)).unwrap();
    assert_eq!(favorite_entry(&mut ui, &mut db, "s", "b"), Err(ActionError::AlreadyFavorited));
    assert!(ui.rss_favorite_entrys.is_empty());
    assert_eq!(select_all(&db, FAVORITE_UUID).unwrap().len(), 1);
}

#[test]
fn a_favorite_outlives_its_entry() {
    let (mut ui, mut db) = ready();
    favorite_entry(&mut ui, &mut db, "s", "a").unwrap();
    remove_all_entrys(&mut ui, &mut db, "s").unwrap();
    assert_eq!(ui.rss_favorite_entrys, vec![entry("a", "ua", false)]);
    rssbox::logic::rss::remove_rss(&mut ui, &mut db, "s").unwrap();
    assert_eq!(ui.rss_favorite_entrys, vec![entry("a", "ua", false)]);
    assert_eq!(select_all(&db, FAVORITE_UUID).unwrap(), vec![entry("a", "ua", false)]);
}

#[test]
fn favorites_are_removed_one_by_one_or_all_at_once() {
    let (mut ui, mut db) = ready();
    favorite_entry(&mut ui, &mut db, "s", "a").unwrap();
    favorite_entry(&mut ui, &mut db, "s", "b").unwrap();
    favorite_entry(&mut ui, &mut db, "s", "c").unwrap();
    assert_eq!(remove_favorite_entry(&mut ui, &mut db, "b"), Ok(()));
    assert_eq!(
        ui.rss_favorite_entrys,
        vec![entry("c", "uc", false), entry("a", "ua", false)]
    );
    assert_eq!(select_all(&db, FAVORITE_UUID).unwrap().len(), 2);
    assert_eq!(remove_favorite_entry(&mut ui, &mut db, "b"), Ok(()));
    assert_eq!(ui.rss_favorite_entrys.len(), 2);
    assert_eq!(row_count(&db), Ok(0));
    assert_eq!(remove_all_favorite_entrys(&mut ui, &mut db), Ok(()));
    assert!(ui.rss_favorite_entrys.is_empty());
    assert_eq!(select_all(&db, FAVORITE_UUID), Ok(vec![]));

    drop_table(&mut db, "entry_favorite_uuid").unwrap();
    assert_eq!(
        remove_all_favorite_entrys(&mut ui, &mut db),
        Err(ActionError::Store(DbError::NoSuchTable))
    );
    assert_eq!(
        remove_favorite_entry(&mut ui, &mut db, "a"),
        Err(ActionError::Store(DbError::NoSuchTable))
    );
    assert_eq!(
        favorite_entry(&mut ui, &mut db, "s", "a"),
        Err(ActionError::Store(DbError::NoSuchTable))
    );
}

#[test]
fn get_from_db_shows_the_latest_row_first() {
    let (_, db) = ready();
    assert_eq!(
        get_from_db(&db, "s"),
        vec![entry("c", "uc", false), entry("b", "ub", true), entry("a", "ua", false)]
    );
    assert_eq!(get_from_db(&db, "nobody"), vec![]);
}

#[test]
fn the_counters_stay_in_step_through_a_series_of_changes() {
    let (mut ui, mut db) = ready();
    add_rss(&mut ui, &mut db, config("t", "T")).unwrap();
    assert!(in_step(&ui));
    add_new_entrys(&mut ui, &mut db, "t", vec![entry("x", "ux", false), entry("y", "uy", false)]);
    assert!(in_step(&ui));
    set_entry_read(&mut ui, &mut db, "t", "x").unwrap();
    assert!(in_step(&ui));
    remove_entry(&mut ui, &mut db, "s", "c").unwrap();
    assert!(in_step(&ui));
    set_entry_read(&mut ui, &mut db, "s", "b").unwrap();
    assert!(in_step(&ui));
    add_new_entrys(&mut ui, &mut db, "s", vec![entry("d", "ud", false)]);
    assert!(in_step(&ui));
    remove_all_entrys(&mut ui, &mut db, "t").unwrap();
    assert!(in_step(&ui));
    remove_entry(&mut ui, &mut db, "s", "d").unwrap();
    assert!(in_step(&ui));
    let s = ui.rss_lists.iter().find(|r| r.config.uuid == "s").unwrap();
    assert_eq!(s.unread_counts, 1);
    let t = ui.rss_lists.iter().find(|r| r.config.uuid == "t").unwrap();
    assert_eq!(t.unread_counts, 0);
}
