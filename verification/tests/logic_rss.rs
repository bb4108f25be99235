use rssbox::db::entry::{insert, select_all, RssEntry};
use rssbox::db::rss::{feed_format_default, select, RssConfig};
use rssbox::db::trash::{is_exist, row_count};
use rssbox::db::{drop_table, init, is_table_exist, Database, DbError};
use rssbox::logic::entry::add_new_entrys;
use rssbox::logic::rss::{
    add_rss, decease_unread_counts, exist_rss, get_rss_config, get_rss_config_to_ui,
    get_rss_configs, init_rss, init_rss_configs, is_exist_url, name_rss, new_rss,
    notify_ui_update_unread_counts, remove_all_rss, remove_rss, reset_unread_counts,
    rss_config_sort, rss_config_sort_fn, rss_entrys, switch_rss, toggle_rss_favorite,
    unread_counts_rss, update_rss, update_rss_config_from_ui, update_time_rss, SyncItem,
};
use rssbox::logic::store::{Registry, Subscription, EMPTY_UUID};
use rssbox::logic::ActionError;
use rssbox::util::crypto::md5_hex;
use std::cmp::Ordering;

fn config(uuid: &str, name: &str) -> RssConfig {
    RssConfig {
        uuid: uuid.to_string(),
        name: name.to_string(),
        url: format!("http://{uuid}.example"),
        icon_index: 0,
        use_http_proxy: false,
        use_socks5_proxy: false,
        is_favorite: false,
        update_time: String::new(),
        feed_format: feed_format_default(),
    }
}

fn entry(uuid: &str, url: &str, is_read: bool) -> RssEntry {
    RssEntry {
        uuid: uuid.to_string(),
        url: url.to_string(),
        title: url.to_string(),
        is_read,
        ..Default::default()
    }
}

fn ready() -> (Registry, Database) {
    let mut db = Database::new();
    init(&mut db);
    let mut ui = Registry::new();
    rssbox::ui_after(&mut ui, &mut db, false);
    (ui, db)
}

fn names(ui: &Registry) -> Vec<String> {
    ui.rss_lists.iter().map(|r| r.config.name.clone()).collect()
}

#[test]
fn a_new_registry_shows_nothing() {
    let ui = Registry::new();
    assert!(ui.rss_lists.is_empty());
    assert!(ui.rss_favorite_entrys.is_empty());
    assert_eq!(ui.current_rss_uuid, EMPTY_UUID);
    assert!(rss_entrys(&ui).is_none());
}

#[test]
fn new_rss_gets_a_fresh_identity_a_row_and_a_table() {
    let (mut ui, mut db) = ready();
    let uuid = new_rss(&mut ui, &mut db, config("ignored", "First")).unwrap();
    assert_eq!(uuid.len(), 36);
    assert_eq!(ui.rss_lists.len(), 1);
    assert_eq!(ui.rss_lists[0].config.uuid, uuid);
    assert_eq!(ui.rss_lists[0].config.name, "First");
    assert_eq!(ui.rss_lists[0].unread_counts, 0);
    assert!(ui.rss_lists[0].entry.is_empty());
    assert_eq!(ui.current_rss_uuid, uuid);
    assert_eq!(select(&db, &uuid).unwrap().name, "First");
    assert_eq!(select_all(&db, &uuid), Ok(vec![]));
    let mut other = config("x", "Second");
    other.url = "http://other.example".to_string();
    let second = new_rss(&mut ui, &mut db, other).unwrap();
    assert_ne!(second, uuid);
    assert_eq!(ui.current_rss_uuid, uuid);
}

#[test]
fn an_address_is_subscribed_to_once() {
    let (mut ui, mut db) = ready();
    add_rss(&mut ui, &mut db, config("a", "A")).unwrap();
    let mut same = config("b", "B");
    same.url = "http://a.example".to_string();
    assert_eq!(add_rss(&mut ui, &mut db, same.clone()), Err(ActionError::DuplicateUrl));
    assert_eq!(new_rss(&mut ui, &mut db, same), Err(ActionError::DuplicateUrl));
    assert_eq!(ui.rss_lists.len(), 1);
    assert_eq!(db.rss.as_ref().unwrap().len(), 1);
    assert!(is_table_exist(&db, "entry_b").is_err());
    assert!(is_exist_url(&ui, "http://a.example"));
    assert!(!is_exist_url(&ui, "http://b.example"));
    assert!(!is_exist_url(&ui, ""));
}

#[test]
fn an_identity_that_the_store_holds_is_refused() {
    let (mut ui, mut db) = ready();
    rssbox::db::rss::insert(&mut db, config("a", "Old")).unwrap();
    let mut new = config("a", "New");
    new.url = "http://new.example".to_string();
    assert_eq!(add_rss(&mut ui, &mut db, new), Err(ActionError::Store(DbError::Duplicate)));
    assert!(ui.rss_lists.is_empty());
    let mut no_table = Database::new();
    assert_eq!(
        add_rss(&mut ui, &mut no_table, config("b", "B")),
        Err(ActionError::Store(DbError::NoSuchTable))
    );
    assert!(ui.rss_lists.is_empty());
    assert!(no_table.entry.is_empty());
}

#[test]
fn subscriptions_are_shown_favorites_first_and_by_name() {
    let (mut ui, mut db) = ready();
    for (uuid, name, favorite) in [
        ("1", "delta", false),
        ("2", "Alpha", false),
        ("3", "charlie", true),
        ("4", "Bravo", true),
        ("5", "alpha", false),
    ] {
        let mut c = config(uuid, name);
        c.is_favorite = favorite;
        add_rss(&mut ui, &mut db, c).unwrap();
    }
    assert_eq!(names(&ui), vec!["Bravo", "charlie", "Alpha", "alpha", "delta"]);
    assert_eq!(ui.current_rss_uuid, "1");
    assert_eq!(toggle_rss_favorite(&mut ui, &mut db, "1"), Ok(()));
    assert_eq!(names(&ui), vec!["Bravo", "charlie", "delta", "Alpha", "alpha"]);
    assert!(select(&db, "1").unwrap().is_favorite);
    assert_eq!(toggle_rss_favorite(&mut ui, &mut db, "3"), Ok(()));
    assert_eq!(names(&ui), vec!["Bravo", "delta", "Alpha", "alpha", "charlie"]);
    assert!(!select(&db, "3").unwrap().is_favorite);
    assert_eq!(
        toggle_rss_favorite(&mut ui, &mut db, "nobody"),
        Err(ActionError::NoSuchSubscription)
    );
}

#[test]
fn sort_fn_compares_favorites_then_names() {
    let item = |name: &str, favorite: bool| {
        let mut c = config(name, name);
        c.is_favorite = favorite;
        Subscription { config: c, unread_counts: 0, is_update_failed: false, entry: vec![] }
    };
    assert_eq!(rss_config_sort_fn(&item("b", true), &item("a", false)), Ordering::Less);
    assert_eq!(rss_config_sort_fn(&item("a", false), &item("b", true)), Ordering::Greater);
    assert_eq!(rss_config_sort_fn(&item("a", true), &item("B", true)), Ordering::Less);
    assert_eq!(rss_config_sort_fn(&item("b", false), &item("A", false)), Ordering::Greater);
    assert_eq!(rss_config_sort_fn(&item("Same", false), &item("same", false)), Ordering::Equal);
    assert_eq!(rss_config_sort_fn(&item("ab", false), &item("abc", false)), Ordering::Less);
}

#[test]
fn sort_keeps_the_order_of_equal_names() {
    let mut ui = Registry::new();
    for (uuid, name) in [("1", "b"), ("2", "A"), ("3", "a"), ("4", "B"), ("5", "a")] {
        ui.rss_lists.push(Subscription {
            config: config(uuid, name),
            unread_counts: 0,
            is_update_failed: false,
            entry: vec![],
        });
    }
    rss_config_sort(&mut ui);
    let uuids: Vec<_> = ui.rss_lists.iter().map(|r| r.config.uuid.as_str()).collect();
    assert_eq!(uuids, vec!["2", "3", "5", "1", "4"]);
}

#[test]
fn sort_orders_names_as_std_orders_strings() {
    let names = [
        "zebra", "Zoo", "éclair", "Eclair", "", "a", "ab", "abc", "日本", "日本語", "ß", "ss", "Ωmega",
        "omega", "1", "10", "2", " space", "émile", "z",
    ];
    let mut ui = Registry::new();
    for (i, name) in names.iter().enumerate() {
        ui.rss_lists.push(Subscription {
            config: config(&i.to_string(), name),
            unread_counts: 0,
            is_update_failed: false,
            entry: vec![],
        });
    }
    rss_config_sort(&mut ui);
    let mut expected: Vec<String> = names.iter().map(|n| n.to_string()).collect();
    expected.sort_by(|a, b| a.to_lowercase().cmp(&b.to_lowercase()));
    assert_eq!(self::names(&ui), expected);
}

#[test]
fn editing_changes_what_the_user_edits_and_nothing_else() {
    let (mut ui, mut db) = ready();
    add_rss(&mut ui, &mut db, config("a", "A")).unwrap();
    add_rss(&mut ui, &mut db, config("b", "B")).unwrap();
    add_new_entrys(&mut ui, &mut db, "a", vec![entry("e", "ue", false)]);
    let mut edit = config("other-id", "Z");
    edit.url = "http://z.example".to_string();
    edit.use_socks5_proxy = true;
    edit.icon_index = 7;
    edit.feed_format = "atom".to_string();
    edit.update_time = "12:00:00".to_string();
    assert_eq!(update_rss(&mut ui, &mut db, "a", edit), Ok(()));
    assert_eq!(names(&ui), vec!["B", "Z"]);
    let a = get_rss_config(&ui, "a").unwrap();
    assert_eq!(a.config.uuid, "a");
    assert_eq!(a.config.url, "http://z.example");
    assert!(a.config.use_socks5_proxy);
    assert_eq!(a.config.icon_index, 7);
    assert_eq!(a.config.feed_format, "atom");
    assert_eq!(a.config.update_time, "");
    assert_eq!(a.unread_counts, 1);
    assert_eq!(a.entry.len(), 1);
    assert_eq!(select(&db, "a").unwrap(), a.config);
    assert_eq!(SyncItem::from(a).proxy_type, "Socks5");
}

#[test]
fn editing_to_the_address_of_another_subscription_is_refused() {
    let (mut ui, mut db) = ready();
    add_rss(&mut ui, &mut db, config("a", "A")).unwrap();
    add_rss(&mut ui, &mut db, config("b", "B")).unwrap();
    let mut edit = config("a", "A2");
    edit.url = "http://b.example".to_string();
    assert_eq!(update_rss(&mut ui, &mut db, "a", edit), Err(ActionError::DuplicateUrl));
    assert_eq!(names(&ui), vec!["A", "B"]);
    let mut own = config("a", "A3");
    own.url = "http://a.example".to_string();
    assert_eq!(update_rss(&mut ui, &mut db, "a", own), Ok(()));
    assert_eq!(names(&ui), vec!["A3", "B"]);
    assert_eq!(
        update_rss(&mut ui, &mut db, "nobody", config("n", "N")),
        Err(ActionError::NoSuchSubscription)
    );
}

#[test]
fn update_rss_config_from_ui_copies_seven_parts() {
    let mut rss = Subscription {
        config: config("keep", "old"),
        unread_counts: 3,
        is_update_failed: true,
        entry: vec![entry("e", "u", false)],
    };
    rss.config.update_time = "time".to_string();
    let mut by = config("drop", "new");
    by.is_favorite = true;
    by.use_http_proxy = true;
    update_rss_config_from_ui(&mut rss, by);
    assert_eq!(rss.config.uuid, "keep");
    assert_eq!(rss.config.update_time, "time");
    assert_eq!(rss.config.name, "new");
    assert_eq!(rss.config.url, "http://drop.example");
    assert!(rss.config.is_favorite);
    assert!(rss.config.use_http_proxy);
    assert_eq!(rss.unread_counts, 3);
    assert_eq!(SyncItem::from(&rss).proxy_type, "Http");
}

#[test]
fn removing_a_subscription_takes_its_rows_and_fills_the_trash() {
    let (mut ui, mut db) = ready();
    add_rss(&mut ui, &mut db, config("a", "A")).unwrap();
    add_rss(&mut ui, &mut db, config("b", "B")).unwrap();
    add_new_entrys(&mut ui, &mut db, "a", vec![entry("1", "u1", false), entry("2", "u2", true)]);
    add_new_entrys(&mut ui, &mut db, "b", vec![entry("3", "u3", false)]);
    assert_eq!(ui.current_rss_uuid, "a");
    assert_eq!(remove_rss(&mut ui, &mut db, "a"), Ok(()));
    assert_eq!(names(&ui), vec!["B"]);
    assert_eq!(ui.current_rss_uuid, "b");
    assert_eq!(select(&db, "a"), Err(DbError::NotFound));
    assert!(is_table_exist(&db, "entry_a").is_err());
    assert!(is_exist(&db, &md5_hex("u1")).is_ok());
    assert!(is_exist(&db, &md5_hex("u2")).is_ok());
    assert!(is_exist(&db, &md5_hex("u3")).is_err());
    assert_eq!(select_all(&db, "b").unwrap().len(), 1);
    assert_eq!(remove_rss(&mut ui, &mut db, "a"), Err(ActionError::NoSuchSubscription));
    assert_eq!(remove_rss(&mut ui, &mut db, "b"), Ok(()));
    assert_eq!(ui.current_rss_uuid, EMPTY_UUID);
    assert_eq!(row_count(&db), Ok(3));
}

#[test]
fn removing_a_subscription_that_is_not_shown_keeps_what_is_shown() {
    let (mut ui, mut db) = ready();
    add_rss(&mut ui, &mut db, config("a", "A")).unwrap();
    add_rss(&mut ui, &mut db, config("b", "B")).unwrap();
    let flag = ui.rss_unread_counts_flag;
    assert_eq!(remove_rss(&mut ui, &mut db, "b"), Ok(()));
    assert_eq!(ui.current_rss_uuid, "a");
    assert_eq!(ui.rss_unread_counts_flag, flag);
}

#[test]
fn removing_without_the_table_of_subscriptions_is_refused() {
    let (mut ui, mut db) = ready();
    add_rss(&mut ui, &mut db, config("a", "A")).unwrap();
    drop_table(&mut db, "rss").unwrap();
    assert_eq!(remove_rss(&mut ui, &mut db, "a"), Err(ActionError::Store(DbError::NoSuchTable)));
    assert_eq!(names(&ui), vec!["A"]);
    assert!(is_table_exist(&db, "entry_a").is_ok());
    assert_eq!(
        toggle_rss_favorite(&mut ui, &mut db, "a"),
        Err(ActionError::Store(DbError::NoSuchTable))
    );
    assert!(!ui.rss_lists[0].config.is_favorite);
}

#[test]
fn remove_all_rss_removes_each() {
    let (mut ui, mut db) = ready();
    add_rss(&mut ui, &mut db, config("a", "A")).unwrap();
    add_rss(&mut ui, &mut db, config("b", "B")).unwrap();
    add_new_entrys(&mut ui, &mut db, "b", vec![entry("3", "u3", false)]);
    remove_all_rss(&mut ui, &mut db);
    assert!(ui.rss_lists.is_empty());
    assert_eq!(ui.current_rss_uuid, EMPTY_UUID);
    assert_eq!(db.rss, Some(vec![]));
    assert!(is_table_exist(&db, "entry_a").is_err());
    assert!(is_table_exist(&db, "entry_b").is_err());
    assert!(is_exist(&db, &md5_hex("u3")).is_ok());
}

#[test]
fn switching_shows_another_subscription() {
    let (mut ui, mut db) = ready();
    switch_rss(&mut ui, "a");
    assert_eq!(ui.current_rss_uuid, EMPTY_UUID);
    add_rss(&mut ui, &mut db, config("a", "A")).unwrap();
    add_rss(&mut ui, &mut db, config("b", "B")).unwrap();
    add_new_entrys(&mut ui, &mut db, "b", vec![entry("3", "u3", false)]);
    switch_rss(&mut ui, "b");
    assert_eq!(ui.current_rss_uuid, "b");
    assert_eq!(rss_entrys(&ui).unwrap().len(), 1);
    switch_rss(&mut ui, "nobody");
    assert_eq!(ui.current_rss_uuid, "b");
    switch_rss(&mut ui, EMPTY_UUID);
    assert_eq!(ui.current_rss_uuid, "a");
    assert_eq!(rss_entrys(&ui).unwrap().len(), 0);
}

#[test]
fn what_is_known_of_a_subscription() {
    let (mut ui, mut db) = ready();
    add_rss(&mut ui, &mut db, config("a", "A")).unwrap();
    add_new_entrys(&mut ui, &mut db, "a", vec![entry("1", "u1", false)]);
    assert!(exist_rss(&ui, "a"));
    assert!(!exist_rss(&ui, "b"));
    assert_eq!(name_rss(&ui, "a"), "A");
    assert_eq!(name_rss(&ui, "b"), "");
    assert_eq!(unread_counts_rss(&ui, "a"), 1);
    assert_eq!(unread_counts_rss(&ui, "b"), 0);
    assert_eq!(update_time_rss(&ui, "a"), "");
    assert!(get_rss_config(&ui, "b").is_none());
    assert_eq!(get_rss_configs(&ui), vec![config("a", "A")]);
    let shown = get_rss_config_to_ui(&ui, "a");
    assert_eq!(shown.uuid, "");
    assert_eq!(shown.name, "A");
    assert_eq!(shown.url, "http://a.example");
    assert_eq!(shown.feed_format, "AUTO");
    let none = get_rss_config_to_ui(&ui, "b");
    assert_eq!(none.name, "");
    assert_eq!(none.feed_format, "");
}

#[test]
fn the_counter_alone_can_be_lowered_and_reset() {
    let (mut ui, mut db) = ready();
    add_rss(&mut ui, &mut db, config("a", "A")).unwrap();
    ui.rss_lists[0].unread_counts = 2;
    let flag = ui.rss_unread_counts_flag;
    decease_unread_counts(&mut ui, "a");
    assert_eq!(ui.rss_lists[0].unread_counts, 1);
    assert_eq!(ui.rss_unread_counts_flag, !flag);
    decease_unread_counts(&mut ui, "a");
    decease_unread_counts(&mut ui, "a");
    assert_eq!(ui.rss_lists[0].unread_counts, 0);
    decease_unread_counts(&mut ui, "nobody");
    ui.rss_lists[0].unread_counts = 5;
    reset_unread_counts(&mut ui, "a");
    assert_eq!(ui.rss_lists[0].unread_counts, 0);
    let flag = ui.rss_unread_counts_flag;
    reset_unread_counts(&mut ui, "nobody");
    assert_eq!(ui.rss_unread_counts_flag, flag);
    notify_ui_update_unread_counts(&mut ui);
    assert_eq!(ui.rss_unread_counts_flag, !flag);
}

#[test]
fn init_rss_takes_the_subscriptions_from_the_store() {
    let mut db = Database::new();
    init(&mut db);
    let mut b = config("b", "Beta");
    b.is_favorite = true;
    rssbox::db::rss::insert(&mut db, config("a", "Alpha")).unwrap();
    rssbox::db::rss::insert(&mut db, b).unwrap();
    rssbox::db::rss::insert(&mut db, config("c", "Gamma")).unwrap();
    rssbox::db::entry::new(&mut db, "a").unwrap();
    rssbox::db::entry::new(&mut db, "b").unwrap();
    insert(&mut db, "a", entry("1", "u1", true)).unwrap();
    insert(&mut db, "a", entry("2", "u2", false)).unwrap();
    insert(&mut db, "a", entry("3", "u3", false)).unwrap();

    let mut ui = Registry::new();
    assert!(init_rss(&mut ui, &db, true));
    assert_eq!(names(&ui), vec!["Beta", "Alpha", "Gamma"]);
    assert_eq!(ui.current_rss_uuid, "b");
    let a = get_rss_config(&ui, "a").unwrap();
    assert_eq!(a.unread_counts, 2);
    assert_eq!(
        a.entry,
        vec![entry("3", "u3", false), entry("2", "u2", false), entry("1", "u1", true)]
    );
    assert!(get_rss_config(&ui, "c").unwrap().entry.is_empty());
    assert!(!init_rss(&mut ui, &db, false));
    assert_eq!(ui.rss_lists.len(), 3);

    assert!(!init_rss(&mut ui, &Database::new(), true));
    assert!(ui.rss_lists.is_empty());
}

#[test]
fn init_rss_configs_passes_over_unreadable_rows() {
    assert_eq!(
        init_rss_configs(vec![Some(config("a", "A")), None, Some(config("b", "B")), None]),
        vec![config("a", "A"), config("b", "B")]
    );
    assert_eq!(init_rss_configs(vec![None]), vec![]);
}
