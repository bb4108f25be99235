use rssbox::db::entry::RssEntry;
use rssbox::db::rss::{feed_format_default, RssConfig};
use rssbox::db::trash::{insert, row_count};
use rssbox::db::{init, ComEntry, Database, DbError};
use rssbox::logic::cache::{cache_size, remove_all_cache};
use rssbox::logic::entry::{add_new_entrys, favorite_entry};
use rssbox::logic::find::{find_entrys_counts, unadd_list, update_find_entrylist, FindList};
use rssbox::logic::ok_cancel_dialog::{dialog_action, handle_ok_cancel_dialog, DialogAction};
use rssbox::logic::rss::add_rss;
use rssbox::logic::setting::{feedback_text, font_size};
use rssbox::logic::store::Registry;
use rssbox::logic::{ActionError, FindEntry, ReqData};

fn config(uuid: &str, url: &str) -> RssConfig {
    RssConfig {
        uuid: uuid.to_string(),
        name: uuid.to_string(),
        url: url.to_string(),
        icon_index: 0,
        use_http_proxy: false,
        use_socks5_proxy: false,
        is_favorite: false,
        update_time: String::new(),
        feed_format: feed_format_default(),
    }
}

fn offer(name: &str, url: &str) -> FindEntry {
    FindEntry { name: name.to_string(), url: url.to_string() }
}

fn entry(uuid: &str, url: &str) -> RssEntry {
    RssEntry { uuid: uuid.to_string(), url: url.to_string(), title: url.to_string(), ..Default::default() }
}

fn ready() -> (Registry, Database) {
    let mut db = Database::new();
    init(&mut db);
    let mut ui = Registry::new();
    rssbox::ui_after(&mut ui, &mut db, false);
    add_rss(&mut ui, &mut db, config("s", "http://s")).unwrap();
    add_new_entrys(&mut ui, &mut db, "s", vec![entry("a", "ua"), entry("b", "ub")]);
    favorite_entry(&mut ui, &mut db, "s", "a").unwrap();
    (ui, db)
}

#[test]
fn offers_count_as_the_same_by_name_or_by_address() {
    assert!(offer("a", "u1") == offer("a", "u2"));
    assert!(offer("a", "u1") == offer("b", "u1"));
    assert!(offer("a", "u1") != offer("b", "u2"));
}

#[test]
fn offers_that_are_subscribed_to_are_not_shown() {
    let configs = vec![config("1", "http://one"), config("2", "http://two")];
    let left = unadd_list(
        vec![offer("One", "http://one"), offer("Three", "http://three"), offer("Two", "http://two"), offer("Four", "http://four")],
        &configs,
    );
    let names: Vec<_> = left.iter().map(|e| e.name.as_str()).collect();
    assert_eq!(names, vec!["Three", "Four"]);
}

#[test]
fn offers_are_picked_by_keyword() {
    let mut list = FindList { find_entrys: vec![], find_entrys_keyword: vec![offer("x", "y")] };
    rssbox::logic::find::init(
        &mut list,
        vec![offer("Rust Blog", "u1"), offer("Go Blog", "u2"), offer("Rustacean", "u3"), offer("Sub", "http://s")],
        &vec![config("s", "http://s")],
    );
    assert_eq!(find_entrys_counts(&list), 3);
    assert!(list.find_entrys_keyword.is_empty());
    update_find_entrylist(&mut list, "Rust");
    let names: Vec<_> = list.find_entrys_keyword.iter().map(|e| e.name.as_str()).collect();
    assert_eq!(names, vec!["Rust Blog", "Rustacean"]);
    update_find_entrylist(&mut list, "");
    assert_eq!(list.find_entrys_keyword.len(), 3);
    update_find_entrylist(&mut list, "rust");
    assert!(list.find_entrys_keyword.is_empty());
    assert_eq!(find_entrys_counts(&list), 3);
}

#[test]
fn keywords_are_found_anywhere_in_the_name() {
    let mut list = FindList {
        find_entrys: vec![
            offer("日本語のニュース", "u1"),
            offer("ニュース", "u2"),
            offer("news", "u3"),
            offer("aab", "u4"),
            offer("", "u5"),
        ],
        find_entrys_keyword: vec![],
    };
    let picked = |list: &FindList| -> Vec<String> {
        list.find_entrys_keyword.iter().map(|e| e.url.clone()).collect()
    };
    update_find_entrylist(&mut list, "ニュース");
    assert_eq!(picked(&list), vec!["u1", "u2"]);
    update_find_entrylist(&mut list, "ab");
    assert_eq!(picked(&list), vec!["u4"]);
    update_find_entrylist(&mut list, "aab");
    assert_eq!(picked(&list), vec!["u4"]);
    update_find_entrylist(&mut list, "aabb");
    assert_eq!(picked(&list), Vec::<String>::new());
    update_find_entrylist(&mut list, "s");
    assert_eq!(picked(&list), vec!["u3"]);
    update_find_entrylist(&mut list, "");
    assert_eq!(picked(&list).len(), 5);
}

#[test]
fn cache_size_is_32_bytes_for_each_removed_item() {
    let mut db = Database::new();
    assert_eq!(cache_size(&db), None);
    init(&mut db);
    assert_eq!(cache_size(&db), Some("0B".to_string()));
    for i in 0..31 {
        insert(&mut db, &format!("md5-{i}")).unwrap();
    }
    assert_eq!(cache_size(&db), Some("992B".to_string()));
    insert(&mut db, "one-more").unwrap();
    assert_eq!(cache_size(&db), Some("1K".to_string()));
    assert_eq!(remove_all_cache(&mut db), Ok(()));
    assert_eq!(row_count(&db), Ok(0));
    assert_eq!(cache_size(&db), Some("0B".to_string()));
    assert_eq!(remove_all_cache(&mut Database::new()), Err(DbError::NoSuchTable));
}

#[test]
fn dialog_kinds() {
    assert_eq!(dialog_action("remove-all-entrys"), DialogAction::RemoveAllEntrys);
    assert_eq!(dialog_action("remove-all-favorite-entrys"), DialogAction::RemoveAllFavoriteEntrys);
    assert_eq!(dialog_action("remove-rss"), DialogAction::RemoveRss);
    assert_eq!(dialog_action("remove-all-cache"), DialogAction::RemoveAllCache);
    assert_eq!(dialog_action("backup-to-remote"), DialogAction::BackupToRemote);
    assert_eq!(dialog_action("recover-from-remote"), DialogAction::RecoverFromRemote);
    assert_eq!(dialog_action("Remove-Rss"), DialogAction::Nothing);
    assert_eq!(dialog_action(""), DialogAction::Nothing);
}

#[test]
fn a_confirmed_dialog_is_carried_out() {
    let (mut ui, mut db) = ready();
    assert_eq!(
        handle_ok_cancel_dialog(&mut ui, &mut db, "remove-all-entrys", "s"),
        (DialogAction::RemoveAllEntrys, Ok(()))
    );
    assert!(ui.rss_lists[0].entry.is_empty());
    assert_eq!(row_count(&db), Ok(2));
    assert_eq!(
        handle_ok_cancel_dialog(&mut ui, &mut db, "remove-all-cache", ""),
        (DialogAction::RemoveAllCache, Ok(()))
    );
    assert_eq!(row_count(&db), Ok(0));
    assert_eq!(ui.rss_favorite_entrys.len(), 1);
    assert_eq!(
        handle_ok_cancel_dialog(&mut ui, &mut db, "remove-all-favorite-entrys", ""),
        (DialogAction::RemoveAllFavoriteEntrys, Ok(()))
    );
    assert!(ui.rss_favorite_entrys.is_empty());
    assert_eq!(
        handle_ok_cancel_dialog(&mut ui, &mut db, "backup-to-remote", "s"),
        (DialogAction::BackupToRemote, Ok(()))
    );
    assert_eq!(
        handle_ok_cancel_dialog(&mut ui, &mut db, "something", "s"),
        (DialogAction::Nothing, Ok(()))
    );
    assert_eq!(ui.rss_lists.len(), 1);
    assert_eq!(
        handle_ok_cancel_dialog(&mut ui, &mut db, "remove-rss", "nobody"),
        (DialogAction::RemoveRss, Err(ActionError::NoSuchSubscription))
    );
    assert_eq!(
        handle_ok_cancel_dialog(&mut ui, &mut db, "remove-rss", "s"),
        (DialogAction::RemoveRss, Ok(()))
    );
    assert!(ui.rss_lists.is_empty());
}

#[test]
fn font_size_is_kept_between_10_and_50() {
    assert_eq!(font_size(16), 16);
    assert_eq!(font_size(10), 10);
    assert_eq!(font_size(50), 50);
    assert_eq!(font_size(9), 10);
    assert_eq!(font_size(0), 10);
    assert_eq!(font_size(51), 50);
    assert_eq!(font_size(u32::MAX), 50);
}

#[test]
fn feedback_is_trimmed_and_cut() {
    assert_eq!(feedback_text("  hello \n"), Some("hello".to_string()));
    assert_eq!(feedback_text("   "), None);
    assert_eq!(feedback_text(""), None);
    let long = "é".repeat(3000);
    assert_eq!(feedback_text(&long), Some("é".repeat(2048)));
    let exact = "x".repeat(2048);
    assert_eq!(feedback_text(&exact), Some(exact.clone()));
}

#[test]
fn plain_rows_and_requests() {
    let row = ComEntry { uuid: "uuid-1".to_string(), data: "data-1".to_string() };
    assert_eq!(row.clone(), row);
    let req = ReqData::new("app".to_string());
    assert_eq!(req, ReqData { appid: "app".to_string(), kind: String::new(), data: String::new() });
}
