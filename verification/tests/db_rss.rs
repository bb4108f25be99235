use rssbox::db::rss::{
    delete, delete_all, feed_format_default, insert, is_exist, new, select, select_all, update,
    RssConfig,
};
use rssbox::db::{init, Database, DbError};

fn config(uuid: &str, name: &str) -> RssConfig {
    RssConfig {
        uuid: uuid.to_string(),
        name: name.to_string(),
        url: format!("http://example.com/{uuid}"),
        icon_index: 0,
        use_http_proxy: false,
        use_socks5_proxy: false,
        is_favorite: false,
        update_time: String::new(),
        feed_format: feed_format_default(),
    }
}

fn ready() -> Database {
    let mut db = Database::new();
    init(&mut db);
    db
}

#[test]
fn rss_test_table_new() {
    let mut db = Database::new();
    assert!(db.rss.is_none());
    assert_eq!(new(&mut db), Ok(()));
    assert_eq!(db.rss, Some(vec![]));
    insert(&mut db, config("uuid-1", "data-1")).unwrap();
    assert_eq!(new(&mut db), Ok(()));
    assert_eq!(db.rss.as_ref().unwrap().len(), 1);
}

#[test]
fn rss_test_delete_all() {
    let mut db = ready();
    new(&mut db).unwrap();
    insert(&mut db, config("uuid-1", "data-1")).unwrap();
    assert_eq!(delete_all(&mut db), Ok(()));
    assert_eq!(select_all(&db), Ok(vec![]));
    assert_eq!(delete_all(&mut Database::new()), Err(DbError::NoSuchTable));
}

#[test]
fn rss_test_delete_one() {
    let mut db = ready();
    delete_all(&mut db).unwrap();
    insert(&mut db, config("uuid-1", "data-1")).unwrap();
    assert_eq!(delete(&mut db, "uuid-1"), Ok(()));
    assert_eq!(delete(&mut db, "uuid-1"), Err(DbError::NotFound));
}

#[test]
fn rss_test_insert() {
    let mut db = ready();
    delete_all(&mut db).unwrap();

    assert_eq!(insert(&mut db, config("uuid-1", "data-1")), Ok(()));
    assert_eq!(insert(&mut db, config("uuid-2", "data-2")), Ok(()));
    assert_eq!(insert(&mut db, config("uuid-1", "other")), Err(DbError::Duplicate));
    assert_eq!(insert(&mut Database::new(), config("uuid-1", "x")), Err(DbError::NoSuchTable));
}

#[test]
fn rss_test_update() {
    let mut db = ready();
    delete_all(&mut db).unwrap();

    insert(&mut db, config("uuid-1", "data-1")).unwrap();
    update(&mut db, "uuid-1", config("uuid-1", "data-1-1")).unwrap();

    assert_eq!(select(&db, "uuid-1").unwrap().name, "data-1-1".to_string());
    assert_eq!(update(&mut db, "uuid-0", config("uuid-0", "x")), Err(DbError::NotFound));
}

#[test]
fn rss_test_select_one() {
    let mut db = ready();
    delete_all(&mut db).unwrap();

    assert!(select(&db, "uuid-1").is_err());

    insert(&mut db, config("uuid-1", "data-1")).unwrap();
    let item = select(&db, "uuid-1").unwrap();
    assert_eq!(item.uuid, "uuid-1");
    assert_eq!(item.name, "data-1");
}

#[test]
fn rss_test_select_all() {
    let mut db = ready();
    delete_all(&mut db).unwrap();

    insert(&mut db, config("uuid-1", "data-1")).unwrap();
    insert(&mut db, config("uuid-2", "data-2")).unwrap();

    let v = select_all(&db).unwrap();
    assert_eq!(v[0].uuid, "uuid-1");
    assert_eq!(v[0].name, "data-1");
    assert_eq!(v[1].uuid, "uuid-2");
    assert_eq!(v[1].name, "data-2");
}

#[test]
fn rss_test_is_exist() {
    let mut db = ready();
    delete_all(&mut db).unwrap();
    insert(&mut db, config("uuid-1", "data-1")).unwrap();

    assert!(is_exist(&db, "uuid-0").is_err());
    assert!(is_exist(&db, "uuid-1").is_ok());
}

#[test]
fn feed_format_defaults_to_auto() {
    assert_eq!(feed_format_default(), "AUTO");
}
