use rssbox::db::entry::{
    delete, delete_all, drop_table, insert, new, select, select_all, table_name, update, RssEntry,
};
use rssbox::db::{init, Database, DbError};

fn entry(uuid: &str, title: &str) -> RssEntry {
    RssEntry { uuid: uuid.to_string(), title: title.to_string(), ..Default::default() }
}

fn ready() -> Database {
    let mut db = Database::new();
    init(&mut db);
    db
}

#[test]
fn entry_test_table_new() {
    let mut db = ready();
    assert_eq!(new(&mut db, "suuid-1"), Ok(()));
    assert_eq!(new(&mut db, "suuid-1"), Ok(()));
    assert_eq!(db.entry.len(), 1);
    assert_eq!(db.entry[0].name, "entry_suuid_1");
}

#[test]
fn entry_test_delete_all() {
    let mut db = ready();
    new(&mut db, "suuid-1").unwrap();
    assert_eq!(delete_all(&mut db, "suuid-1"), Ok(()));
    insert(&mut db, "suuid-1", entry("uuid-1", "data-1")).unwrap();
    insert(&mut db, "suuid-1", entry("uuid-2", "data-2")).unwrap();
    assert_eq!(delete_all(&mut db, "suuid-1"), Ok(()));
    assert_eq!(select_all(&db, "suuid-1"), Ok(vec![]));
    assert_eq!(delete_all(&mut db, "suuid-0"), Err(DbError::NoSuchTable));
}

#[test]
fn entry_test_delete_one() {
    let mut db = ready();
    new(&mut db, "suuid-1").unwrap();
    delete_all(&mut db, "suuid-1").unwrap();
    insert(&mut db, "suuid-1", entry("uuid-1", "data-1")).unwrap();
    assert_eq!(delete(&mut db, "suuid-1", "uuid-1"), Ok(()));
    assert_eq!(delete(&mut db, "suuid-1", "uuid-1"), Err(DbError::NotFound));
    assert_eq!(delete(&mut db, "suuid-0", "uuid-1"), Err(DbError::NoSuchTable));
    assert_eq!(select_all(&db, "suuid-1"), Ok(vec![]));
}

#[test]
fn entry_test_insert() {
    let mut db = ready();
    new(&mut db, "suuid-1").unwrap();
    delete_all(&mut db, "suuid-1").unwrap();

    assert_eq!(insert(&mut db, "suuid-1", entry("uuid-1", "data-1")), Ok(()));
    assert_eq!(insert(&mut db, "suuid-1", entry("uuid-2", "data-2")), Ok(()));
    assert_eq!(insert(&mut db, "suuid-1", entry("uuid-1", "again")), Err(DbError::Duplicate));
    assert_eq!(insert(&mut db, "suuid-0", entry("uuid-1", "data-1")), Err(DbError::NoSuchTable));
    assert_eq!(select_all(&db, "suuid-1").unwrap().len(), 2);
    assert_eq!(select(&db, "suuid-1", "uuid-1").unwrap().title, "data-1");
}

#[test]
fn entry_test_update() {
    let mut db = ready();
    new(&mut db, "suuid-1").unwrap();
    delete_all(&mut db, "suuid-1").unwrap();

    insert(&mut db, "suuid-1", entry("uuid-1", "data-1")).unwrap();
    update(&mut db, "suuid-1", "uuid-1", entry("uuid-1", "data-1-1")).unwrap();

    assert_eq!(select(&db, "suuid-1", "uuid-1").unwrap().title, "data-1-1".to_string());
    assert_eq!(
        update(&mut db, "suuid-1", "uuid-9", entry("uuid-9", "x")),
        Err(DbError::NotFound)
    );
}

#[test]
fn entry_update_keeps_the_identity_and_the_place_of_the_row() {
    let mut db = ready();
    new(&mut db, "s").unwrap();
    insert(&mut db, "s", entry("a", "1")).unwrap();
    insert(&mut db, "s", entry("b", "2")).unwrap();
    insert(&mut db, "s", entry("c", "3")).unwrap();
    update(&mut db, "s", "b", entry("zzz", "new")).unwrap();
    let rows = select_all(&db, "s").unwrap();
    assert_eq!(rows, vec![entry("a", "1"), entry("b", "new"), entry("c", "3")]);
}

#[test]
fn entry_test_select_one() {
    let mut db = ready();
    new(&mut db, "suuid-1").unwrap();
    delete_all(&mut db, "suuid-1").unwrap();

    assert!(select(&db, "suuid-1", "uuid-1").is_err());

    insert(&mut db, "suuid-1", entry("uuid-1", "data-1")).unwrap();
    let item = select(&db, "suuid-1", "uuid-1").unwrap();
    assert_eq!(item.uuid, "uuid-1");
    assert_eq!(item.title, "data-1");
}

#[test]
fn entry_test_select_all() {
    let mut db = ready();
    new(&mut db, "suuid-1").unwrap();
    delete_all(&mut db, "suuid-1").unwrap();

    insert(&mut db, "suuid-1", entry("uuid-1", "data-1")).unwrap();
    insert(&mut db, "suuid-1", entry("uuid-2", "data-2")).unwrap();

    let v = select_all(&db, "suuid-1").unwrap();
    assert_eq!(v[0].uuid, "uuid-1");
    assert_eq!(v[0].title, "data-1");
    assert_eq!(v[1].uuid, "uuid-2");
    assert_eq!(v[1].title, "data-2");
}

#[test]
fn test_drop_table() {
    let mut db = ready();
    new(&mut db, "suuid-1").unwrap();
    delete_all(&mut db, "suuid-1").unwrap();
    insert(&mut db, "suuid-1", entry("uuid-1", "data-1")).unwrap();

    assert!(drop_table(&mut db, "suuid-0").is_err());
    assert!(drop_table(&mut db, "suuid-1").is_ok());
    assert_eq!(select_all(&db, "suuid-1"), Err(DbError::NoSuchTable));
}

#[test]
fn tables_of_different_subscriptions_are_apart() {
    let mut db = ready();
    new(&mut db, "s-1").unwrap();
    new(&mut db, "s-2").unwrap();
    insert(&mut db, "s-1", entry("u", "one")).unwrap();
    insert(&mut db, "s-2", entry("u", "two")).unwrap();
    assert_eq!(select(&db, "s-1", "u").unwrap().title, "one");
    assert_eq!(select(&db, "s-2", "u").unwrap().title, "two");
    drop_table(&mut db, "s-1").unwrap();
    assert_eq!(select(&db, "s-2", "u").unwrap().title, "two");
}

#[test]
fn table_name_writes_hyphens_as_underscores() {
    assert_eq!(table_name("suuid-1"), "entry_suuid_1");
    assert_eq!(table_name(""), "entry_");
    assert_eq!(
        table_name("6f9619ff-8b86-d011-b42d-00c04fc964ff"),
        "entry_6f9619ff_8b86_d011_b42d_00c04fc964ff"
    );
    assert_eq!(table_name("a_b-c"), "entry_a_b_c");
}
