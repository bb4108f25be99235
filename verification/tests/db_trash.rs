use rssbox::db::trash::{delete_all, insert, is_exist, new, row_count, select};
use rssbox::db::{drop_table, init, is_table_exist, Database, DbError};

fn ready() -> Database {
    let mut db = Database::new();
    init(&mut db);
    db
}

#[test]
fn trash_test_table_new() {
    let mut db = Database::new();
    assert_eq!(row_count(&db), Err(DbError::NoSuchTable));
    assert_eq!(new(&mut db), Ok(()));
    assert_eq!(row_count(&db), Ok(0));
    insert(&mut db, "md5-1").unwrap();
    assert_eq!(new(&mut db), Ok(()));
    assert_eq!(row_count(&db), Ok(1));
}

#[test]
fn trash_test_delete_all() {
    let mut db = ready();
    insert(&mut db, "md5-1").unwrap();
    assert_eq!(delete_all(&mut db), Ok(()));
    assert_eq!(row_count(&db), Ok(0));
    assert_eq!(delete_all(&mut Database::new()), Err(DbError::NoSuchTable));
}

#[test]
fn trash_test_insert() {
    let mut db = ready();
    delete_all(&mut db).unwrap();
    assert_eq!(insert(&mut db, "md5-1"), Ok(()));
    assert_eq!(insert(&mut db, "md5-2"), Ok(()));
    assert_eq!(insert(&mut db, "md5-1"), Err(DbError::Duplicate));
    assert_eq!(row_count(&db), Ok(2));
    assert_eq!(insert(&mut Database::new(), "md5-1"), Err(DbError::NoSuchTable));
}

#[test]
fn trash_test_select_one() {
    let mut db = ready();
    delete_all(&mut db).unwrap();
    assert!(select(&db, "md5-1").is_err());

    insert(&mut db, "md5-1").unwrap();
    assert_eq!(select(&db, "md5-1").unwrap(), "md5-1");
}

#[test]
fn trash_test_is_exist() {
    let mut db = ready();
    delete_all(&mut db).unwrap();
    insert(&mut db, "md5-1").unwrap();

    assert!(is_exist(&db, "md5-0").is_err());
    assert!(is_exist(&db, "md5-1").is_ok());
    assert_eq!(is_exist(&db, "md5-0"), Err(DbError::NotFound));
    assert_eq!(is_exist(&Database::new(), "md5-1"), Err(DbError::NoSuchTable));
}

#[test]
fn test_row_count() {
    let mut db = ready();
    delete_all(&mut db).unwrap();
    assert_eq!(row_count(&db).unwrap(), 0);

    insert(&mut db, "md5-1").unwrap();
    assert_eq!(row_count(&db).unwrap(), 1);
}

#[test]
fn test_db_is_table_exist() {
    let mut db = ready();
    new(&mut db).unwrap();
    assert!(is_table_exist(&db, "hello").is_err());
    assert!(is_table_exist(&db, "trash").is_ok());
    assert!(is_table_exist(&db, "rss").is_ok());
    rssbox::db::entry::new(&mut db, "s-1").unwrap();
    assert!(is_table_exist(&db, "entry_s_1").is_ok());
    assert!(is_table_exist(&db, "s-1").is_err());
}

#[test]
fn test_db_drop_table() {
    let mut db = ready();
    new(&mut db).unwrap();
    assert!(drop_table(&mut db, "hello").is_err());
    assert!(drop_table(&mut db, "trash").is_ok());
    assert!(is_table_exist(&db, "trash").is_err());
    assert!(drop_table(&mut db, "trash").is_err());
    assert!(is_table_exist(&db, "rss").is_ok());
}

#[test]
fn init_keeps_what_the_store_holds() {
    let mut db = ready();
    insert(&mut db, "md5-1").unwrap();
    init(&mut db);
    assert_eq!(row_count(&db), Ok(1));
}
