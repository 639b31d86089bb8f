use vanity_wallet::db::{init_db, save_db, DatabaseBackend, DB_PATH};
use vanity_wallet::greet;
use vanity_wallet::wallet::Wallet;

#[test]
fn fixed_path_is_web3_db() {
    assert_eq!(DB_PATH, "./web3.db");
}

#[test]
fn fresh_database_is_empty() {
    let mut b = DatabaseBackend::open_in_memory().unwrap();
    b.init_schema().unwrap();
    assert_eq!(b.count().unwrap(), 0);
}

#[test]
fn schema_step_is_idempotent() {
    let mut b = DatabaseBackend::open_in_memory().unwrap();
    b.init_schema().unwrap();
    b.init_schema().unwrap();
    assert_eq!(b.count().unwrap(), 0);
    let w = Wallet::new(String::new(), String::from("PK"), String::from("SK"));
    b.persist(&w).unwrap();
    b.init_schema().unwrap();
    assert_eq!(b.count().unwrap(), 1);
}

#[test]
fn persist_then_lookup_returns_all_fields() {
    let mut b = DatabaseBackend::open_in_memory().unwrap();
    b.init_schema().unwrap();
    let w = Wallet::new(String::new(), String::from("PK1"), String::from("SK1"));
    b.persist(&w).unwrap();
    let row = b.lookup("PK1").unwrap().expect("the row was just inserted");
    assert_eq!(row.name, "");
    assert_eq!(row.public_key, "PK1");
    assert_eq!(row.private_key, "SK1");
    assert!(b.lookup("PK2").unwrap().is_none());
}

#[test]
fn duplicate_public_key_is_refused() {
    let mut b = DatabaseBackend::open_in_memory().unwrap();
    b.init_schema().unwrap();
    let w = Wallet::new(String::new(), String::from("PK1"), String::from("SK1"));
    assert_eq!(save_db(&mut b, &w), "创建钱包完成！");
    let w2 = Wallet::new(String::new(), String::from("PK1"), String::from("other"));
    assert_eq!(save_db(&mut b, &w2), "创建钱包失败！");
    assert_eq!(b.count().unwrap(), 1);
    let row = b.lookup("PK1").unwrap().unwrap();
    assert_eq!(row.private_key, "SK1");
}

#[test]
fn end_to_end_prefix_a() {
    let mut b = DatabaseBackend::open_in_memory().unwrap();
    b.init_schema().unwrap();
    let w = vanity_wallet::generator::search("A").expect("a one-character prefix resolves");
    assert_eq!(w.public_key.chars().next().unwrap(), 'A');
    assert_eq!(save_db(&mut b, &w), "创建钱包完成！");
    assert_eq!(b.count().unwrap(), 1);
    let row = b.lookup(&w.public_key).unwrap().expect("the found wallet was stored");
    assert_eq!(row.public_key, w.public_key);
    assert_eq!(row.private_key, w.private_key);
    assert_eq!(row.name, "");
}

#[test]
fn greet_stores_one_matching_row() {
    let mut b = DatabaseBackend::open_in_memory().unwrap();
    b.init_schema().unwrap();
    let msg = greet(&mut b, "A");
    assert_eq!(msg, "创建钱包完成！");
    assert_eq!(b.count().unwrap(), 1);
}

#[test]
fn init_db_unreachable_path_is_a_connection_error() {
    let r = init_db("./no_such_directory_for_wallets/sub/web3.db");
    assert!(matches!(
        r,
        Err(vanity_wallet::wallet::PersistError::Connection)
    ));
}
