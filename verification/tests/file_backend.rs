use vanity_wallet::file_backend::{save_file, FileBackend, FILE_PATH};
use vanity_wallet::wallet::Wallet;

#[test]
fn fixed_path_is_wallet_json() {
    assert_eq!(FILE_PATH, "./wallet.json");
}

#[test]
fn new_backend_holds_nothing() {
    let b = FileBackend::new();
    assert!(b.document().is_none());
}

#[test]
fn persist_stores_document() {
    let mut b = FileBackend::new();
    let w = Wallet::new(String::new(), String::from("PK"), String::from("SK"));
    b.persist(&w).unwrap();
    let doc = b.document().as_ref().unwrap();
    assert_eq!(
        doc,
        "{\n  \"public_key\": \"PK\",\n  \"private_key\": \"SK\",\n  \"name\": \"\"\n}"
    );
}

#[test]
fn persist_overwrites_prior_wallet() {
    let mut b = FileBackend::new();
    let a = Wallet::new(String::new(), String::from("FIRST"), String::from("S1"));
    let w = Wallet::new(String::new(), String::from("SECOND"), String::from("S2"));
    b.persist(&a).unwrap();
    b.persist(&w).unwrap();
    let doc = b.document().as_ref().unwrap();
    assert_eq!(
        doc,
        "{\n  \"public_key\": \"SECOND\",\n  \"private_key\": \"S2\",\n  \"name\": \"\"\n}"
    );
    assert!(!doc.contains("FIRST"));
}

#[test]
fn save_file_reports_success() {
    let mut b = FileBackend::new();
    let w = Wallet::new(String::new(), String::from("PK"), String::from("SK"));
    let msg = save_file(&mut b, &w);
    assert_eq!(msg, "创建钱包完成！");
}

#[test]
fn save_file_reports_failure_and_keeps_contents() {
    let mut b = FileBackend::new();
    let good = Wallet::new(String::new(), String::from("PK"), String::from("SK"));
    save_file(&mut b, &good);
    let bad = Wallet::new(String::from("a\"b"), String::from("P2"), String::from("S2"));
    let msg = save_file(&mut b, &bad);
    assert_eq!(msg, "创建钱包失败！");
    let doc = b.document().as_ref().unwrap();
    assert!(doc.contains("PK"));
    assert!(!doc.contains("P2"));
}
