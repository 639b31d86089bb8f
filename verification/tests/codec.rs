use vanity_wallet::codec::{wallet_from_json, wallet_to_json};
use vanity_wallet::wallet::{PersistError, Wallet};

fn sample_wallet() -> Wallet {
    Wallet::new(
        String::from("savings"),
        String::from("AbCd1234"),
        String::from("5KxyZ"),
    )
}

#[test]
fn serializer_exact_document() {
    let w = sample_wallet();
    let doc = wallet_to_json(&w).unwrap();
    let expected = "{\n  \"public_key\": \"AbCd1234\",\n  \"private_key\": \"5KxyZ\",\n  \"name\": \"savings\"\n}";
    assert_eq!(doc, expected);
}

#[test]
fn serializer_empty_name() {
    let w = Wallet::new(String::new(), String::from("PK"), String::from("SK"));
    let doc = wallet_to_json(&w).unwrap();
    let expected = "{\n  \"public_key\": \"PK\",\n  \"private_key\": \"SK\",\n  \"name\": \"\"\n}";
    assert_eq!(doc, expected);
}

#[test]
fn serializer_output_is_valid_json() {
    let w = sample_wallet();
    let doc = wallet_to_json(&w).unwrap();
    let value: serde_json::Value = serde_json::from_str(&doc).unwrap();
    assert_eq!(value["public_key"].as_str().unwrap(), "AbCd1234");
    assert_eq!(value["private_key"].as_str().unwrap(), "5KxyZ");
    assert_eq!(value["name"].as_str().unwrap(), "savings");
    assert_eq!(value.as_object().unwrap().len(), 3);
}

#[test]
fn round_trip_reproduces_fields() {
    let w = sample_wallet();
    let doc = wallet_to_json(&w).unwrap();
    let back = wallet_from_json(&doc).unwrap();
    assert_eq!(back.public_key, w.public_key);
    assert_eq!(back.private_key, w.private_key);
    assert_eq!(back.name, w.name);
}

#[test]
fn round_trip_empty_fields() {
    let w = Wallet::new(String::new(), String::new(), String::new());
    let doc = wallet_to_json(&w).unwrap();
    let back = wallet_from_json(&doc).unwrap();
    assert_eq!(back.public_key, "");
    assert_eq!(back.private_key, "");
    assert_eq!(back.name, "");
}

#[test]
fn serializer_refuses_quote() {
    let w = Wallet::new(String::from("a\"b"), String::from("PK"), String::from("SK"));
    let r = wallet_to_json(&w);
    assert!(matches!(r, Err(PersistError::Serialization)));
}

#[test]
fn serializer_refuses_backslash_and_control() {
    let w = Wallet::new(String::new(), String::from("P\\K"), String::from("SK"));
    assert!(matches!(wallet_to_json(&w), Err(PersistError::Serialization)));
    let w2 = Wallet::new(String::new(), String::from("PK"), String::from("S\nK"));
    assert!(matches!(wallet_to_json(&w2), Err(PersistError::Serialization)));
}

#[test]
fn parser_rejects_malformed() {
    assert!(wallet_from_json("").is_none());
    assert!(wallet_from_json("{}").is_none());
    assert!(wallet_from_json("{\n  \"public_key\": \"PK\"\n}").is_none());
    let truncated = "{\n  \"public_key\": \"PK\",\n  \"private_key\": \"SK\",\n  \"name\": \"\"";
    assert!(wallet_from_json(truncated).is_none());
    let trailing = "{\n  \"public_key\": \"PK\",\n  \"private_key\": \"SK\",\n  \"name\": \"\"\n} ";
    assert!(wallet_from_json(trailing).is_none());
}
