use vanity_wallet::wallet::{failure_message, status_message, success_message, PersistError, Wallet};

#[test]
fn status_collapses_every_outcome_to_two_strings() {
    assert_eq!(status_message(&Ok(())), "创建钱包完成！");
    assert_eq!(status_message(&Err(PersistError::Serialization)), "创建钱包失败！");
    assert_eq!(status_message(&Err(PersistError::Io)), "创建钱包失败！");
    assert_eq!(status_message(&Err(PersistError::Connection)), "创建钱包失败！");
    assert_eq!(status_message(&Err(PersistError::Insertion)), "创建钱包失败！");
}

#[test]
fn fixed_messages() {
    assert_eq!(success_message(), "创建钱包完成！");
    assert_eq!(failure_message(), "创建钱包失败！");
    assert_ne!(success_message(), failure_message());
}

#[test]
fn wallet_constructor_keeps_fields() {
    let w = Wallet::new(
        String::from("label"),
        String::from("pub"),
        String::from("priv"),
    );
    assert_eq!(w.name, "label");
    assert_eq!(w.public_key, "pub");
    assert_eq!(w.private_key, "priv");
}
