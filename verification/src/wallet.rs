//! The domain entity: a wallet is a matched keypair, base58-encoded, with an
//! optional label. Also the error taxonomy of the persistence layer and the
//! two fixed status strings shown to the operator.

use vstd::prelude::*;

verus! {

/// A generated wallet. `public_key` is the account's base58 address and the
/// wallet's identity; `private_key` is the base58-encoded secret material.
/// The two are always produced together as a matched pair.
#[derive(Clone, Debug)]
pub struct Wallet {
    pub name: String,
    pub public_key: String,
    pub private_key: String,
}

impl Wallet {
    pub fn new(name: String, public_key: String, private_key: String) -> (w: Wallet)
        ensures
            w.name@ == name@,
            w.public_key@ == public_key@,
            w.private_key@ == private_key@,
    {
        Wallet { name, public_key, private_key }
    }
}

/// Why a persistence attempt failed. Callers that only want the operator
/// message collapse every kind into the one failure string; the kind is kept
/// so that a future caller could distinguish causes.
#[derive(Clone, Copy, Debug, PartialEq, Eq, Structural)]
pub enum PersistError {
    /// The wallet could not be converted to the persisted text format.
    Serialization,
    /// The destination file could not be created, opened, or fully written.
    Io,
    /// The relational store could not be opened or initialized.
    Connection,
    /// The relational write failed (constraint violations included; the
    /// kinds of database-level failure are not distinguished further).
    Insertion,
}

/// The fixed operator-facing success string.
pub open spec fn success_msg() -> Seq<char> {
    "创建钱包完成！"@
}

/// The fixed operator-facing failure string.
pub open spec fn failure_msg() -> Seq<char> {
    "创建钱包失败！"@
}

pub fn success_message() -> (r: String)
    ensures
        r@ == success_msg(),
{
    "创建钱包完成！".to_owned()
}

pub fn failure_message() -> (r: String)
    ensures
        r@ == failure_msg(),
{
    "创建钱包失败！".to_owned()
}

/// The two operator-facing strings are distinct, so a contract that pins the
/// returned message to one of them also rules the other out.
pub proof fn lemma_messages_differ()
    ensures
        success_msg() != failure_msg(),
{
    reveal_strlit("创建钱包完成！");
    reveal_strlit("创建钱包失败！");
    assert(success_msg()[4] == '完');
    assert(failure_msg()[4] == '失');
}

/// Collapse a persistence outcome into the operator message: exactly one of
/// two fixed strings, success if and only if the outcome is `Ok`.
pub fn status_message(outcome: &Result<(), PersistError>) -> (r: String)
    ensures
        outcome is Ok ==> r@ == success_msg(),
        outcome is Err ==> r@ == failure_msg(),
{
    match outcome {
        Ok(_) => success_message(),
        Err(_) => failure_message(),
    }
}

} // verus!
