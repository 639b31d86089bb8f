//! A vanity-address wallet generator: brute-force keypair search until the
//! base58-encoded public key starts with a requested prefix, plus two
//! persistence backends (a flat JSON file and a relational table).

use vstd::prelude::*;

pub mod codec;
pub mod db;
pub mod file_backend;
pub mod generator;
pub mod keysource;
pub mod prefix;
pub mod wallet;

verus! {

/// The command behind the operator's form: search for a wallet whose base58
/// public key starts with `name`, persist it through the relational backend,
/// and collapse the outcome into the one success or the one failure string.
/// Success says exactly one matching, matched-pair row went in; failure — the
/// search cap ran out or the insert was refused — leaves the table unchanged.
pub fn greet(backend: &mut db::DatabaseBackend, name: &str) -> (r: String)
    ensures
        r@ == wallet::success_msg() || r@ == wallet::failure_msg(),
        r@ == wallet::success_msg() ==> exists|w: wallet::Wallet|
            #![auto]
            generator::found_wallet(name@, w)
                && !old(backend).rows().contains_key(w.public_key@)
                && final(backend).rows() == old(backend).rows().insert(
                    w.public_key@,
                    (Seq::<char>::empty(), w.private_key@),
                ),
        r@ == wallet::failure_msg() ==> final(backend).rows() == old(backend).rows(),
        final(backend).schema_ready() == old(backend).schema_ready(),
{
    proof {
        wallet::lemma_messages_differ();
    }
    match generator::search(name) {
        Some(w) => {
            let r = db::save_db(backend, &w);
            proof {
                if r@ == wallet::success_msg() {
                    assert(generator::found_wallet(name@, w));
                }
            }
            r
        },
        None => wallet::failure_message(),
    }
}

} // verus!
