//! The keypair source: fresh random keypairs, both halves handed out
//! base58-encoded. Generation is treated as infallible and random, so the only
//! thing claimed of a draw is that the two strings belong together.

use vstd::prelude::*;
use solana_sdk::signature::Keypair;
use solana_sdk::signer::Signer;

verus! {

/// The base58 public key that the blockchain library re-derives from a
/// base58-encoded keypair: decode the 64 encoded bytes, take the public half,
/// encode it. A function of the encoded secret alone; spelling out the
/// ed25519 and base58 mathematics here would state nothing checkable, so the
/// result only gets this name.
pub uninterp spec fn derived_pubkey_b58(private_key: Seq<char>) -> Seq<char>;

/// `public_key` and `private_key` are a matched pair: re-deriving the public
/// half from the encoded secret gives exactly `public_key`.
pub open spec fn matched_pair(public_key: Seq<char>, private_key: Seq<char>) -> bool {
    public_key == derived_pubkey_b58(private_key)
}

/// Relies on `solana_keypair::Keypair`: `Keypair::new` draws a fresh random
/// keypair; `to_base58_string` encodes its full 64 bytes (secret half then
/// public half), so `Keypair::from_base58_string` recovers the same keypair,
/// whose `Signer::pubkey`, shown in base58, is exactly what `pubkey()` of the
/// drawn keypair shows. Nothing else is claimed: the draw is random.
#[verifier::external_body]
pub(crate) fn generate_keypair_strings() -> (r: (String, String))
    ensures
        r.0@ == derived_pubkey_b58(r.1@),
{
    let keypair: Keypair = Keypair::new();
    let public_key = keypair.pubkey().to_string();
    let private_key = keypair.to_base58_string();
    (public_key, private_key)
}

} // verus!
