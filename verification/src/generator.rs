//! The generation loop: draw keypairs until the encoded public key starts
//! with the requested prefix. The prefix is taken as given — no alphabet or
//! length validation — so for improbable prefixes the unbounded search may
//! run effectively forever; that is the stated contract, and a bounded
//! variant is offered for hosts that want a cap.

use vstd::prelude::*;
use crate::keysource::{generate_keypair_strings, matched_pair};
use crate::prefix::{is_prefix, str_starts_with};
use crate::wallet::Wallet;

verus! {

/// What the search promises of any wallet it hands back: the label is empty,
/// the encoded public key starts with the requested prefix, and the two keys
/// are a matched pair.
pub open spec fn found_wallet(prefix: Seq<char>, w: Wallet) -> bool {
    &&& w.name@ == Seq::<char>::empty()
    &&& is_prefix(prefix, w.public_key@)
    &&& matched_pair(w.public_key@, w.private_key@)
}

/// One step of the search: draw one keypair and keep it only if the encoded
/// public key starts with `prefix`. For a non-empty prefix, whether a draw
/// matches is up to chance, so no outcome is promised; the empty prefix
/// matches every key, so the draw is always kept.
pub fn try_candidate(prefix: &str) -> (r: Option<Wallet>)
    ensures
        r matches Some(w) ==> found_wallet(prefix@, w),
        prefix@.len() == 0 ==> r is Some,
{
    let (public_key, private_key) = generate_keypair_strings();
    if str_starts_with(public_key.as_str(), prefix) {
        Some(Wallet::new(String::new(), public_key, private_key))
    } else {
        proof {
            if prefix@.len() == 0 {
                assert(public_key@.subrange(0, 0) =~= prefix@);
            }
        }
        None
    }
}

/// Search until a match: no timeout and no cancellation. Termination is only
/// probabilistic and is not claimed here. The draw count is capped at
/// `u64::MAX`, which no realistic run reaches, so `None` never comes back in
/// practice; a host that wants a real cap calls `search_bounded` itself.
pub fn search(prefix: &str) -> (r: Option<Wallet>)
    ensures
        r matches Some(w) ==> found_wallet(prefix@, w),
        prefix@.len() == 0 ==> r is Some,
{
    search_bounded(prefix, u64::MAX)
}

/// The search with an explicit cap: at most `max_draws` keypairs are drawn;
/// `None` says the cap ran out before a match.
pub fn search_bounded(prefix: &str, max_draws: u64) -> (r: Option<Wallet>)
    ensures
        r matches Some(w) ==> found_wallet(prefix@, w),
        prefix@.len() == 0 && max_draws >= 1 ==> r is Some,
{
    let mut i: u64 = 0;
    while i < max_draws
        invariant
            i <= max_draws,
            prefix@.len() == 0 ==> i == 0,
        decreases max_draws - i,
    {
        match try_candidate(prefix) {
            Some(w) => {
                return Some(w);
            },
            None => {},
        }
        i = i + 1;
    }
    None
}

} // verus!
