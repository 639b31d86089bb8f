use solana_sdk::signature::Keypair;
use solana_sdk::signer::Signer;
use vanity_wallet::generator::{search, search_bounded, try_candidate};

#[test]
fn empty_prefix_matches_first_draw() {
    let w = try_candidate("").expect("the empty prefix matches every key");
    assert_eq!(w.name, "");
    assert!(!w.public_key.is_empty());
    assert!(!w.private_key.is_empty());
}

#[test]
fn search_finds_single_char_prefix() {
    let w = search("A").expect("a one-character base58 prefix resolves quickly");
    assert!(w.public_key.starts_with('A'));
    assert_eq!(w.name, "");
}

#[test]
fn search_bounded_finds_single_char_prefix() {
    let w = search_bounded("A", 1_000_000).expect("a one-character base58 prefix resolves quickly");
    assert!(w.public_key.starts_with('A'));
}

#[test]
fn search_bounded_gives_up_on_foreign_alphabet() {
    // '0' is not in the base58 alphabet, so no draw can ever match.
    assert!(search_bounded("0", 25).is_none());
}

#[test]
fn search_bounded_zero_draws_finds_nothing() {
    assert!(search_bounded("", 0).is_none());
}

#[test]
fn generated_keys_are_a_matched_pair() {
    let w = search_bounded("", 1).expect("the empty prefix matches the first draw");
    let keypair = Keypair::from_base58_string(&w.private_key);
    assert_eq!(keypair.pubkey().to_string(), w.public_key);
}
