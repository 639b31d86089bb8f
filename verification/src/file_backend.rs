//! The flat-file backend: one JSON document at one fixed path, each persist
//! overwriting whatever was there — last writer wins, no append. The backend
//! value holds the document the file must now contain; the host flushes it to
//! disk and reports a write failure through `status_message` with the I/O
//! kind.

use vstd::prelude::*;
use crate::codec::{doc_of, wallet_plain, wallet_to_json};
use crate::wallet::{failure_message, failure_msg, lemma_messages_differ, success_message, success_msg, PersistError, Wallet};

verus! {

/// The fixed path, relative to the process's working directory, that the
/// document is flushed to.
pub const FILE_PATH: &'static str = "./wallet.json";

/// What the destination holds after one persist: the wallet's document if the
/// wallet serializes, the prior contents untouched otherwise.
pub open spec fn contents_after(prev: Option<Seq<char>>, w: Wallet) -> Option<Seq<char>> {
    if wallet_plain(w) {
        Some(doc_of(w.public_key@, w.private_key@, w.name@))
    } else {
        prev
    }
}

/// The flat-file backend. `document` is the text the destination file must
/// now contain; `None` means no persist has succeeded yet, so whatever was
/// on disk is still there.
pub struct FileBackend {
    document: Option<String>,
}

impl FileBackend {
    /// The modelled contents of the destination.
    pub closed spec fn contents(self) -> Option<Seq<char>> {
        match self.document {
            Some(s) => Some(s@),
            None => None,
        }
    }

    /// A backend that has not written yet.
    pub fn new() -> (b: FileBackend)
        ensures
            b.contents() is None,
    {
        FileBackend { document: None }
    }

    /// Serialize the wallet and make its document the destination's one
    /// content, whatever was there before; a wallet that does not serialize
    /// changes nothing and is the only failure.
    pub fn persist(&mut self, wallet: &Wallet) -> (r: Result<(), PersistError>)
        ensures
            final(self).contents() == contents_after(old(self).contents(), *wallet),
            r matches Ok(u) ==> wallet_plain(*wallet),
            r matches Err(e) ==> !wallet_plain(*wallet) && e == PersistError::Serialization,
    {
        match wallet_to_json(wallet) {
            Ok(doc) => {
                self.document = Some(doc);
                Ok(())
            },
            Err(e) => Err(e),
        }
    }

    /// The document the destination file must now contain, if any persist has
    /// succeeded.
    pub fn document(&self) -> (d: &Option<String>)
        ensures
            match d {
                Some(s) => self.contents() == Some(s@),
                None => self.contents() is None,
            },
    {
        &self.document
    }
}

/// Persisting A and then B leaves exactly B's document — the earlier wallet
/// is gone, whatever the destination held before either.
pub proof fn lemma_overwrite(prev: Option<Seq<char>>, a: Wallet, b: Wallet)
    requires
        wallet_plain(b),
    ensures
        contents_after(contents_after(prev, a), b) == contents_after(prev, b),
        contents_after(contents_after(prev, a), b) == Some(
            doc_of(b.public_key@, b.private_key@, b.name@),
        ),
{
}

/// Persist `wallet` through the flat-file backend and collapse the outcome
/// into the one success or the one failure string: success exactly when the
/// document was replaced, failure with the destination untouched otherwise.
pub fn save_file(backend: &mut FileBackend, wallet: &Wallet) -> (r: String)
    ensures
        r@ == success_msg() || r@ == failure_msg(),
        final(backend).contents() == contents_after(old(backend).contents(), *wallet),
        r@ == success_msg() ==> wallet_plain(*wallet),
        r@ == failure_msg() ==> !wallet_plain(*wallet) && final(backend).contents() == old(
            backend,
        ).contents(),
{
    proof {
        lemma_messages_differ();
    }
    match backend.persist(wallet) {
        Ok(u) => success_message(),
        Err(_) => failure_message(),
    }
}

} // verus!
