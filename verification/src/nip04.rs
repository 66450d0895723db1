//! Direct messages between two key pairs, encrypted as NIP-04 describes.
use vstd::prelude::*;

use nostr_sdk::nips::nip04;
use nostr_sdk::{PublicKey, SecretKey};

use crate::keys::{is_public_key, public_key_of};

verus! {

/// The text inside an encrypted message, as the holder of `secret` reads a
/// message exchanged with `public`.
pub uninterp spec fn nip04_text(secret: Seq<u8>, public: Seq<u8>, content: Seq<char>) -> Option<
    Seq<char>,
>;

/// Both ends of the exchange between `secret` and `public` read `text` in `content`:
/// the holder of `secret`, and whoever holds the secret key behind `public`.
pub open spec fn nip04_seals(
    secret: Seq<u8>,
    public: Seq<u8>,
    text: Seq<char>,
    content: Seq<char>,
) -> bool {
    &&& nip04_text(secret, public, content) == Some(text)
    &&& forall|peer: Seq<u8>, sender: Seq<u8>|
        public_key_of(peer) == Some(public) && public_key_of(secret) == Some(sender)
            ==> #[trigger] nip04_text(peer, sender, content) == Some(text)
}

/// `nostr_sdk::nips::nip04::decrypt`: the text inside `content`, or nothing where
/// the keys do not open it. The result is named.
#[verifier::external_body]
pub(crate) fn decrypt(secret: &[u8; 32], public: &[u8; 32], content: &str) -> (text: Option<String>)
    ensures
        match text {
            Some(text) => nip04_text(secret@, public@, content@) == Some(text@),
            None => nip04_text(secret@, public@, content@) is None,
        },
{
    match SecretKey::from_slice(secret) {
        Ok(secret) => nip04::decrypt(&secret, &PublicKey::from_byte_array(*public), content).ok(),
        Err(_) => None,
    }
}

/// `nostr_sdk::nips::nip04::encrypt`: a message that holds `text`, under a vector
/// drawn at random. It is made whenever both keys are keys. Whatever the draw, both
/// ends of the exchange read `text` in it: the sender with the keys given here, and
/// the holder of the secret key behind `public` with the sender's public key, since
/// the two derive one shared key. Which of the possible messages comes out is not
/// said.
#[verifier::external_body]
pub(crate) fn encrypt(secret: &[u8; 32], public: &[u8; 32], text: &str) -> (content: Option<String>)
    ensures
        content is Some <==> (public_key_of(secret@) is Some && is_public_key(public@)),
        content matches Some(sealed) ==> nip04_seals(secret@, public@, text@, sealed@),
{
    match SecretKey::from_slice(secret) {
        Ok(secret) => nip04::encrypt(&secret, &PublicKey::from_byte_array(*public), text).ok(),
        Err(_) => None,
    }
}

} // verus!
