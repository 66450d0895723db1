//! Nostr key pairs.
use vstd::prelude::*;

verus! {

/// The public key that belongs to a secret key, where the 32 bytes are a secret
/// key at all.
pub uninterp spec fn public_key_of(secret: Seq<u8>) -> Option<Seq<u8>>;

/// Whether 32 bytes are the x coordinate of a point of the curve, as every
/// public key is.
pub uninterp spec fn is_public_key(bytes: Seq<u8>) -> bool;

/// The secret key that a text stands for, in hexadecimal or as an `nsec`, with
/// its public key.
pub uninterp spec fn keys_of_text(text: Seq<char>) -> Option<(Seq<u8>, Seq<u8>)>;

/// A secret key with its public key.
#[derive(Clone, Copy)]
pub struct Keys {
    secret: [u8; 32],
    public: [u8; 32],
}

/// What a key pair holds.
pub struct KeysView {
    pub secret: Seq<u8>,
    pub public: Seq<u8>,
}

impl KeysView {
    /// The public key is that of the secret key, and a point of the curve.
    pub open spec fn wf(self) -> bool {
        &&& public_key_of(self.secret) == Some(self.public)
        &&& is_public_key(self.public)
    }
}

impl View for Keys {
    type V = KeysView;

    closed spec fn view(&self) -> KeysView {
        KeysView { secret: self.secret@, public: self.public@ }
    }
}

/// Why a key pair could not be had.
#[derive(Debug, Clone, Copy, PartialEq, Eq, Structural)]
pub enum KeyError {
    /// The text is neither a secret key in hexadecimal nor an `nsec`.
    InvalidSecretKey,
}

impl Keys {
    #[verifier::type_invariant]
    spec fn inv(self) -> bool {
        self@.wf()
    }

    /// The public key.
    pub fn public_key(&self) -> (public: [u8; 32])
        ensures
            public@ == self@.public,
            self@.wf(),
    {
        proof {
            use_type_invariant(self);
        }
        self.public
    }

    /// The secret key.
    pub fn secret_key(&self) -> (secret: [u8; 32])
        ensures
            secret@ == self@.secret,
            self@.wf(),
    {
        proof {
            use_type_invariant(self);
        }
        self.secret
    }

    /// Reads a secret key, in hexadecimal or as an `nsec`, and derives its
    /// public key.
    pub fn parse(text: &str) -> (keys: Result<Keys, KeyError>)
        ensures
            match keys {
                Ok(keys) => keys@.wf() && keys_of_text(text@) == Some(
                    (keys@.secret, keys@.public),
                ),
                Err(error) => error == KeyError::InvalidSecretKey && keys_of_text(text@) is None,
            },
    {
        match parse_keys(text) {
            Some(pair) => Ok(Keys { secret: pair.0, public: pair.1 }),
            None => Err(KeyError::InvalidSecretKey),
        }
    }

    /// A fresh key pair.
    pub fn generate() -> (keys: Keys)
        ensures
            keys@.wf(),
    {
        let pair = generate_keys();
        Keys { secret: pair.0, public: pair.1 }
    }
}

/// Whether two public keys are the same.
pub fn same_key(a: &[u8; 32], b: &[u8; 32]) -> (same: bool)
    ensures
        same == (a@ == b@),
{
    let mut i: usize = 0;
    while i < 32
        invariant
            i <= 32,
            forall|j: int| 0 <= j < i ==> a@[j] == b@[j],
        decreases 32 - i,
    {
        if a[i] != b[i] {
            return false;
        }
        i = i + 1;
    }
    assert(a@ =~= b@);
    true
}

/// The key pair of the given secret key, or a fresh one where none is given.
pub fn handle_keys(private_key: Option<String>) -> (keys: Result<Keys, KeyError>)
    ensures
        keys matches Ok(keys) ==> keys@.wf(),
        private_key is None ==> keys is Ok,
        private_key matches Some(text) ==> match keys {
            Ok(keys) => keys_of_text(text@) == Some((keys@.secret, keys@.public)),
            Err(error) => error == KeyError::InvalidSecretKey && keys_of_text(text@) is None,
        },
{
    match private_key {
        Some(text) => Keys::parse(text.as_str()),
        None => Ok(Keys::generate()),
    }
}

/// `nostr_sdk::Keys::parse`: reads a secret key in hexadecimal or as an `nsec`
/// and derives its public key. The result is named; beside the name stands that
/// the two keys belong together.
#[verifier::external_body]
fn parse_keys(text: &str) -> (keys: Option<([u8; 32], [u8; 32])>)
    ensures
        match keys {
            Some(pair) => keys_of_text(text@) == Some((pair.0@, pair.1@)),
            None => keys_of_text(text@) is None,
        },
        keys matches Some(pair) ==> public_key_of(pair.0@) == Some(pair.1@) && is_public_key(pair.1@),
{
    match nostr_sdk::Keys::parse(text) {
        Ok(keys) => Some((keys.secret_key().to_secret_bytes(), keys.public_key().to_bytes())),
        Err(_) => None,
    }
}

/// `nostr_sdk::Keys::generate`: a fresh secret key drawn at random, with its
/// public key. Of the draw nothing is said but that the two belong together.
#[verifier::external_body]
fn generate_keys() -> (pair: ([u8; 32], [u8; 32]))
    ensures
        public_key_of(pair.0@) == Some(pair.1@),
        is_public_key(pair.1@),
{
    let keys = nostr_sdk::Keys::generate();
    (keys.secret_key().to_secret_bytes(), keys.public_key().to_bytes())
}

/// What is said of a key pair is what it holds.
proof fn law_keys_are_seen_whole(keys: Keys)
    ensures
        keys@.secret == keys.secret@,
        keys@.public == keys.public@,
{
}

} // verus!
