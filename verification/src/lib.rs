//! A wallet that a Nostr client uses through Nostr Wallet Connect (NIP-47): what it accepts,
//! what it pays and what it answers.
pub mod amount;
pub mod client_request;
pub mod clock;
pub mod cln_nwc;
pub mod config;
pub mod event;
pub mod hex_text;
pub mod invoice;
pub mod json;
pub mod keys;
pub mod limits;
pub mod nip04;
pub mod nip47;
pub mod relay;
pub mod text;
