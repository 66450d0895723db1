//! Nostr events: those that come from a relay, and those that the wallet signs.
use nostr_sdk::{EventBuilder, JsonUtil, Kind, SecretKey, Tag, Url};
use vstd::array::array_as_slice;
use vstd::prelude::*;

use crate::hex_text::{hex_digits, hex_encode};
use crate::keys::public_key_of;

verus! {

/// The kind of an event that holds a response of a wallet.
pub const WALLET_CONNECT_RESPONSE: u16 = 23195;

/// The kind of an event that holds a request to a wallet.
pub const WALLET_CONNECT_REQUEST: u16 = 23194;

/// The kind of an event by which a client proves to a relay who it is.
pub const AUTHENTICATION: u16 = 22242;

/// An event that a relay handed over. It is made only from a message of a relay, so
/// that its parts are those of its JSON text, but is not known yet to be genuine.
pub struct Event {
    id: [u8; 32],
    pubkey: [u8; 32],
    content: String,
    json: String,
}

/// The contents of an [`Event`].
pub struct EventView {
    /// The id that the event claims.
    pub id: Seq<u8>,
    /// The public key that the event claims to be from.
    pub pubkey: Seq<u8>,
    /// The content.
    pub content: Seq<char>,
    /// The whole event, with its signature, as JSON.
    pub json: Seq<char>,
}

impl View for Event {
    type V = EventView;

    closed spec fn view(&self) -> EventView {
        EventView {
            id: self.id@,
            pubkey: self.pubkey@,
            content: self.content@,
            json: self.json@,
        }
    }
}

/// What an event says, as its JSON text spells it out.
pub struct EventParts {
    pub id: Seq<u8>,
    pub pubkey: Seq<u8>,
    pub kind: u16,
    pub tags: Seq<Seq<Seq<char>>>,
    pub content: Seq<char>,
}

/// The event that `nostr_sdk` reads in a JSON text.
pub uninterp spec fn event_of_json(json: Seq<char>) -> Option<EventParts>;

impl EventView {
    /// The parts of the event are those that its JSON text spells out.
    pub open spec fn is_whole(self) -> bool {
        &&& event_of_json(self.json) matches Some(parts)
        &&& parts.id == self.id
        &&& parts.pubkey == self.pubkey
        &&& parts.content == self.content
    }
}

impl Event {
    #[verifier::type_invariant]
    spec fn inv(self) -> bool {
        self@.is_whole()
    }

    /// The id that the event claims.
    pub fn id(&self) -> (id: [u8; 32])
        ensures
            id@ == self@.id,
    {
        self.id
    }

    /// The public key that the event claims to be from.
    pub fn pubkey(&self) -> (pubkey: [u8; 32])
        ensures
            pubkey@ == self@.pubkey,
    {
        self.pubkey
    }

    /// The content.
    pub fn content(&self) -> (content: &str)
        ensures
            content@ == self@.content,
    {
        self.content.as_str()
    }

    /// Whether the event has the id and the signature that belong to it.
    pub fn verify(&self) -> (genuine: bool)
        ensures
            genuine == is_genuine(self@.json),
            self@.is_whole(),
    {
        proof {
            use_type_invariant(self);
        }
        verify_json(self.json.as_str())
    }
}

/// Whether the event that a JSON text spells out has the id and the signature that
/// belong to it.
pub uninterp spec fn is_genuine(json: Seq<char>) -> bool;

/// `nostr_sdk::Event::verify`: whether the event in `json` has the id and the
/// signature that belong to it. The result is named; a text that holds no event is
/// not genuine.
#[verifier::external_body]
fn verify_json(json: &str) -> (genuine: bool)
    ensures
        genuine == is_genuine(json@),
{
    match nostr_sdk::Event::from_json(json) {
        Ok(event) => event.verify().is_ok(),
        Err(_) => false,
    }
}

/// A message of a relay, as far as the wallet looks at it.
pub enum RelayMessage {
    /// An event that matches a subscription.
    Event { event: Event },
    /// The relay asks the wallet to prove who it is.
    Auth { challenge: String },
    /// Any other message.
    Other,
}

/// The contents of a [`RelayMessage`].
pub enum RelayMessageView {
    Event { event: EventView },
    Auth { challenge: Seq<char> },
    Other,
}

impl View for RelayMessage {
    type V = RelayMessageView;

    open spec fn view(&self) -> RelayMessageView {
        match self {
            RelayMessage::Event { event } => RelayMessageView::Event { event: event@ },
            RelayMessage::Auth { challenge } => RelayMessageView::Auth { challenge: challenge@ },
            RelayMessage::Other => RelayMessageView::Other,
        }
    }
}

/// The message of a relay that a text spells out.
pub uninterp spec fn message_of_text(text: Seq<char>) -> Option<RelayMessageView>;

/// `nostr_sdk::RelayMessage::from_json`: reads a message of a relay, and of an event
/// in it the parts that the wallet looks at, with the JSON text of the whole event. The
/// result is named; beside the name stands that `Event::from_json` reads the same parts in
/// that text.
#[verifier::external_body]
pub(crate) fn parse_message(text: &str) -> (message: Option<RelayMessage>)
    ensures
        match message {
            Some(message) => message_of_text(text@) == Some(message@),
            None => message_of_text(text@) is None,
        },
        message matches Some(RelayMessage::Event { event }) ==> match event_of_json(event@.json) {
            Some(parts) => {
                &&& parts.id == event@.id
                &&& parts.pubkey == event@.pubkey
                &&& parts.content == event@.content
            },
            None => false,
        },
{
    match nostr_sdk::RelayMessage::from_json(text) {
        Ok(nostr_sdk::RelayMessage::Event { event, .. }) => Some(RelayMessage::Event { event: Event {
            id: event.id.to_bytes(),
            pubkey: event.pubkey.to_bytes(),
            content: event.content.clone(),
            json: event.as_json(),
        } }),
        Ok(nostr_sdk::RelayMessage::Auth { challenge }) => Some(RelayMessage::Auth {
            challenge: challenge.to_string(),
        }),
        Ok(_) => Some(RelayMessage::Other),
        Err(_) => None,
    }
}

/// An event that the wallet signed.
#[derive(Debug)]
pub struct SignedEvent {
    /// The id of the event.
    pub id: [u8; 32],
    /// The public key that signed.
    pub pubkey: [u8; 32],
    /// The kind of the event.
    pub kind: u16,
    /// The tags, each a list of texts.
    pub tags: Vec<Vec<String>>,
    /// The content.
    pub content: String,
    /// The whole event, with its signature, as JSON.
    pub json: String,
}

/// The texts in some tags.
pub open spec fn tags_view(tags: Seq<Vec<String>>) -> Seq<Seq<Seq<char>>> {
    tags.map_values(|tag: Vec<String>| tag@.map_values(|text: String| text@))
}

/// The contents of a [`SignedEvent`].
pub struct SignedEventView {
    pub id: Seq<u8>,
    pub pubkey: Seq<u8>,
    pub kind: u16,
    pub tags: Seq<Seq<Seq<char>>>,
    pub content: Seq<char>,
    pub json: Seq<char>,
}

impl View for SignedEvent {
    type V = SignedEventView;

    open spec fn view(&self) -> SignedEventView {
        SignedEventView {
            id: self.id@,
            pubkey: self.pubkey@,
            kind: self.kind,
            tags: tags_view(self.tags@),
            content: self.content@,
            json: self.json@,
        }
    }
}

impl SignedEventView {
    /// What the event says.
    pub open spec fn parts(self) -> EventParts {
        EventParts {
            id: self.id,
            pubkey: self.pubkey,
            kind: self.kind,
            tags: self.tags,
            content: self.content,
        }
    }
}

/// The tag that names the public key an event is meant for.
pub open spec fn public_key_tag(public: Seq<u8>) -> Seq<Seq<char>> {
    seq!["p"@, hex_digits(public)]
}

/// The tag that names the event an event answers.
pub open spec fn event_tag(id: Seq<u8>) -> Seq<Seq<char>> {
    seq!["e"@, hex_digits(id)]
}

/// The tags of an authentication event.
pub open spec fn auth_tags(challenge: Seq<char>, relay: Seq<char>) -> Seq<Seq<Seq<char>>> {
    seq![seq!["challenge"@, challenge], seq!["relay"@, relay]]
}

/// The event is genuine, comes from the holder of `secret`, holds what is given, and
/// says so in its JSON text.
pub open spec fn is_signed(
    event: SignedEventView,
    secret: Seq<u8>,
    kind: u16,
    content: Seq<char>,
    tags: Seq<Seq<Seq<char>>>,
) -> bool {
    &&& is_genuine(event.json)
    &&& event_of_json(event.json) == Some(event.parts())
    &&& public_key_of(secret) == Some(event.pubkey)
    &&& event.kind == kind
    &&& event.content == content
    &&& event.tags == tags
}

/// `nostr_sdk::EventBuilder::sign_with_keys` on an event of the given kind, content and
/// tags, none of which is empty. It signs whenever `secret` is a secret key, and the event
/// then holds what was handed over; `Event::from_json` reads the same in its JSON text. The
/// time in the event, the random part of its signature and with them the JSON text itself
/// are not said.
#[verifier::external_body]
pub(crate) fn sign_event(
    secret: &[u8; 32],
    kind: u16,
    content: &str,
    tags: &Vec<Vec<String>>,
) -> (event: Option<SignedEvent>)
    requires
        forall|i: int| 0 <= i < tags@.len() ==> (#[trigger] tags@[i])@.len() > 0,
    ensures
        event is Some <==> public_key_of(secret@) is Some,
        event matches Some(signed) ==> event_of_json(signed.json@) == Some(signed@.parts()),
        event matches Some(signed) ==> is_signed(
            signed@,
            secret@,
            kind,
            content@,
            tags_view(tags@),
        ),
{
    let keys = nostr_sdk::Keys::new(SecretKey::from_slice(secret).ok()?);
    let tags: Result<Vec<Tag>, _> = tags.iter().map(|tag| Tag::parse(tag.clone())).collect();
    let builder = EventBuilder::new(Kind::from(kind), content).tags(tags.ok()?);
    let event = builder.allow_self_tagging().sign_with_keys(&keys).ok()?;
    Some(SignedEvent {
        id: event.id.to_bytes(),
        pubkey: event.pubkey.to_bytes(),
        kind: event.kind.as_u16(),
        tags: event.tags.iter().map(|tag| tag.as_slice().to_vec()).collect(),
        json: event.as_json(),
        content: event.content,
    })
}

/// A tag of two texts.
fn tag_of(name: &str, text: String) -> (tag: Vec<String>)
    ensures
        tag@.map_values(|text: String| text@) == seq![name@, text@],
        tag@.len() == 2,
{
    let tag = vec![name.to_owned(), text];
    assert(tag@.map_values(|text: String| text@) =~= seq![name@, text@]);
    tag
}

/// Signs an event of the given kind and content that answers the event `request` of the
/// public key `to`.
pub(crate) fn sign_answer(
    secret: &[u8; 32],
    kind: u16,
    content: &str,
    to: &[u8; 32],
    request: &[u8; 32],
) -> (event: Option<SignedEvent>)
    ensures
        event is Some <==> public_key_of(secret@) is Some,
        event matches Some(signed) ==> is_signed(
            signed@,
            secret@,
            kind,
            content@,
            seq![public_key_tag(to@), event_tag(request@)],
        ),
{
    let tags = vec![
        tag_of("p", hex_encode(array_as_slice(to))),
        tag_of("e", hex_encode(array_as_slice(request))),
    ];
    assert(tags_view(tags@) =~= seq![public_key_tag(to@), event_tag(request@)]);
    sign_event(secret, kind, content, &tags)
}

/// Signs the event that answers the challenge of the relay with the given address.
pub(crate) fn sign_auth(secret: &[u8; 32], challenge: &str, relay: &str) -> (event: Option<
    SignedEvent,
>)
    ensures
        event is Some <==> public_key_of(secret@) is Some,
        event matches Some(signed) ==> is_signed(
            signed@,
            secret@,
            AUTHENTICATION,
            ""@,
            auth_tags(challenge@, relay@),
        ),
{
    let tags = vec![
        tag_of("challenge", challenge.to_owned()),
        tag_of("relay", relay.to_owned()),
    ];
    assert(tags_view(tags@) =~= auth_tags(challenge@, relay@));
    sign_event(secret, AUTHENTICATION, "", &tags)
}

/// The address that a text stands for, written out.
pub uninterp spec fn relay_of_text(text: Seq<char>) -> Option<Seq<char>>;

/// `nostr_sdk::Url::parse`: reads an address and writes it out. The result is named.
#[verifier::external_body]
pub(crate) fn parse_relay(text: &str) -> (relay: Option<String>)
    ensures
        match relay {
            Some(relay) => relay_of_text(text@) == Some(relay@),
            None => relay_of_text(text@) is None,
        },
{
    match Url::parse(text) {
        Ok(relay) => Some(relay.to_string()),
        Err(_) => None,
    }
}

/// The tags by which a relay's challenge is answered are two: the challenge as the relay sent
/// it, and the address of the relay, both whole. So different challenges, and different
/// relays, get different answers.
pub proof fn law_auth_tags_hold_the_challenge(challenge: Seq<char>, relay: Seq<char>)
    ensures
        auth_tags(challenge, relay).len() == 2,
        auth_tags(challenge, relay)[0].len() == 2,
        auth_tags(challenge, relay)[0][0] == "challenge"@,
        auth_tags(challenge, relay)[0][1] == challenge,
        auth_tags(challenge, relay)[1].len() == 2,
        auth_tags(challenge, relay)[1][0] == "relay"@,
        auth_tags(challenge, relay)[1][1] == relay,
{
}

/// A tag names a public key, or an event, by all its bytes.
pub proof fn law_tags_name_keys_and_events(bytes: Seq<u8>)
    ensures
        public_key_tag(bytes).len() == 2,
        public_key_tag(bytes)[0] == "p"@,
        public_key_tag(bytes)[1] == hex_digits(bytes),
        event_tag(bytes).len() == 2,
        event_tag(bytes)[0] == "e"@,
        event_tag(bytes)[1] == hex_digits(bytes),
        hex_digits(bytes).len() == 2 * bytes.len(),
{
}

/// Whoever reads the JSON text of a signed event finds there the kind, the content and the
/// tags that were to be signed, from the holder of the secret key.
pub proof fn law_signed_events_say_what_was_signed(
    event: SignedEventView,
    secret: Seq<u8>,
    kind: u16,
    content: Seq<char>,
    tags: Seq<Seq<Seq<char>>>,
)
    requires
        is_signed(event, secret, kind, content, tags),
    ensures
        is_genuine(event.json),
        event_of_json(event.json) matches Some(parts) && {
            &&& public_key_of(secret) == Some(parts.pubkey)
            &&& parts.kind == kind
            &&& parts.content == content
            &&& parts.tags == tags
            &&& parts.id == event.id
        },
{
}

/// What is said of a signed event is what it holds.
pub proof fn law_signed_events_are_seen_whole(event: SignedEvent)
    ensures
        event@.id == event.id@,
        event@.pubkey == event.pubkey@,
        event@.kind == event.kind,
        event@.content == event.content@,
        event@.json == event.json@,
        event@.tags.len() == event.tags@.len(),
        forall|i: int|
            0 <= i < event.tags@.len() ==> (#[trigger] event@.tags[i]).len()
                == event.tags@[i]@.len(),
        forall|i: int, j: int|
            0 <= i < event.tags@.len() && 0 <= j < event.tags@[i]@.len()
                ==> #[trigger] event@.tags[i][j] == event.tags@[i]@[j]@,
{
}

/// What is said of an event that a relay handed over is what it holds.
proof fn law_events_are_seen_whole(event: Event)
    ensures
        event@.id == event.id@,
        event@.pubkey == event.pubkey@,
        event@.content == event.content@,
        event@.json == event.json@,
{
}

/// What is said of a message is what it holds.
pub proof fn law_messages_are_seen_whole(message: RelayMessage)
    ensures
        match message {
            RelayMessage::Event { event } => message@ matches RelayMessageView::Event { event: seen }
                && seen == event@,
            RelayMessage::Auth { challenge } => message@ matches RelayMessageView::Auth {
                challenge: seen,
            } && seen == challenge@,
            RelayMessage::Other => message@ is Other,
        },
{
}

} // verus!
