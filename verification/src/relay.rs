//! The connection to the relay: how it is kept up, and what is read from it.
use nostr_sdk::{ClientMessage, Filter, JsonUtil, Kind, PublicKey, SubscriptionId};
use vstd::prelude::*;
use vstd::utf8::{decode_utf8, valid_utf8};

use crate::event::{
    message_of_text, parse_message, RelayMessage, RelayMessageView, WALLET_CONNECT_REQUEST,
};
use crate::hex_text::{hex_digits, is_hex};
use crate::json::{decimal, json_string, law_hex_is_spelled_as_it_is};
use crate::text::{decode_text, text_of_bytes};

verus! {

/// How often a connection to the relay is tried.
pub const MAX_RETRIES: u32 = 500;

/// The number of failures after which the wait gets longer.
pub const PATIENT_AFTER: u32 = 99;

/// The wait after each of the first failures, in seconds.
pub const SHORT_DELAY: u64 = 10;

/// The wait after each later failure, in seconds.
pub const LONG_DELAY: u64 = 30;

/// The wait, in seconds, after the attempt with the given number, counted from 0.
pub open spec fn delay_after(attempt: int) -> nat {
    if attempt < PATIENT_AFTER {
        SHORT_DELAY as nat
    } else {
        LONG_DELAY as nat
    }
}

/// The waiting, in seconds, after the first `attempts` attempts all failed.
pub open spec fn waiting(attempts: nat) -> nat
    decreases attempts,
{
    if attempts == 0 {
        0
    } else {
        waiting((attempts - 1) as nat) + delay_after(attempts - 1)
    }
}

/// What to do about a connection.
#[derive(Debug, Clone, Copy, PartialEq, Eq, Structural)]
pub enum ConnectStep {
    /// Try to connect.
    Connect,
    /// Stop trying.
    GiveUp,
}

/// The attempts to connect to the relay so far.
#[derive(Debug, Clone, Copy)]
pub struct Connecting {
    attempt: u32,
}

impl View for Connecting {
    type V = nat;

    /// The number of attempts that failed.
    closed spec fn view(&self) -> nat {
        self.attempt as nat
    }
}

impl Connecting {
    /// Nothing was tried yet.
    pub fn new() -> (connecting: Connecting)
        ensures
            connecting@ == 0,
    {
        Connecting { attempt: 0 }
    }

    /// What to do next.
    pub fn step(&self) -> (step: ConnectStep)
        ensures
            step == (if self@ < MAX_RETRIES {
                ConnectStep::Connect
            } else {
                ConnectStep::GiveUp
            }),
    {
        if self.attempt < MAX_RETRIES {
            ConnectStep::Connect
        } else {
            ConnectStep::GiveUp
        }
    }

    /// The attempt failed: how long to wait, in seconds, before the next step.
    pub fn failed(&mut self) -> (delay: u64)
        requires
            old(self)@ < MAX_RETRIES,
        ensures
            final(self)@ == old(self)@ + 1,
            delay == delay_after(old(self)@ as int),
    {
        let delay: u64 = if self.attempt < PATIENT_AFTER {
            SHORT_DELAY
        } else {
            LONG_DELAY
        };
        self.attempt = self.attempt + 1;
        delay
    }
}

/// The waiting after some failures: 10 seconds for each of the first 99, and 30 seconds for
/// each one after them.
pub proof fn law_waiting(attempts: nat)
    ensures
        attempts <= 99 ==> waiting(attempts) == attempts * 10,
        attempts > 99 ==> waiting(attempts) == 990 + (attempts - 99) * 30,
    decreases attempts,
{
    if attempts > 0 {
        law_waiting((attempts - 1) as nat);
    }
}

/// The message that subscribes, under the name `id`, to the events of one kind from one
/// author.
pub open spec fn subscription_json(id: Seq<char>, author: Seq<u8>, kind: u16) -> Seq<char> {
    "[\"REQ\","@ + json_string(id) + ",{\"authors\":[\""@ + hex_digits(author)
        + "\"],\"kinds\":["@ + decimal(kind as nat) + "]}]"@
}

/// `nostr_sdk::SubscriptionId::generate`: a name for a subscription, the hexadecimal text
/// of 16 bytes drawn at random. Of the draw nothing is said.
#[verifier::external_body]
fn generate_subscription_id() -> (id: String)
    ensures
        is_hex(id@, 16),
{
    SubscriptionId::generate().to_string()
}

/// `nostr_sdk::ClientMessage::req` as JSON: the message that subscribes, under the name
/// `id`, to the events of one kind from one author.
#[verifier::external_body]
fn encode_subscription(id: &str, author: &[u8; 32], kind: u16) -> (json: String)
    ensures
        json@ == subscription_json(id@, author@, kind),
{
    let author = PublicKey::from_byte_array(*author);
    let filter = Filter::new().author(author).kind(Kind::from(kind));
    ClientMessage::req(SubscriptionId::new(id), vec![filter]).as_json()
}

/// The message that subscribes, under a fresh name, to the requests of a client.
pub fn subscription(client: &[u8; 32]) -> (json: String)
    ensures
        exists|id: Seq<char>|
            {
                &&& is_hex(id, 16)
                &&& json@ == #[trigger] subscription_json(id, client@, WALLET_CONNECT_REQUEST)
            },
{
    let id = generate_subscription_id();
    encode_subscription(id.as_str(), client, WALLET_CONNECT_REQUEST)
}

/// What the relay sends over the web socket.
#[derive(Debug)]
pub enum Frame {
    Text(String),
    Binary(Vec<u8>),
    Ping(Vec<u8>),
    Pong(Vec<u8>),
    /// The end of the connection, with a reason.
    Close(Option<String>),
    /// A frame that is no message by itself.
    Raw(Vec<u8>),
}

impl Frame {
    /// The frame read as text, where it can be. A connection that ends without a reason
    /// reads as no characters.
    pub open spec fn text(self) -> Option<Seq<char>> {
        match self {
            Frame::Text(text) => Some(text@),
            Frame::Binary(bytes) => text_of_bytes(bytes@),
            Frame::Ping(bytes) => text_of_bytes(bytes@),
            Frame::Pong(bytes) => text_of_bytes(bytes@),
            Frame::Close(Some(reason)) => Some(reason@),
            Frame::Close(None) => Some(Seq::empty()),
            Frame::Raw(bytes) => text_of_bytes(bytes@),
        }
    }

    /// The frame read as text, where it can be.
    pub fn to_text(&self) -> (text: Option<String>)
        ensures
            match text {
                Some(text) => self.text() == Some(text@),
                None => self.text() is None,
            },
    {
        match self {
            Frame::Text(text) => Some(text.clone()),
            Frame::Binary(bytes) => decode_text(bytes.as_slice()),
            Frame::Ping(bytes) => decode_text(bytes.as_slice()),
            Frame::Pong(bytes) => decode_text(bytes.as_slice()),
            Frame::Close(Some(reason)) => Some(reason.clone()),
            Frame::Close(None) => Some(String::new()),
            Frame::Raw(bytes) => decode_text(bytes.as_slice()),
        }
    }

    /// Whether the relay asks for a sign of life.
    pub fn is_ping(&self) -> (ping: bool)
        ensures
            ping == self is Ping,
    {
        match self {
            Frame::Ping(_) => true,
            _ => false,
        }
    }
}

/// What happened on the connection.
pub enum StreamEvent {
    /// A frame was read.
    Frame { frame: Frame },
    /// Reading failed.
    ReadFailed,
    /// The connection was set up again.
    Reconnected,
    /// The connection could not be set up again.
    ReconnectFailed,
}

/// What to do on the connection.
pub enum StreamAction {
    /// Read the next frame.
    Read,
    /// Send a sign of life, then read the next frame.
    Pong,
    /// Hand a message to the wallet.
    Deliver { message: RelayMessage },
    /// Set the connection up again.
    Reconnect,
    /// The stream of messages ends.
    End,
}

/// The contents of a [`StreamAction`].
pub enum StreamActionView {
    Read,
    Pong,
    Deliver { message: RelayMessageView },
    Reconnect,
    End,
}

impl View for StreamAction {
    type V = StreamActionView;

    open spec fn view(&self) -> StreamActionView {
        match self {
            StreamAction::Read => StreamActionView::Read,
            StreamAction::Pong => StreamActionView::Pong,
            StreamAction::Deliver { message } => StreamActionView::Deliver { message: message@ },
            StreamAction::Reconnect => StreamActionView::Reconnect,
            StreamAction::End => StreamActionView::End,
        }
    }
}

/// Events and challenges are handed to the wallet. Other messages, and texts that are none,
/// are passed over.
pub open spec fn routing(message: Option<RelayMessageView>) -> StreamActionView {
    match message {
        Some(RelayMessageView::Event { event }) => StreamActionView::Deliver {
            message: RelayMessageView::Event { event },
        },
        Some(RelayMessageView::Auth { challenge }) => StreamActionView::Deliver {
            message: RelayMessageView::Auth { challenge },
        },
        Some(RelayMessageView::Other) => StreamActionView::Read,
        None => StreamActionView::Read,
    }
}

/// What to do about a frame: one that is no text is passed over, a ping is answered, and
/// any other is read as a message.
pub open spec fn frame_action(frame: Frame) -> StreamActionView {
    match frame.text() {
        None => StreamActionView::Read,
        Some(text) => if frame is Ping {
            StreamActionView::Pong
        } else {
            routing(message_of_text(text))
        },
    }
}

/// What to do about what happened on the connection.
pub open spec fn stream_action(event: StreamEvent) -> StreamActionView {
    match event {
        StreamEvent::Frame { frame } => frame_action(frame),
        StreamEvent::ReadFailed => StreamActionView::Reconnect,
        StreamEvent::Reconnected => StreamActionView::Read,
        StreamEvent::ReconnectFailed => StreamActionView::End,
    }
}

/// Decides what to do about a message of the relay, or about a text that is none.
pub fn route(message: Option<RelayMessage>) -> (action: StreamAction)
    ensures
        action@ == routing(
            match message {
                Some(message) => Some(message@),
                None => None,
            },
        ),
{
    match message {
        Some(RelayMessage::Event { event }) => StreamAction::Deliver {
            message: RelayMessage::Event { event },
        },
        Some(RelayMessage::Auth { challenge }) => StreamAction::Deliver {
            message: RelayMessage::Auth { challenge },
        },
        Some(RelayMessage::Other) => StreamAction::Read,
        None => StreamAction::Read,
    }
}

/// Decides what to do about what happened on the connection.
pub fn stream_step(event: StreamEvent) -> (action: StreamAction)
    ensures
        action@ == stream_action(event),
{
    match event {
        StreamEvent::Frame { frame } => match frame.to_text() {
            None => StreamAction::Read,
            Some(text) => if frame.is_ping() {
                StreamAction::Pong
            } else {
                route(parse_message(text.as_str()))
            },
        },
        StreamEvent::ReadFailed => StreamAction::Reconnect,
        StreamEvent::Reconnected => StreamAction::Read,
        StreamEvent::ReconnectFailed => StreamAction::End,
    }
}

/// The event or challenge that was read, where it was one that the wallet acts on: a frame
/// other than a ping whose text spells it out.
pub open spec fn message_in(event: StreamEvent) -> Option<RelayMessageView> {
    match event {
        StreamEvent::Frame { frame } => match frame.text() {
            Some(text) => match message_of_text(text) {
                Some(message) => if frame is Ping || message is Other {
                    None
                } else {
                    Some(message)
                },
                None => None,
            },
            None => None,
        },
        _ => None,
    }
}

/// The stream ended at one of the events.
pub open spec fn has_ended(events: Seq<StreamEvent>) -> bool
    decreases events.len(),
{
    events.len() > 0 && (has_ended(events.drop_last()) || stream_action(events.last()) is End)
}

/// What was handed to the wallet while the events happened, one after another, until the
/// stream ended.
pub open spec fn deliveries(events: Seq<StreamEvent>) -> Seq<RelayMessageView>
    decreases events.len(),
{
    if events.len() == 0 {
        Seq::empty()
    } else {
        let before = deliveries(events.drop_last());
        if has_ended(events.drop_last()) {
            before
        } else {
            match stream_action(events.last()) {
                StreamActionView::Deliver { message } => before.push(message),
                _ => before,
            }
        }
    }
}

/// As long as the connection could be set up again whenever it was lost, the stream goes on,
/// and the wallet gets exactly the events and challenges that were read, in the order in
/// which they were read and each once; whatever else was read is passed over. Once the
/// connection could not be set up again, the stream has ended, and nothing more is handed
/// over.
pub proof fn law_deliveries(events: Seq<StreamEvent>)
    ensures
        has_ended(events) <==> events.contains(StreamEvent::ReconnectFailed),
        !has_ended(events) ==> deliveries(events) == events.filter_map(
            |event: StreamEvent| message_in(event),
        ),
        forall|n: int|
            0 <= n <= events.len() && has_ended(#[trigger] events.take(n)) ==> deliveries(events)
                == deliveries(events.take(n)),
    decreases events.len(),
{
    let wanted = |event: StreamEvent| message_in(event);
    if events.len() > 0 {
        let earlier = events.drop_last();
        let last = events.last();
        law_deliveries(earlier);
        assert(events =~= earlier.push(last));
        if earlier.contains(StreamEvent::ReconnectFailed) {
            let i = choose|i: int|
                0 <= i < earlier.len() && earlier[i] == StreamEvent::ReconnectFailed;
            assert(events[i] == StreamEvent::ReconnectFailed);
        }
        if last is ReconnectFailed {
            assert(events[events.len() - 1] == StreamEvent::ReconnectFailed);
        }
        if !has_ended(events) {
            assert(deliveries(events) =~= events.filter_map(wanted));
        }
        assert forall|n: int|
            0 <= n <= events.len() && has_ended(#[trigger] events.take(n)) implies deliveries(
            events,
        ) == deliveries(events.take(n)) by {
            if n < events.len() {
                assert(events.take(n) =~= earlier.take(n));
                lemma_ended_stays_ended(earlier, n);
            } else {
                assert(events.take(n) =~= events);
            }
        }
    }
}

/// A stream that has ended does not go on.
proof fn lemma_ended_stays_ended(events: Seq<StreamEvent>, n: int)
    requires
        0 <= n <= events.len(),
        has_ended(events.take(n)),
    ensures
        has_ended(events),
    decreases events.len() - n,
{
    if n < events.len() {
        assert(events.take(n + 1).drop_last() =~= events.take(n));
        lemma_ended_stays_ended(events, n + 1);
    } else {
        assert(events.take(n) =~= events);
    }
}

/// What comes of a frame that can be read: a ping is answered; any other is handed over if and
/// only if what is read spells out an event or a challenge, which is then handed over as it
/// was read, and is passed over otherwise.
pub proof fn law_frames(frame: Frame, read: Seq<char>)
    requires
        match frame {
            Frame::Text(text) => read == text@,
            Frame::Close(Some(reason)) => read == reason@,
            Frame::Close(None) => read.len() == 0,
            Frame::Binary(bytes) => valid_utf8(bytes@) && read == decode_utf8(bytes@),
            Frame::Ping(bytes) => valid_utf8(bytes@) && read == decode_utf8(bytes@),
            Frame::Pong(bytes) => valid_utf8(bytes@) && read == decode_utf8(bytes@),
            Frame::Raw(bytes) => valid_utf8(bytes@) && read == decode_utf8(bytes@),
        },
    ensures
        ({
            let action = stream_action(StreamEvent::Frame { frame });
            &&& frame is Ping ==> action is Pong
            &&& !(frame is Ping) ==> match message_of_text(read) {
                Some(RelayMessageView::Event { event }) => action == (StreamActionView::Deliver {
                    message: RelayMessageView::Event { event },
                }),
                Some(RelayMessageView::Auth { challenge }) => action == (
                StreamActionView::Deliver { message: RelayMessageView::Auth { challenge } }),
                _ => action is Read,
            }
        }),
{
    if frame == Frame::Close(None) {
        assert(read =~= Seq::<char>::empty());
    }
}

/// A frame whose bytes are not UTF-8 is passed over, whatever it is.
pub proof fn law_frames_that_are_no_text(frame: Frame, bytes: Vec<u8>)
    requires
        !valid_utf8(bytes@),
        ({
            ||| frame == Frame::Binary(bytes)
            ||| frame == Frame::Ping(bytes)
            ||| frame == Frame::Pong(bytes)
            ||| frame == Frame::Raw(bytes)
        }),
    ensures
        stream_action(StreamEvent::Frame { frame }) is Read,
{
}

/// A lost connection is set up again; where that fails, the stream ends, and otherwise it goes
/// on.
pub proof fn law_lost_connections(event: StreamEvent)
    ensures
        event is ReadFailed ==> stream_action(event) is Reconnect,
        event is Reconnected ==> stream_action(event) is Read,
        event is ReconnectFailed <==> stream_action(event) is End,
        stream_action(event) is Reconnect ==> event is ReadFailed,
{
}

/// What is read of a frame is all of it.
pub proof fn law_frames_are_read_whole(text: String, bytes: Vec<u8>)
    ensures
        Frame::Text(text).text() == Some(text@),
        Frame::Close(Some(text)).text() == Some(text@),
        valid_utf8(bytes@) ==> {
            &&& Frame::Binary(bytes).text() == Some(decode_utf8(bytes@))
            &&& Frame::Ping(bytes).text() == Some(decode_utf8(bytes@))
            &&& Frame::Pong(bytes).text() == Some(decode_utf8(bytes@))
            &&& Frame::Raw(bytes).text() == Some(decode_utf8(bytes@))
        },
        !valid_utf8(bytes@) ==> {
            &&& Frame::Binary(bytes).text() is None
            &&& Frame::Ping(bytes).text() is None
            &&& Frame::Pong(bytes).text() is None
            &&& Frame::Raw(bytes).text() is None
        },
{
}

/// A message is handed over as it was read, if it is an event or a challenge.
pub proof fn law_routing(message: RelayMessageView)
    ensures
        message is Other ==> routing(Some(message)) is Read,
        !(message is Other) ==> routing(Some(message)) == (StreamActionView::Deliver { message }),
        routing(None) is Read,
{
}

/// What is said of an action is what it holds.
pub proof fn law_actions_are_seen_whole(action: StreamAction)
    ensures
        match action {
            StreamAction::Read => action@ is Read,
            StreamAction::Pong => action@ is Pong,
            StreamAction::Deliver { message } => action@ matches StreamActionView::Deliver {
                message: seen,
            } && seen == message@,
            StreamAction::Reconnect => action@ is Reconnect,
            StreamAction::End => action@ is End,
        },
{
}

/// The wait is 10 seconds after each of the first 99 attempts, and 30 seconds after each
/// later one; there are 500 attempts.
pub proof fn law_delays(attempt: int)
    ensures
        attempt < 99 ==> delay_after(attempt) == 10,
        attempt >= 99 ==> delay_after(attempt) == 30,
        MAX_RETRIES == 500,
{
}

/// The message that subscribes asks, under its name, for the requests of one author, whose key
/// it spells in full.
pub proof fn law_text_of_a_subscription(id: Seq<char>, author: Seq<u8>)
    requires
        is_hex(id, 16),
    ensures
        subscription_json(id, author, WALLET_CONNECT_REQUEST) == "[\"REQ\",\""@ + id
            + "\",{\"authors\":[\""@ + hex_digits(author) + "\"],\"kinds\":[23194]}]"@,
        id.len() == 32,
{
    let bytes = choose|bytes: Seq<u8>| bytes.len() == 16 && #[trigger] hex_digits(bytes) == id;
    law_hex_is_spelled_as_it_is(bytes);
    reveal_with_fuel(decimal, 5);
    reveal_strlit("[\"REQ\",");
    reveal_strlit(",{\"authors\":[\"");
    reveal_strlit("\"],\"kinds\":[");
    reveal_strlit("]}]");
    reveal_strlit("[\"REQ\",\"");
    reveal_strlit("\",{\"authors\":[\"");
    reveal_strlit("\"],\"kinds\":[23194]}]");
    assert(decimal(23194) =~= seq!['2', '3', '1', '9', '4']);
    assert(subscription_json(id, author, WALLET_CONNECT_REQUEST) =~= "[\"REQ\",\""@ + id
        + "\",{\"authors\":[\""@ + hex_digits(author) + "\"],\"kinds\":[23194]}]"@);
}

/// What is said of the attempts is how many there were.
proof fn law_attempts_are_counted(connecting: Connecting)
    ensures
        connecting@ == connecting.attempt,
{
}

} // verus!
