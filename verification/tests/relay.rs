use nostr_sdk::{ClientMessage, JsonUtil, Kind};
use nostr_wallet_connect::event::RelayMessage;
use nostr_wallet_connect::keys::Keys;
use nostr_wallet_connect::relay::{
    route, stream_step, subscription, ConnectStep, Connecting, Frame,
    StreamAction, StreamEvent,
};

fn step(frame: Frame) -> StreamAction {
    stream_step(StreamEvent::Frame { frame })
}

#[test]
fn a_relay_is_tried_500_times() {
    let mut connecting = Connecting::new();
    let mut waited = 0;
    for attempt in 0..500 {
        assert_eq!(connecting.step(), ConnectStep::Connect);
        let delay = connecting.failed();
        assert_eq!(delay, if attempt < 99 { 10 } else { 30 });
        waited += delay;
        if attempt == 98 {
            assert_eq!(waited, 990);
        }
    }
    assert_eq!(connecting.step(), ConnectStep::GiveUp);
    assert_eq!(waited, 3 * 3600 + 37 * 60);
}

#[test]
fn the_requests_of_the_client_are_subscribed_to() {
    let client = Keys::generate().public_key();
    let json = subscription(&client);
    let id = &json[8..40];
    assert!(id.chars().all(|c| c.is_ascii_digit() || ('a'..='f').contains(&c)));
    assert_eq!(
        json,
        format!("[\"REQ\",\"{}\",{{\"authors\":[\"{}\"],\"kinds\":[23194]}}]", id, hex::encode(client)),
    );
}

#[test]
fn subscriptions_have_fresh_names() {
    let client = Keys::generate().public_key();
    let mut names = Vec::new();
    for _ in 0..2 {
        match ClientMessage::from_json(subscription(&client)).unwrap() {
            ClientMessage::Req { subscription_id, filters } => {
                let filter = &filters[0];
                assert_eq!(filters.len(), 1);
                assert_eq!(filter.authors.as_ref().unwrap().len(), 1);
                let author = filter.authors.as_ref().unwrap().first().unwrap();
                assert_eq!(author.to_bytes(), client);
                let kind = filter.kinds.as_ref().unwrap().first().unwrap();
                assert_eq!(*kind, Kind::WalletConnectRequest);
                names.push(subscription_id.to_string());
            }
            _ => panic!("not a subscription"),
        }
    }
    assert_ne!(names[0], names[1]);
}

#[test]
fn frames_are_read_as_text() {
    assert_eq!(Frame::Text("a".to_string()).to_text().unwrap(), "a");
    assert_eq!(Frame::Binary("é".as_bytes().to_vec()).to_text().unwrap(), "é");
    assert_eq!(Frame::Binary(vec![0xff]).to_text(), None);
    assert_eq!(Frame::Ping(vec![0x68]).to_text().unwrap(), "h");
    assert_eq!(Frame::Ping(vec![0xc3]).to_text(), None);
    assert_eq!(Frame::Pong(vec![]).to_text().unwrap(), "");
    assert_eq!(Frame::Raw(vec![0x69]).to_text().unwrap(), "i");
    assert_eq!(Frame::Raw(vec![0xed, 0xa0, 0x80]).to_text(), None);
    assert_eq!(Frame::Close(None).to_text().unwrap(), "");
    assert_eq!(Frame::Close(Some("bye".to_string())).to_text().unwrap(), "bye");
}

#[test]
fn pings_are_answered() {
    assert!(Frame::Ping(vec![]).is_ping());
    assert!(!Frame::Pong(vec![]).is_ping());
    assert!(matches!(step(Frame::Ping(vec![])), StreamAction::Pong));
    assert!(matches!(step(Frame::Ping(b"[\"AUTH\",\"x\"]".to_vec())), StreamAction::Pong));
}

#[test]
fn pings_that_are_no_text_are_passed_over() {
    assert!(matches!(step(Frame::Ping(vec![0xff])), StreamAction::Read));
}

#[test]
fn challenges_are_delivered() {
    match step(Frame::Text("[\"AUTH\",\"challenge text\"]".to_string())) {
        StreamAction::Deliver { message: RelayMessage::Auth { challenge } } => {
            assert_eq!(challenge, "challenge text");
        }
        _ => panic!("not delivered"),
    }
    assert!(matches!(
        step(Frame::Binary(b"[\"AUTH\",\"x\"]".to_vec())),
        StreamAction::Deliver { message: RelayMessage::Auth { .. } },
    ));
}

#[test]
fn other_messages_are_passed_over() {
    assert!(matches!(step(Frame::Text("[\"NOTICE\",\"x\"]".to_string())), StreamAction::Read));
    assert!(matches!(step(Frame::Text("[\"EOSE\",\"x\"]".to_string())), StreamAction::Read));
    assert!(matches!(step(Frame::Text("hello".to_string())), StreamAction::Read));
    assert!(matches!(step(Frame::Binary(vec![0xff])), StreamAction::Read));
    assert!(matches!(step(Frame::Close(None)), StreamAction::Read));
    assert!(matches!(route(None), StreamAction::Read));
    assert!(matches!(route(Some(RelayMessage::Other)), StreamAction::Read));
}

#[test]
fn a_lost_connection_is_set_up_again() {
    assert!(matches!(stream_step(StreamEvent::ReadFailed), StreamAction::Reconnect));
    assert!(matches!(stream_step(StreamEvent::Reconnected), StreamAction::Read));
    assert!(matches!(stream_step(StreamEvent::ReconnectFailed), StreamAction::End));
}

#[test]
fn events_and_challenges_are_delivered_in_order() {
    let text = |text: &str| StreamEvent::Frame { frame: Frame::Text(text.to_string()) };
    let happened = vec![
        text("[\"AUTH\",\"1\"]"),
        text("[\"NOTICE\",\"x\"]"),
        StreamEvent::Frame { frame: Frame::Ping(b"[\"AUTH\",\"no\"]".to_vec()) },
        StreamEvent::Frame { frame: Frame::Binary(vec![0xff]) },
        StreamEvent::ReadFailed,
        StreamEvent::Reconnected,
        text("[\"AUTH\",\"2\"]"),
        text("garbage"),
        text("[\"AUTH\",\"2\"]"),
        StreamEvent::Frame { frame: Frame::Close(None) },
        text("[\"AUTH\",\"3\"]"),
    ];
    let mut delivered = Vec::new();
    for event in happened {
        match stream_step(event) {
            StreamAction::Deliver { message: RelayMessage::Auth { challenge } } => {
                delivered.push(challenge);
            }
            StreamAction::End => panic!("ended"),
            _ => {}
        }
    }
    assert_eq!(delivered, vec!["1", "2", "2", "3"]);
}
