use std::time::{Duration, Instant};

use nostr_sdk::nips::{nip04, nip47};
use nostr_sdk::{
    EventBuilder, JsonUtil, Keys as NostrKeys, Kind, PublicKey, RelayMessage as NostrMessage,
    SubscriptionId,
};
use nostr_wallet_connect::amount::Amount;
use nostr_wallet_connect::clock::Clock;
use nostr_wallet_connect::cln_nwc::{
    admit_payment, authorize, balance_of_reply, checked_total, settle_payment, Action,
    BalanceError, ClnNwc, FundsReply, PayError, PayReply, Payment, Refusal, SetupError,
};
use nostr_wallet_connect::event::{Event, RelayMessage, SignedEvent};
use nostr_wallet_connect::invoice::Invoice;
use nostr_wallet_connect::keys::Keys;
use nostr_wallet_connect::limits::{Limits, NANOS_IN_DAY, NANOS_IN_HOUR};
use nostr_wallet_connect::nip47::{NotImplemented, Request};
use nostr_wallet_connect::relay::{stream_step, Frame, StreamAction, StreamEvent};

const CLIENT: &str = "6b911fd37cdf5c81d4c0adb1ab7fa822ed253ab0ad9aa18d77257c88b29b718e";
const WALLET: &str = "7b911fd37cdf5c81d4c0adb1ab7fa822ed253ab0ad9aa18d77257c88b29b718e";

/// An invoice over 250 000 000 msat.
const COFFEE: &str = "lnbc2500u1pvjluezsp5zyg3zyg3zyg3zyg3zyg3zyg3zyg3zyg3zyg3zyg3zyg3zyg3zygspp5qqqsyqcyq5rqwzqfqqqsyqcyq5rqwzqfqqqsyqcyq5rqwzqfqypqdq5xysxxatsyp3k7enxv4jsxqzpu9qrsgquk0rl77nj30yxdy8j9vdx85fkpmdla2087ne0xh8nhedh8w27kyke0lp53ut353s06fv3qfegext0eh0ymjpf39tuven09sam30g4vgpfna3rh";

/// An invoice that names no amount.
const DONATION: &str = "lnbc1pvjluezsp5zyg3zyg3zyg3zyg3zyg3zyg3zyg3zyg3zyg3zyg3zyg3zyg3zygspp5qqqsyqcyq5rqwzqfqqqsyqcyq5rqwzqfqqqsyqcyq5rqwzqfqypqdpl2pkx2ctnv5sxxmmwwd5kgetjypeh2ursdae8g6twvus8g6rfwvs8qun0dfjkxaq9qrsgq357wnc5r2ueh7ck6q93dj32dlqnls087fxdwk8qakdyafkq3yap9us6v52vjjsrvywa6rt52cm9r9zqt8r2t7mlcwspyetp5h2tztugp9lfyql";

fn msat(msat: u64) -> Amount {
    Amount::from_msat(msat)
}

fn wallet(max_invoice: u64, hour_limit: u64, day_limit: u64) -> ClnNwc {
    ClnNwc::new(
        Keys::parse(CLIENT).unwrap(),
        Keys::parse(WALLET).unwrap(),
        "wss://relay.example.com/path/",
        Limits::new(msat(max_invoice), msat(hour_limit), msat(day_limit)),
    )
    .unwrap()
}

fn client() -> NostrKeys {
    NostrKeys::parse(CLIENT).unwrap()
}

fn wallet_keys() -> NostrKeys {
    NostrKeys::parse(WALLET).unwrap()
}

/// The message of a relay that hands over an event, as the stream delivers it.
fn delivered(event: &nostr_sdk::Event) -> RelayMessage {
    let text = NostrMessage::event(SubscriptionId::new("s"), event.clone()).as_json();
    match stream_step(StreamEvent::Frame { frame: Frame::Text(text) }) {
        StreamAction::Deliver { message } => message,
        _ => panic!("not delivered"),
    }
}

fn event_in(message: &RelayMessage) -> &Event {
    match message {
        RelayMessage::Event { event } => event,
        _ => panic!("not an event"),
    }
}

/// An event signed by `sender` that holds `text` as a message from the client to the wallet.
fn request_event(sender: &NostrKeys, text: &str) -> nostr_sdk::Event {
    let content = nip04::encrypt(client().secret_key(), &wallet_keys().public_key(), text).unwrap();
    EventBuilder::new(Kind::WalletConnectRequest, content).sign_with_keys(sender).unwrap()
}

fn pay_request(invoice: &str) -> String {
    format!("{{\"method\":\"pay_invoice\",\"params\":{{\"invoice\":\"{}\"}}}}", invoice)
}

const BALANCE_REQUEST: &str = "{\"method\":\"get_balance\",\"params\":{}}";

/// The response in an answer for `reader`, once everything about the answer was checked.
fn read_answer(answer: &SignedEvent, reader: &NostrKeys, request: &nostr_sdk::Event) -> String {
    let event = nostr_sdk::Event::from_json(&answer.json).unwrap();
    event.verify().unwrap();
    assert_eq!(event.pubkey, wallet_keys().public_key());
    assert_eq!(event.kind, Kind::WalletConnectResponse);
    let tags: Vec<Vec<String>> = event.tags.iter().map(|tag| tag.as_slice().to_vec()).collect();
    assert_eq!(
        tags,
        vec![
            vec!["p".to_string(), reader.public_key().to_hex()],
            vec!["e".to_string(), request.id.to_hex()],
        ],
    );
    assert_eq!(answer.pubkey, event.pubkey.to_bytes());
    assert_eq!(answer.kind, 23195);
    assert_eq!(answer.tags, tags);
    assert_eq!(answer.content, event.content);
    assert!(!event.content.contains("result_type"));
    nip04::decrypt(reader.secret_key(), &event.pubkey, &event.content).unwrap()
}

#[test]
fn a_wallet_has_an_address() {
    let wallet = wallet(1, 2, 3);
    assert_eq!(wallet.relay(), "wss://relay.example.com/path/");
    assert_eq!(
        wallet.nwc_url().unwrap(),
        format!(
            "nostr+walletconnect://{}?secret={}&relay=wss%3A%2F%2Frelay.example.com%2Fpath",
            wallet_keys().public_key().to_hex(),
            CLIENT,
        ),
    );
    let uri = nip47::NostrWalletConnectURI::parse(wallet.nwc_url().unwrap()).unwrap();
    assert_eq!(uri.public_key, wallet_keys().public_key());
    assert_eq!(uri.secret.to_secret_hex(), CLIENT);
    assert_eq!(wallet.limits().day_limit.msat(), 3);
}

#[test]
fn the_relay_is_written_out() {
    let wallet = ClnNwc::new(
        Keys::generate(),
        Keys::generate(),
        "WSS://Relay.Example.com:443",
        Limits::from_options(1, 1, 1),
    );
    let wallet = wallet.unwrap();
    assert_eq!(wallet.relay(), "wss://relay.example.com/");
    assert!(wallet.nwc_url().unwrap().ends_with("&relay=wss%3A%2F%2Frelay.example.com"));
}

#[test]
fn a_relay_may_have_any_address() {
    let keys = Keys::parse(WALLET).unwrap();
    let limits = Limits::from_options(1, 1, 1);
    let wallet = ClnNwc::new(Keys::generate(), keys, "https://relay.example.com", limits).unwrap();
    assert_eq!(wallet.relay(), "https://relay.example.com/");
    assert!(wallet.nwc_url().is_none());
    let answer = wallet.auth("c", "https://relay.example.com").unwrap();
    assert_eq!(answer.tags[1], vec!["relay", "https://relay.example.com/"]);
}

#[test]
fn a_relay_needs_a_valid_address() {
    for relay in ["", "localhost", "ws://"] {
        let limits = Limits::from_options(1, 1, 1);
        let wallet = ClnNwc::new(Keys::generate(), Keys::generate(), relay, limits);
        assert_eq!(wallet.err(), Some(SetupError::InvalidRelay));
    }
}

#[test]
fn a_request_of_the_client_is_accepted() {
    let wallet = wallet(1, 2, 3);
    let event = request_event(&client(), &pay_request(COFFEE));
    match wallet.verify_event(event_in(&delivered(&event))) {
        Ok(Request::PayInvoice { invoice }) => assert_eq!(invoice, COFFEE),
        _ => panic!("not accepted"),
    }
}

#[test]
fn requests_come_out_as_the_client_wrote_them() {
    let wallet = wallet(1, 2, 3);
    let uri = nip47::NostrWalletConnectURI::parse(wallet.nwc_url().unwrap()).unwrap();
    for invoice in [COFFEE, "quote \" and \\ and \n", ""] {
        let params = nip47::PayInvoiceRequest::new(invoice);
        let event = nip47::Request::pay_invoice(params).to_event(&uri).unwrap();
        match wallet.verify_event(event_in(&delivered(&event))) {
            Ok(Request::PayInvoice { invoice: read }) => assert_eq!(read, invoice),
            _ => panic!("not accepted"),
        }
    }
    let event = nip47::Request::get_balance().to_event(&uri).unwrap();
    assert!(matches!(wallet.verify_event(event_in(&delivered(&event))), Ok(Request::GetBalance)));
    let event = nip47::Request::get_info().to_event(&uri).unwrap();
    assert!(matches!(wallet.verify_event(event_in(&delivered(&event))), Ok(Request::GetInfo)));
}

#[test]
fn an_hour_that_is_over_frees_the_wallet() {
    let clock = Clock::started_at(Instant::now() - Duration::from_secs(3601));
    let mut limits =
        Limits::starting_at(msat(u64::MAX), msat(250_000_000), msat(u64::MAX), clock, 0);
    limits.add_spend(msat(1));
    let keys = Keys::parse(CLIENT).unwrap();
    let mut wallet = ClnNwc::new(keys, Keys::generate(), "ws://localhost", limits).unwrap();
    assert!(wallet.pay_invoice(COFFEE).is_ok());
    assert_eq!(wallet.limits().hour_value.msat(), 0);
    assert!(wallet.limits().hour_start >= 3601_000_000_000);
    assert_eq!(wallet.limits().day_value.msat(), 1);
    assert_eq!(wallet.limits().day_start, 0);
}

#[test]
fn an_event_has_its_parts() {
    let event = request_event(&client(), BALANCE_REQUEST);
    let message = delivered(&event);
    let held = event_in(&message);
    assert_eq!(held.id(), event.id.to_bytes());
    assert_eq!(held.pubkey(), event.pubkey.to_bytes());
    assert_eq!(held.content(), event.content);
    assert!(held.verify());
}

#[test]
fn a_request_of_another_key_is_refused() {
    let wallet = wallet(1, 2, 3);
    let stranger = NostrKeys::generate();
    let event = request_event(&stranger, &pay_request(COFFEE));
    let rejection = wallet.verify_event(event_in(&delivered(&event))).err().unwrap();
    assert_eq!(rejection.refusal, Refusal::Unauthorized);
    assert_eq!(rejection.refusal.message(), "Unauthorized pubkey");
    assert_eq!(
        read_answer(&rejection.answer.unwrap(), &client(), &event),
        "{\"result_type\":\"pay_invoice\",\"error\":{\"code\":\"UNAUTHORIZED\",\"message\":\"Unauthorized pubkey\"}}",
    );
}

#[test]
fn a_forged_event_is_refused() {
    let wallet = wallet(1, 2, 3);
    let mut event = request_event(&client(), BALANCE_REQUEST);
    event.content = request_event(&client(), BALANCE_REQUEST).content;
    let message = delivered(&event);
    assert!(!event_in(&message).verify());
    let rejection = wallet.verify_event(event_in(&message)).err().unwrap();
    assert_eq!(rejection.refusal, Refusal::InvalidEvent);
    assert_eq!(rejection.refusal.message(), "Event is not a valid nostr event");
    assert!(rejection.answer.is_none());
}

#[test]
fn a_borrowed_name_is_refused() {
    let wallet = wallet(1, 2, 3);
    let mut event = request_event(&NostrKeys::generate(), BALANCE_REQUEST);
    event.pubkey = client().public_key();
    let rejection = wallet.verify_event(event_in(&delivered(&event))).err().unwrap();
    assert_eq!(rejection.refusal, Refusal::InvalidEvent);
}

#[test]
fn a_message_for_others_is_refused() {
    let wallet = wallet(1, 2, 3);
    let other = NostrKeys::generate().public_key();
    let content = nip04::encrypt(client().secret_key(), &other, BALANCE_REQUEST).unwrap();
    for content in [content, "plain text".to_string()] {
        let event = EventBuilder::new(Kind::WalletConnectRequest, content)
            .sign_with_keys(&client())
            .unwrap();
        let rejection = wallet.verify_event(event_in(&delivered(&event))).err().unwrap();
        assert_eq!(rejection.refusal, Refusal::NotDecrypted);
        assert_eq!(rejection.refusal.message(), "Could not decrypt event");
        assert!(rejection.answer.is_none());
    }
}

#[test]
fn a_message_that_is_no_request_is_refused() {
    let wallet = wallet(1, 2, 3);
    let event = request_event(&NostrKeys::generate(), "hello");
    let rejection = wallet.verify_event(event_in(&delivered(&event))).err().unwrap();
    assert_eq!(rejection.refusal, Refusal::NotDecoded);
    assert_eq!(rejection.refusal.message(), "Could not decrypt event");
    assert!(rejection.answer.is_none());
}

#[test]
fn only_the_client_is_authorized() {
    assert!(matches!(authorize(Request::GetInfo, &[1; 32], &[1; 32]), Ok(Request::GetInfo)));
    let response = authorize(Request::GetInfo, &[1; 32], &[2; 32]).err().unwrap();
    assert_eq!(response.result_type.name(), "get_info");
    assert_eq!(response.error.unwrap().message, "Unauthorized pubkey");
    assert!(response.result.is_none());
}

#[test]
fn a_challenge_is_answered() {
    let wallet = wallet(1, 2, 3);
    let answer = wallet.auth("prove it", "wss://other.example.com/").unwrap();
    let event = nostr_sdk::Event::from_json(&answer.json).unwrap();
    event.verify().unwrap();
    assert_eq!(event.pubkey, wallet_keys().public_key());
    assert_eq!(event.kind, Kind::Authentication);
    assert_eq!(event.content, "");
    let tags: Vec<Vec<String>> = event.tags.iter().map(|tag| tag.as_slice().to_vec()).collect();
    assert_eq!(
        tags,
        vec![
            vec!["challenge".to_string(), "prove it".to_string()],
            vec!["relay".to_string(), "wss://other.example.com/".to_string()],
        ],
    );
    assert_eq!(answer.tags, tags);
    assert_eq!(answer.kind, 22242);
    assert!(wallet.auth("prove it", "nowhere").is_none());
}

#[test]
fn an_invoice_within_the_limits_is_paid_and_counted() {
    let mut wallet = wallet(250_000_000, 300_000_000, 400_000_000);
    let payment = wallet.pay_invoice(COFFEE).unwrap();
    assert_eq!(payment.bolt11, COFFEE);
    assert_eq!(payment.amount.msat(), 250_000_000);
    assert_eq!(wallet.limits().hour_value.msat(), 0);

    let request = request_event(&client(), &pay_request(COFFEE));
    let reply = PayReply::Complete { preimage: vec![0x00, 0xab, 0x10] };
    let answer = wallet.finish_payment(&request.id.to_bytes(), &payment, &reply).unwrap();
    assert_eq!(
        read_answer(&answer, &client(), &request),
        "{\"result_type\":\"pay_invoice\",\"result\":{\"preimage\":\"00ab10\"}}",
    );
    assert_eq!(wallet.limits().hour_value.msat(), 250_000_000);
    assert_eq!(wallet.limits().day_value.msat(), 250_000_000);
    assert_eq!(wallet.pay_invoice(COFFEE).err(), Some(PayError::LimitsExceeded));
}

#[test]
fn a_pending_payment_is_counted() {
    let mut wallet = wallet(u64::MAX, u64::MAX, u64::MAX);
    let payment = wallet.pay_invoice(COFFEE).unwrap();
    let outcome = wallet.finish_payment(&[1; 32], &payment, &PayReply::Pending);
    assert_eq!(outcome.err(), Some(PayError::PaymentPending));
    assert_eq!(wallet.limits().hour_value.msat(), 250_000_000);
    assert_eq!(wallet.limits().day_value.msat(), 250_000_000);
}

#[test]
fn payments_that_did_not_go_out_are_not_counted() {
    let mut wallet = wallet(u64::MAX, u64::MAX, u64::MAX);
    let cases = [
        (PayReply::Failed, PayError::PaymentFailed),
        (PayReply::WrongResponse, PayError::WrongResponse),
        (PayReply::RpcError, PayError::RpcError),
    ];
    for (reply, error) in cases {
        let payment = wallet.pay_invoice(COFFEE).unwrap();
        assert_eq!(wallet.finish_payment(&[1; 32], &payment, &reply).err(), Some(error));
        assert_eq!(wallet.limits().hour_value.msat(), 0);
        assert_eq!(wallet.limits().day_value.msat(), 0);
    }
}

#[test]
fn unfit_invoices_are_declined() {
    let mut wallet = wallet(249_999_999, u64::MAX, u64::MAX);
    assert_eq!(wallet.pay_invoice("lnbc1").err(), Some(PayError::InvalidInvoice));
    assert_eq!(wallet.pay_invoice(DONATION).err(), Some(PayError::AmountNotDefined));
    assert_eq!(wallet.pay_invoice(COFFEE).err(), Some(PayError::InvoiceTooLarge));
    let mut spoiled = COFFEE.to_string();
    spoiled.replace_range(4..5, "3");
    assert_eq!(wallet.pay_invoice(&spoiled).err(), Some(PayError::InvalidInvoice));
}

#[test]
fn an_upper_case_invoice_is_paid_by_its_own_encoding() {
    let mut wallet = wallet(u64::MAX, u64::MAX, u64::MAX);
    let payment = wallet.pay_invoice(&COFFEE.to_uppercase()).unwrap();
    assert_eq!(payment.bolt11, COFFEE);
}

#[test]
fn limits_decline() {
    let mut hour = wallet(u64::MAX, 249_999_999, u64::MAX);
    assert_eq!(hour.pay_invoice(COFFEE).err(), Some(PayError::LimitsExceeded));
    let mut day = wallet(u64::MAX, u64::MAX, 249_999_999);
    assert_eq!(day.pay_invoice(COFFEE).err(), Some(PayError::LimitsExceeded));
}

#[test]
fn payment_errors_say_what_they_are() {
    let cases = [
        (PayError::InvalidInvoice, "Invalid invoice"),
        (PayError::AmountNotDefined, "Invoice amount is not defined"),
        (PayError::InvoiceTooLarge, "Limit too large"),
        (PayError::LimitsExceeded, "Limits exceeded"),
        (PayError::PaymentPending, "Payment pending"),
        (PayError::PaymentFailed, "Payment Failed"),
        (PayError::WrongResponse, "Wrong CLN response"),
        (PayError::RpcError, "Rpc error response"),
    ];
    for (error, message) in cases {
        assert_eq!(error.message(), message);
    }
}

fn invoice(amount_msat: Option<u64>) -> Option<Invoice> {
    Some(Invoice { bolt11: "lnbc1".to_string(), amount_msat })
}

#[test]
fn an_hour_is_closed_only_for_invoices_that_are_not_too_large() {
    let mut limits = Limits::new(msat(10), msat(10), msat(20));
    limits.add_spend(msat(10));
    let late = NANOS_IN_HOUR + 1;
    for unfit in [None, invoice(None), invoice(Some(11))] {
        assert!(admit_payment(&mut limits, unfit, late).is_err());
        assert_eq!((limits.hour_start, limits.hour_value.msat()), (0, 10));
    }
    let payment = admit_payment(&mut limits, invoice(Some(10)), late).unwrap();
    assert_eq!((limits.hour_start, limits.day_start), (late, 0));
    assert_eq!(payment.amount.msat(), 10);
    assert_eq!((limits.hour_value.msat(), limits.day_value.msat()), (0, 10));
    settle_payment(&mut limits, payment.amount, &PayReply::Pending).err().unwrap();
    assert_eq!((limits.hour_value.msat(), limits.day_value.msat()), (10, 20));
    let declined = admit_payment(&mut limits, invoice(Some(1)), NANOS_IN_DAY);
    assert_eq!(declined.err(), Some(PayError::LimitsExceeded));
    assert_eq!((limits.hour_value.msat(), limits.day_value.msat()), (0, 20));
    assert!(admit_payment(&mut limits, invoice(Some(1)), NANOS_IN_DAY + 1).is_ok());
    assert_eq!((limits.hour_value.msat(), limits.day_value.msat()), (0, 0));
    assert_eq!((limits.hour_start, limits.day_start), (NANOS_IN_DAY, NANOS_IN_DAY + 1));
}

#[test]
fn payments_stay_within_the_limits() {
    let mut limits = Limits::new(msat(7), msat(10), msat(16));
    let mut paid = 0;
    for amount in [8, 7, 4, 3, 1] {
        if let Ok(payment) = admit_payment(&mut limits, invoice(Some(amount)), NANOS_IN_HOUR) {
            let reply = PayReply::Complete { preimage: vec![] };
            settle_payment(&mut limits, payment.amount, &reply).unwrap();
            paid += amount;
        }
    }
    assert_eq!(paid, 10);
    assert_eq!((limits.hour_value.msat(), limits.day_value.msat()), (10, 10));
    let declined = admit_payment(&mut limits, invoice(Some(1)), NANOS_IN_HOUR);
    assert_eq!(declined.err(), Some(PayError::LimitsExceeded));
}

#[test]
fn the_balance_is_the_sum_over_the_channels() {
    let wallet = wallet(1, 2, 3);
    let request = request_event(&client(), BALANCE_REQUEST);
    let reply = FundsReply::Channels { amounts: vec![msat(1000), msat(0), msat(234)] };
    let answer = wallet.get_balance(event_in(&delivered(&request)), &reply).unwrap();
    assert_eq!(
        read_answer(&answer, &client(), &request),
        "{\"result_type\":\"get_balance\",\"result\":{\"balance\":1234}}",
    );
}

#[test]
fn the_balance_is_told_to_whoever_asked() {
    let wallet = wallet(1, 2, 3);
    let asker = NostrKeys::generate();
    let request = request_event(&asker, BALANCE_REQUEST);
    let reply = FundsReply::Channels { amounts: vec![] };
    let answer = wallet.get_balance(event_in(&delivered(&request)), &reply).unwrap();
    assert_eq!(
        read_answer(&answer, &asker, &request),
        "{\"result_type\":\"get_balance\",\"result\":{\"balance\":0}}",
    );
}

#[test]
fn the_balance_is_not_told_without_funds() {
    let wallet = wallet(1, 2, 3);
    let message = delivered(&request_event(&client(), BALANCE_REQUEST));
    let cases = [
        (FundsReply::WrongResponse, BalanceError::WrongResponse, "Wrong CLN response"),
        (FundsReply::RpcError, BalanceError::RpcError, "Rpc error response"),
    ];
    for (reply, error, text) in cases {
        assert_eq!(wallet.get_balance(event_in(&message), &reply).err(), Some(error));
        assert_eq!(balance_of_reply(&reply).err(), Some(error));
        assert_eq!(error.message(), text);
    }
}

#[test]
fn the_balance_is_not_told_to_what_is_no_key() {
    let wallet = wallet(1, 2, 3);
    let mut event = request_event(&client(), BALANCE_REQUEST);
    event.pubkey = PublicKey::from_byte_array([0xff; 32]);
    let reply = FundsReply::Channels { amounts: vec![msat(1)] };
    let answer = wallet.get_balance(event_in(&delivered(&event)), &reply);
    assert_eq!(answer.err(), Some(BalanceError::NotEncrypted));
    assert_eq!(BalanceError::NotEncrypted.message(), "Could not encrypt response");
}

#[test]
fn a_total_has_to_fit() {
    assert_eq!(checked_total(&vec![]).unwrap().msat(), 0);
    assert_eq!(checked_total(&vec![msat(u64::MAX), msat(0)]).unwrap().msat(), u64::MAX);
    assert!(checked_total(&vec![msat(u64::MAX), msat(1)]).is_none());
}

#[test]
fn a_payment_is_asked_for() {
    let mut wallet = wallet(u64::MAX, u64::MAX, u64::MAX);
    let event = request_event(&client(), &pay_request(COFFEE));
    match wallet.handle(&delivered(&event)) {
        Action::Pay { payment: Payment { bolt11, amount } } => {
            assert_eq!(bolt11, COFFEE);
            assert_eq!(amount.msat(), 250_000_000);
        }
        _ => panic!("no payment"),
    }
}

#[test]
fn a_payment_is_declined() {
    let mut wallet = wallet(1, 2, 3);
    let event = request_event(&client(), &pay_request(COFFEE));
    match wallet.handle(&delivered(&event)) {
        Action::Decline { error } => assert_eq!(error, PayError::InvoiceTooLarge),
        _ => panic!("not declined"),
    }
}

#[test]
fn the_funds_are_asked_for() {
    let mut wallet = wallet(1, 2, 3);
    let event = request_event(&client(), BALANCE_REQUEST);
    assert!(matches!(wallet.handle(&delivered(&event)), Action::ListFunds));
}

#[test]
fn the_wallet_stops_at_what_it_does_not_carry_out() {
    let mut wallet = wallet(1, 2, 3);
    let event = request_event(&client(), "{\"method\":\"get_info\",\"params\":{}}");
    match wallet.handle(&delivered(&event)) {
        Action::Stop { refused } => assert_eq!(refused, NotImplemented::GetInfo),
        _ => panic!("not stopped"),
    }
}

#[test]
fn a_stranger_gets_nothing_done() {
    let mut wallet = wallet(u64::MAX, u64::MAX, u64::MAX);
    let event = request_event(&NostrKeys::generate(), &pay_request(COFFEE));
    match wallet.handle(&delivered(&event)) {
        Action::Reject { rejection } => {
            assert_eq!(rejection.refusal, Refusal::Unauthorized);
            assert!(rejection.answer.is_some());
        }
        _ => panic!("not rejected"),
    }
}

#[test]
fn a_challenge_is_answered_for_the_wallet_s_relay() {
    let mut wallet = wallet(1, 2, 3);
    let challenge = RelayMessage::Auth { challenge: "c".to_string() };
    match wallet.handle(&challenge) {
        Action::Authenticate { event } => {
            let event = nostr_sdk::Event::from_json(&event.json).unwrap();
            event.verify().unwrap();
            let relay = event.tags.iter().nth(1).unwrap().as_slice().to_vec();
            assert_eq!(relay, vec!["relay", "wss://relay.example.com/path/"]);
        }
        _ => panic!("not answered"),
    }
    assert!(matches!(wallet.handle(&RelayMessage::Other), Action::Ignore));
}

#[test]
fn a_wallet_may_be_its_own_client() {
    let mut wallet = ClnNwc::new(
        Keys::parse(WALLET).unwrap(),
        Keys::parse(WALLET).unwrap(),
        "ws://localhost:8080",
        Limits::new(msat(u64::MAX), msat(u64::MAX), msat(u64::MAX)),
    )
    .unwrap();
    let keys = wallet_keys();
    let content =
        nip04::encrypt(keys.secret_key(), &keys.public_key(), pay_request(COFFEE)).unwrap();
    let event = EventBuilder::new(Kind::WalletConnectRequest, content).sign_with_keys(&keys).unwrap();
    match wallet.handle(&delivered(&event)) {
        Action::Pay { payment } => {
            let reply = PayReply::Complete { preimage: vec![1] };
            let answer = wallet.finish_payment(&event.id.to_bytes(), &payment, &reply).unwrap();
            assert_eq!(
                read_answer(&answer, &keys, &event),
                "{\"result_type\":\"pay_invoice\",\"result\":{\"preimage\":\"01\"}}",
            );
        }
        _ => panic!("no payment"),
    }
}
