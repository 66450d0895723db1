//! The wallet: what it does with the requests that a client sends it over Nostr.
//!
//! A request is answered in steps. The wallet decides, whoever drives it carries out
//! what it decided, and hands it the outcome: an invoice that the wallet lets pass is
//! paid by the Lightning node, and the reply of the node goes back to the wallet, which
//! counts the spending and signs the answer to the client.
use nostr_sdk::nips::nip47::NostrWalletConnectURI;
use nostr_sdk::{PublicKey, RelayUrl, SecretKey};
use vstd::prelude::*;

use crate::amount::{lemma_amount_bounded, Amount};
use crate::client_request::ClientRequest;
use crate::clock::{time_since, Reading};
use crate::event::{
    auth_tags, event_of_json, event_tag, is_genuine, is_signed, parse_relay, public_key_tag,
    relay_of_text, sign_answer, sign_auth, Event, EventView, RelayMessage, SignedEvent,
    SignedEventView, AUTHENTICATION, WALLET_CONNECT_RESPONSE,
};
use crate::hex_text::{digit_value, hex_digits, hex_encode, law_hex_spells_every_byte};
use crate::invoice::{invoice_of_text, parse_invoice, Invoice, InvoiceView};
use crate::json::decimal;
use crate::keys::{is_public_key, public_key_of, same_key, Keys, KeysView};
use crate::limits::{Attempt, Limits, LimitsView, NANOS_IN_DAY, NANOS_IN_HOUR};
use crate::nip04::{decrypt, encrypt, nip04_seals, nip04_text};
use crate::nip47::{
    balance_response, dispatch, json_of_response, law_method_names_distinct,
    law_methods_have_their_names, law_names_ask_for_methods, law_text_of_a_balance_response,
    law_text_of_a_paid_response, law_text_of_an_unauthorized_response, method_name, paid_response,
    raw_request_of_json, request_of_raw, unauthorized_response, Command, Method, NotImplemented,
    RawRequestView, Request, RequestView, Response, ResponseResult, ResponseView, ResultView,
};

verus! {

/// A wallet that one client may use, within limits.
pub struct ClnNwc {
    /// Keys that the connecting nostr client will use to send messages
    client_keys: Keys,
    /// Keys that the wallet will use to send and receive messages
    nwc_keys: Keys,
    /// The address of the relay
    relay: String,
    limits: Limits,
    /// The address of the wallet at the relay, where the relay can stand in one
    nwc_url: Option<String>,
}

/// The contents of a [`ClnNwc`].
pub struct ClnNwcView {
    pub client_keys: KeysView,
    pub nwc_keys: KeysView,
    pub relay: Seq<char>,
    pub limits: LimitsView,
    pub nwc_url: Option<Seq<char>>,
}

impl View for ClnNwc {
    type V = ClnNwcView;

    closed spec fn view(&self) -> ClnNwcView {
        ClnNwcView {
            client_keys: self.client_keys@,
            nwc_keys: self.nwc_keys@,
            relay: self.relay@,
            limits: self.limits@,
            nwc_url: match self.nwc_url {
                Some(nwc_url) => Some(nwc_url@),
                None => None,
            },
        }
    }
}

/// Why a wallet could not be set up.
#[derive(Debug, Clone, Copy, PartialEq, Eq, Structural)]
pub enum SetupError {
    /// The relay has no valid address.
    InvalidRelay,
}

/// The address by which a client with the secret key `secret` finds the wallet with the
/// public key `public` at a relay.
pub uninterp spec fn wallet_uri(public: Seq<u8>, relay: Seq<char>, secret: Seq<u8>) -> Option<
    Seq<char>,
>;

/// What the address begins with: who the wallet is and what the client's secret is. The
/// relay follows.
pub open spec fn uri_start(public: Seq<u8>, secret: Seq<u8>) -> Seq<char> {
    "nostr+walletconnect://"@ + hex_digits(public) + "?secret="@ + hex_digits(secret) + "&relay="@
}

/// The text begins like the address of a web socket, and names no second address.
pub open spec fn is_web_socket(text: Seq<char>) -> bool {
    &&& "ws://"@.is_prefix_of(text) || "wss://"@.is_prefix_of(text)
    &&& forall|i: int|
        4 <= i <= text.len() - 3 ==> #[trigger] text.subrange(i, i + 3) != "://"@
}

/// `nostr_sdk::nips::nip47::NostrWalletConnectURI::new`, written out as text: the
/// address by which a client finds the wallet. The result is named; beside the name
/// stands that a secret key and the address of a web socket always give one, and what it
/// begins with. Of other addresses `nostr_sdk::RelayUrl` takes some and refuses others.
#[verifier::external_body]
fn make_uri(public: &[u8; 32], relay: &str, secret: &[u8; 32]) -> (uri: Option<String>)
    ensures
        match uri {
            Some(uri) => wallet_uri(public@, relay@, secret@) == Some(uri@),
            None => wallet_uri(public@, relay@, secret@) is None,
        },
        (public_key_of(secret@) is Some && relay_of_text(relay@) is Some && is_web_socket(relay@))
            ==> uri is Some,
        uri matches Some(text) ==> uri_start(public@, secret@).is_prefix_of(text@),
{
    let relays = vec![RelayUrl::parse(relay).ok()?];
    let secret = SecretKey::from_slice(secret).ok()?;
    let public = PublicKey::from_byte_array(*public);
    Some(NostrWalletConnectURI::new(public, relays, secret, None).to_string())
}

/// `answer` is the wallet's response to the request `request` of the public key `to`: it
/// is genuine, signed by the wallet, tagged with that public key and that request, and
/// holds the response sealed for that public key.
pub open spec fn is_answer(
    answer: SignedEventView,
    wallet: KeysView,
    to: Seq<u8>,
    request: Seq<u8>,
    response: ResponseView,
) -> bool {
    &&& is_signed(
        answer,
        wallet.secret,
        WALLET_CONNECT_RESPONSE,
        answer.content,
        seq![public_key_tag(to), event_tag(request)],
    )
    &&& nip04_seals(wallet.secret, to, json_of_response(response), answer.content)
}

/// Whoever holds the secret key behind the public key that an answer is for reads the
/// response in the JSON text of that answer.
pub proof fn law_answer_is_readable(
    answer: SignedEventView,
    wallet: KeysView,
    to: Seq<u8>,
    request: Seq<u8>,
    response: ResponseView,
    reader: Seq<u8>,
)
    requires
        is_answer(answer, wallet, to, request, response),
        public_key_of(reader) == Some(to),
    ensures
        event_of_json(answer.json) matches Some(parts) && nip04_text(
            reader,
            parts.pubkey,
            parts.content,
        ) == Some(json_of_response(response)),
{
}

/// Why an event is not acted upon.
#[derive(Debug, Clone, Copy, PartialEq, Eq, Structural)]
pub enum Refusal {
    /// The event has not the id or the signature that belongs to it.
    InvalidEvent,
    /// The content is not a message from the client to the wallet.
    NotDecrypted,
    /// The message holds no request.
    NotDecoded,
    /// The event is not from the client's public key.
    Unauthorized,
}

impl Refusal {
    /// What the wallet says of the event.
    pub open spec fn text(self) -> Seq<char> {
        match self {
            Refusal::InvalidEvent => "Event is not a valid nostr event"@,
            Refusal::NotDecrypted => "Could not decrypt event"@,
            Refusal::NotDecoded => "Could not decrypt event"@,
            Refusal::Unauthorized => "Unauthorized pubkey"@,
        }
    }

    /// What the wallet says of the event.
    pub fn message(&self) -> (message: &'static str)
        ensures
            message@ == self.text(),
            match self {
                Refusal::InvalidEvent => message@ == "Event is not a valid nostr event"@,
                Refusal::NotDecrypted => message@ == "Could not decrypt event"@,
                Refusal::NotDecoded => message@ == "Could not decrypt event"@,
                Refusal::Unauthorized => message@ == "Unauthorized pubkey"@,
            },
    {
        match self {
            Refusal::InvalidEvent => "Event is not a valid nostr event",
            Refusal::NotDecrypted => "Could not decrypt event",
            Refusal::NotDecoded => "Could not decrypt event",
            Refusal::Unauthorized => "Unauthorized pubkey",
        }
    }
}

/// An event that is not acted upon.
#[derive(Debug)]
pub struct Rejection {
    /// Why it is not.
    pub refusal: Refusal,
    /// What is to be sent, where the event made a request that it may not make.
    pub answer: Option<SignedEvent>,
}

/// What becomes of an event, from what is found about it: whether it is genuine, whether
/// its content could be decrypted, the request in it, and whether it is from the client.
pub open spec fn judgement(
    genuine: bool,
    decrypted: bool,
    request: Option<RequestView>,
    from_client: bool,
) -> Result<RequestView, Refusal> {
    if !genuine {
        Err(Refusal::InvalidEvent)
    } else if !decrypted {
        Err(Refusal::NotDecrypted)
    } else {
        match request {
            None => Err(Refusal::NotDecoded),
            Some(request) => if from_client {
                Ok(request)
            } else {
                Err(Refusal::Unauthorized)
            },
        }
    }
}

/// The request in the decrypted content of an event.
pub open spec fn request_in(text: Option<Seq<char>>) -> Option<RequestView> {
    match text {
        Some(json) => request_of_raw(raw_request_of_json(json)),
        None => None,
    }
}

impl ClnNwcView {
    /// The content of an event, decrypted as a message from the client to the wallet.
    pub open spec fn decrypted(self, event: EventView) -> Option<Seq<char>> {
        nip04_text(self.nwc_keys.secret, self.client_keys.public, event.content)
    }

    /// What becomes of an event.
    pub open spec fn judged(self, event: EventView) -> Result<RequestView, Refusal> {
        judgement(
            is_genuine(event.json),
            self.decrypted(event) is Some,
            request_in(self.decrypted(event)),
            event.pubkey == self.client_keys.public,
        )
    }
}

impl ClnNwcView {
    /// The event is not acted upon, for the reason given. Only a request from another
    /// public key than the client's is answered: that it may not be made.
    pub open spec fn rejects(self, event: EventView, rejection: Rejection) -> bool {
        &&& self.judged(event) == Err::<RequestView, Refusal>(rejection.refusal)
        &&& rejection.answer is Some <==> rejection.refusal == Refusal::Unauthorized
        &&& rejection.answer matches Some(answer) ==> is_answer(
            answer@,
            self.nwc_keys,
            self.client_keys.public,
            event.id,
            unauthorized_response(request_in(self.decrypted(event))->0.method),
        )
    }
}

/// A request is carried out only if the event that makes it is genuine, is from the
/// client's public key, and holds the request encrypted by the client for the wallet; and
/// every such request is. What is looked at is what the genuine event itself says.
pub proof fn law_only_the_client_is_served(wallet: ClnNwcView, event: EventView)
    requires
        event.is_whole(),
    ensures
        wallet.judged(event) is Ok <==> {
            &&& is_genuine(event.json)
            &&& event.pubkey == wallet.client_keys.public
            &&& request_in(wallet.decrypted(event)) is Some
        },
        wallet.judged(event) matches Ok(request) ==> {
            &&& request_in(wallet.decrypted(event)) == Some(request)
            &&& event_of_json(event.json) matches Some(parts)
            &&& parts.pubkey == wallet.client_keys.public
            &&& request_in(
                nip04_text(wallet.nwc_keys.secret, wallet.client_keys.public, parts.content),
            ) == Some(request)
        },
{
}

impl ClnNwcView {
    /// The event is genuine and from the client, who sealed `json` in it for the wallet.
    pub open spec fn is_sent_by_client(self, event: EventView, json: Seq<char>) -> bool {
        &&& is_genuine(event.json)
        &&& event.pubkey == self.client_keys.public
        &&& nip04_seals(self.client_keys.secret, self.nwc_keys.public, json, event.content)
    }

    /// The event is genuine and from the client, who wrote down a request in it and sealed
    /// it for the wallet.
    pub open spec fn is_asked_by_client(self, event: EventView, asked: ClientRequest) -> bool {
        self.is_sent_by_client(event, asked.json())
    }
}

/// Every request that the client seals for the wallet and signs is accepted, and comes out
/// as what the client's text says.
pub proof fn law_requests_of_the_client_are_accepted(
    wallet: ClnNwcView,
    event: EventView,
    json: Seq<char>,
    request: RequestView,
)
    requires
        wallet.client_keys.wf(),
        wallet.nwc_keys.wf(),
        wallet.is_sent_by_client(event, json),
        request_of_raw(raw_request_of_json(json)) == Some(request),
    ensures
        wallet.judged(event) == Ok::<RequestView, Refusal>(request),
{
}

/// The answer to a request that another public key than the client's made tells the client
/// so, in words that the client's secret key opens.
pub proof fn law_client_learns_of_refused_requests(
    wallet: ClnNwcView,
    event: EventView,
    rejection: Rejection,
)
    requires
        wallet.client_keys.wf(),
        wallet.rejects(event, rejection),
        rejection.refusal == Refusal::Unauthorized,
    ensures
        request_in(wallet.decrypted(event)) matches Some(request) && rejection.answer matches Some(
            answer,
        ) && event_of_json(answer@.json) matches Some(parts) && nip04_text(
            wallet.client_keys.secret,
            parts.pubkey,
            parts.content,
        ) == Some(json_of_response(unauthorized_response(request.method))),
{
    law_answer_is_readable(
        rejection.answer->0@,
        wallet.nwc_keys,
        wallet.client_keys.public,
        event.id,
        unauthorized_response(request_in(wallet.decrypted(event))->0.method),
        wallet.client_keys.secret,
    );
}

/// Decides whether a request is carried out. A request from another public key than the
/// client's is not; it is to be answered that its public key may not make it.
pub fn authorize(request: Request, sender: &[u8; 32], client: &[u8; 32]) -> (outcome: Result<
    Request,
    Response,
>)
    ensures
        match outcome {
            Ok(accepted) => sender@ == client@ && accepted == request,
            Err(response) => sender@ != client@ && response@ == unauthorized_response(
                request@.method,
            ),
        },
{
    if same_key(sender, client) {
        Ok(request)
    } else {
        Err(Response::unauthorized(request.method()))
    }
}

/// A payment that the wallet lets pass.
#[derive(Debug)]
pub struct Payment {
    /// The invoice to pay.
    pub bolt11: String,
    /// What it asks for.
    pub amount: Amount,
}

/// The contents of a [`Payment`], its amount in millisatoshis.
pub struct PaymentView {
    pub bolt11: Seq<char>,
    pub amount: nat,
}

impl View for Payment {
    type V = PaymentView;

    open spec fn view(&self) -> PaymentView {
        PaymentView { bolt11: self.bolt11@, amount: self.amount@ }
    }
}

/// The contents of an outcome that may be a payment.
pub open spec fn payment_view<E>(payment: Result<Payment, E>) -> Result<PaymentView, E> {
    match payment {
        Ok(payment) => Ok(payment@),
        Err(error) => Err(error),
    }
}

/// What the Lightning node replies to a payment.
#[derive(Debug)]
pub enum PayReply {
    /// The payment is complete; the bytes prove it.
    Complete { preimage: Vec<u8> },
    /// The payment is under way.
    Pending,
    /// The payment failed.
    Failed,
    /// The node replied something else than the outcome of a payment.
    WrongResponse,
    /// The node replied an error.
    RpcError,
}

/// Why an invoice is not paid, or its payment not answered.
#[derive(Debug, Clone, Copy, PartialEq, Eq, Structural)]
pub enum PayError {
    /// The text is no valid invoice.
    InvalidInvoice,
    /// The invoice names no amount.
    AmountNotDefined,
    /// The invoice is larger than the largest one that is paid.
    InvoiceTooLarge,
    /// The hour's or the day's limit would be exceeded.
    LimitsExceeded,
    /// The payment is under way.
    PaymentPending,
    /// The payment failed.
    PaymentFailed,
    /// The node replied something else than the outcome of a payment.
    WrongResponse,
    /// The node replied an error.
    RpcError,
}

impl PayError {
    /// What the wallet says of the payment.
    pub open spec fn text(self) -> Seq<char> {
        match self {
            PayError::InvalidInvoice => "Invalid invoice"@,
            PayError::AmountNotDefined => "Invoice amount is not defined"@,
            PayError::InvoiceTooLarge => "Limit too large"@,
            PayError::LimitsExceeded => "Limits exceeded"@,
            PayError::PaymentPending => "Payment pending"@,
            PayError::PaymentFailed => "Payment Failed"@,
            PayError::WrongResponse => "Wrong CLN response"@,
            PayError::RpcError => "Rpc error response"@,
        }
    }

    /// What the wallet says of the payment.
    pub fn message(&self) -> (message: &'static str)
        ensures
            message@ == self.text(),
            match self {
                PayError::InvalidInvoice => message@ == "Invalid invoice"@,
                PayError::AmountNotDefined => message@ == "Invoice amount is not defined"@,
                PayError::InvoiceTooLarge => message@ == "Limit too large"@,
                PayError::LimitsExceeded => message@ == "Limits exceeded"@,
                PayError::PaymentPending => message@ == "Payment pending"@,
                PayError::PaymentFailed => message@ == "Payment Failed"@,
                PayError::WrongResponse => message@ == "Wrong CLN response"@,
                PayError::RpcError => message@ == "Rpc error response"@,
            },
    {
        match self {
            PayError::InvalidInvoice => "Invalid invoice",
            PayError::AmountNotDefined => "Invoice amount is not defined",
            PayError::InvoiceTooLarge => "Limit too large",
            PayError::LimitsExceeded => "Limits exceeded",
            PayError::PaymentPending => "Payment pending",
            PayError::PaymentFailed => "Payment Failed",
            PayError::WrongResponse => "Wrong CLN response",
            PayError::RpcError => "Rpc error response",
        }
    }
}

/// The invoice is valid, names an amount and is not too large, so that it is held against
/// the limits of the hour and of the day.
pub open spec fn is_fit(limits: LimitsView, invoice: Option<InvoiceView>) -> bool {
    &&& invoice matches Some(invoice)
    &&& invoice.amount_msat matches Some(msat)
    &&& msat <= limits.max_invoice
}

/// The limits after an invoice was looked at when the clock showed `now`, and what is to be
/// paid. The largest invoice comes first; only an invoice that is not larger is held against
/// the limits of the hour and of the day.
pub open spec fn admission(
    limits: LimitsView,
    invoice: Option<InvoiceView>,
    now: nat,
) -> (LimitsView, Result<PaymentView, PayError>) {
    match invoice {
        None => (limits, Err(PayError::InvalidInvoice)),
        Some(invoice) => match invoice.amount_msat {
            None => (limits, Err(PayError::AmountNotDefined)),
            Some(msat) => if msat > limits.max_invoice {
                (limits, Err(PayError::InvoiceTooLarge))
            } else {
                let rolled = limits.at(now);
                if rolled.verdict(msat as nat) is Ok {
                    (rolled, Ok(PaymentView { bolt11: invoice.bolt11, amount: msat as nat }))
                } else {
                    (rolled, Err(PayError::LimitsExceeded))
                }
            },
        },
    }
}

impl ClnNwcView {
    /// The wallet read the clock, looked at an invoice that the client wants paid, and
    /// decided what is to be paid. Nothing but its limits may have changed.
    pub open spec fn admits(
        self,
        invoice: Seq<char>,
        after: ClnNwcView,
        payment: Result<PaymentView, PayError>,
    ) -> bool {
        exists|now: Reading|
            {
                let (limits_after, outcome) = admission(
                    self.limits,
                    invoice_of_text(invoice),
                    now@.nanos as nat,
                );
                &&& (#[trigger] now@).clock == self.limits.clock
                &&& after == (ClnNwcView { limits: limits_after, ..self })
                &&& payment == outcome
            }
    }
}

/// The limits after the node's reply to a payment of `amount`, and the response to the
/// client. A payment that is complete or under way counts as spent.
pub open spec fn settlement(limits: LimitsView, amount: nat, reply: PayReply) -> (
    LimitsView,
    Result<ResponseView, PayError>,
) {
    match reply {
        PayReply::Complete { preimage } => (
            limits.spent(amount),
            Ok(paid_response(hex_digits(preimage@))),
        ),
        PayReply::Pending => (limits.spent(amount), Err(PayError::PaymentPending)),
        PayReply::Failed => (limits, Err(PayError::PaymentFailed)),
        PayReply::WrongResponse => (limits, Err(PayError::WrongResponse)),
        PayReply::RpcError => (limits, Err(PayError::RpcError)),
    }
}

/// Looks at an invoice when the clock shows `now`, and decides whether it is to be paid.
pub fn admit_payment(limits: &mut Limits, invoice: Option<Invoice>, now: u128) -> (payment: Result<
    Payment,
    PayError,
>)
    ensures
        ({
            let (limits_after, outcome) = admission(
                old(limits)@,
                match invoice {
                    Some(invoice) => Some(invoice@),
                    None => None,
                },
                now as nat,
            );
            &&& final(limits)@ == limits_after
            &&& payment_view(payment) == outcome
        }),
        payment matches Ok(payment) ==> final(limits)@.can_count(payment@.amount),
        payment matches Ok(payment) ==> {
            &&& invoice matches Some(invoice)
            &&& payment.bolt11@ == invoice.bolt11@
            &&& invoice.amount_msat matches Some(msat)
            &&& payment.amount@ == msat
        },
{
    broadcast use lemma_amount_bounded;

    let invoice = match invoice {
        Some(invoice) => invoice,
        None => return Err(PayError::InvalidInvoice),
    };
    let msat: u64 = match invoice.amount_msat {
        Some(msat) => msat,
        None => return Err(PayError::AmountNotDefined),
    };
    let amount = Amount::from_msat(msat);
    // Check amount is not above config max
    if amount.msat() > limits.max_invoice.msat() {
        return Err(PayError::InvoiceTooLarge);
    }
    // Check spend does not exceed daily or hourly limit
    match limits.check_limit_at(now, amount) {
        Ok(()) => Ok(Payment { bolt11: invoice.bolt11, amount }),
        Err(_) => Err(PayError::LimitsExceeded),
    }
}

/// Counts the outcome of a payment of `amount`, and makes the response to the client.
pub fn settle_payment(limits: &mut Limits, amount: Amount, reply: &PayReply) -> (response: Result<
    Response,
    PayError,
>)
    requires
        old(limits)@.can_count(amount@),
    ensures
        ({
            let (limits_after, outcome) = settlement(old(limits)@, amount@, *reply);
            &&& final(limits)@ == limits_after
            &&& match response {
                Ok(response) => outcome == Ok::<ResponseView, PayError>(response@),
                Err(error) => outcome == Err::<ResponseView, PayError>(error),
            }
        }),
        response is Ok <==> reply is Complete,
        response matches Ok(response) ==> {
            &&& response.result_type == Method::PayInvoice
            &&& response.error is None
            &&& response.result matches Some(ResponseResult::PayInvoice { preimage: told })
            &&& told@ == hex_digits(reply->preimage@)
        },
{
    match reply {
        PayReply::Complete { preimage } => {
            limits.add_spend(amount);
            Ok(Response::paid(hex_encode(preimage.as_slice())))
        },
        PayReply::Pending => {
            limits.add_spend(amount);
            Err(PayError::PaymentPending)
        },
        PayReply::Failed => Err(PayError::PaymentFailed),
        PayReply::WrongResponse => Err(PayError::WrongResponse),
        PayReply::RpcError => Err(PayError::RpcError),
    }
}

/// What the wallet counts is what it pays: looking at an invoice that is not too large and
/// settling its payment leaves the limits as one attempt to spend its amount does, in which
/// the payment went out if the node says that it is complete or under way.
pub proof fn law_payments_are_attempts(
    limits: LimitsView,
    invoice: InvoiceView,
    msat: u64,
    now: nat,
    reply: PayReply,
)
    requires
        invoice.amount_msat == Some(msat),
        msat <= limits.max_invoice,
    ensures
        ({
            let (admitted, outcome) = admission(limits, Some(invoice), now);
            let attempt = Attempt {
                now,
                amount: msat as nat,
                paid: reply is Complete || reply is Pending,
            };
            &&& outcome matches Ok(payment) ==> payment.amount == msat && settlement(
                admitted,
                payment.amount,
                reply,
            ).0 == limits.after_attempt(attempt)
            &&& outcome is Err ==> admitted == limits.after_attempt(attempt)
        }),
{
}

/// An invoice that the client wants paid when the clock shows `now`, and what the node
/// replies, should the wallet let it pass.
pub struct PaymentStep {
    pub invoice: Option<InvoiceView>,
    pub now: nat,
    pub reply: PayReply,
}

/// The limits after an invoice was looked at and, where the wallet let it pass, its payment
/// settled.
pub open spec fn after_payment(limits: LimitsView, step: PaymentStep) -> LimitsView {
    let (admitted, outcome) = admission(limits, step.invoice, step.now);
    match outcome {
        Ok(payment) => settlement(admitted, payment.amount, step.reply).0,
        Err(_) => admitted,
    }
}

/// What is sent for an invoice: its amount where the wallet let it pass and the node says
/// that the payment is complete or under way.
pub open spec fn sent_for(limits: LimitsView, step: PaymentStep) -> nat {
    match admission(limits, step.invoice, step.now).1 {
        Ok(payment) => if step.reply is Complete || step.reply is Pending {
            payment.amount
        } else {
            0
        },
        Err(_) => 0,
    }
}

/// The limits after some invoices, one after another.
pub open spec fn after_payments(limits: LimitsView, steps: Seq<PaymentStep>) -> LimitsView
    decreases steps.len(),
{
    if steps.len() == 0 {
        limits
    } else {
        after_payment(after_payments(limits, steps.drop_last()), steps.last())
    }
}

/// What is sent for some invoices, one after another.
pub open spec fn sent_for_all(limits: LimitsView, steps: Seq<PaymentStep>) -> nat
    decreases steps.len(),
{
    if steps.len() == 0 {
        0
    } else {
        sent_for_all(limits, steps.drop_last()) + sent_for(
            after_payments(limits, steps.drop_last()),
            steps.last(),
        )
    }
}

/// The hour and the day that are current are not over when the clock shows `now`.
pub open spec fn is_current(limits: LimitsView, now: nat) -> bool {
    &&& time_since(limits.hour_start, now) <= NANOS_IN_HOUR
    &&& time_since(limits.day_start, now) <= NANOS_IN_DAY
}

/// Within one hour and one day, whatever invoices come and whatever the node replies, what is
/// sent is counted and exceeds neither limit, together with what was spent before. A further
/// invoice that is fit to be paid is let pass if its amount exceeds neither, and refused
/// otherwise.
pub proof fn law_payments_of_one_hour(limits: LimitsView, steps: Seq<PaymentStep>)
    requires
        limits.within(),
        forall|i: int| 0 <= i < steps.len() ==> is_current(limits, (#[trigger] steps[i]).now),
    ensures
        ({
            let sent = sent_for_all(limits, steps);
            let after = after_payments(limits, steps);
            &&& after == limits.spent(sent)
            &&& limits.hour_value + sent <= limits.hour_limit
            &&& limits.day_value + sent <= limits.day_limit
            &&& forall|invoice: InvoiceView, now: nat|
                is_current(limits, now) && is_fit(limits, Some(invoice)) ==> {
                    let msat = invoice.amount_msat->0;
                    (#[trigger] admission(after, Some(invoice), now)).1 == if limits.hour_value
                        + sent + msat <= limits.hour_limit && limits.day_value + sent + msat
                        <= limits.day_limit {
                        Ok(PaymentView { bolt11: invoice.bolt11, amount: msat as nat })
                    } else {
                        Err(PayError::LimitsExceeded)
                    }
                }
        }),
    decreases steps.len(),
{
    if steps.len() > 0 {
        let earlier = steps.drop_last();
        assert forall|i: int| 0 <= i < earlier.len() implies is_current(
            limits,
            (#[trigger] earlier[i]).now,
        ) by {
            assert(earlier[i] == steps[i]);
        }
        law_payments_of_one_hour(limits, earlier);
        assert(is_current(limits, steps[steps.len() - 1].now));
    }
}

/// An invoice that is invalid, names no amount or is too large leaves the limits as they
/// are, whatever the time.
pub proof fn law_unfit_invoices_change_nothing(
    limits: LimitsView,
    invoice: Option<InvoiceView>,
    now: nat,
)
    requires
        !is_fit(limits, invoice),
    ensures
        admission(limits, invoice, now).0 == limits,
        admission(limits, invoice, now).1 is Err,
{
}

/// A payment that the wallet lets pass is of an invoice not larger than the largest one,
/// and, whatever the node replies, leaves what was spent within the limits.
pub proof fn law_payments_stay_within_limits(
    limits: LimitsView,
    invoice: Option<InvoiceView>,
    now: nat,
    reply: PayReply,
)
    requires
        limits.within(),
    ensures
        ({
            let (admitted, outcome) = admission(limits, invoice, now);
            &&& admitted.within()
            &&& outcome matches Ok(payment) ==> {
                &&& payment.amount <= limits.max_invoice
                &&& settlement(admitted, payment.amount, reply).0.within()
            }
        }),
{
}

/// What the Lightning node replies when it is asked for its funds.
#[derive(Debug)]
pub enum FundsReply {
    /// What each channel holds on the node's side.
    Channels { amounts: Vec<Amount> },
    /// The node replied something else than its funds.
    WrongResponse,
    /// The node replied an error.
    RpcError,
}

/// Why the balance is not told.
#[derive(Debug, Clone, Copy, PartialEq, Eq, Structural)]
pub enum BalanceError {
    /// The node replied something else than its funds.
    WrongResponse,
    /// The node replied an error.
    RpcError,
    /// The public key that asks is none that a message could be encrypted for.
    NotEncrypted,
}

impl BalanceError {
    /// What the wallet says of the request.
    pub open spec fn text(self) -> Seq<char> {
        match self {
            BalanceError::WrongResponse => "Wrong CLN response"@,
            BalanceError::RpcError => "Rpc error response"@,
            BalanceError::NotEncrypted => "Could not encrypt response"@,
        }
    }

    /// What the wallet says of the request.
    pub fn message(&self) -> (message: &'static str)
        ensures
            message@ == self.text(),
            match self {
                BalanceError::WrongResponse => message@ == "Wrong CLN response"@,
                BalanceError::RpcError => message@ == "Rpc error response"@,
                BalanceError::NotEncrypted => message@ == "Could not encrypt response"@,
            },
    {
        match self {
            BalanceError::WrongResponse => "Wrong CLN response",
            BalanceError::RpcError => "Rpc error response",
            BalanceError::NotEncrypted => "Could not encrypt response",
        }
    }
}

/// The sum of some amounts, in millisatoshis.
pub open spec fn total(amounts: Seq<Amount>) -> nat
    decreases amounts.len(),
{
    if amounts.len() == 0 {
        0
    } else {
        total(amounts.drop_last()) + amounts.last()@
    }
}

/// A part of some amounts is no more than all of them.
proof fn lemma_total_of_part(amounts: Seq<Amount>, n: int)
    requires
        0 <= n <= amounts.len(),
    ensures
        total(amounts.take(n)) <= total(amounts),
    decreases amounts.len() - n,
{
    if n < amounts.len() {
        lemma_total_of_part(amounts, n + 1);
        assert(amounts.take(n + 1).drop_last() =~= amounts.take(n));
    } else {
        assert(amounts.take(n) =~= amounts);
    }
}

/// The sum of some amounts, where it fits in 64 bits.
pub fn checked_total(amounts: &Vec<Amount>) -> (sum: Option<Amount>)
    ensures
        match sum {
            Some(sum) => sum@ == total(amounts@),
            None => total(amounts@) > u64::MAX,
        },
{
    let mut sum: u64 = 0;
    let mut i: usize = 0;
    proof {
        assert(amounts@.take(0) =~= Seq::<Amount>::empty());
    }
    while i < amounts.len()
        invariant
            i <= amounts.len(),
            sum == total(amounts@.take(i as int)),
        decreases amounts.len() - i,
    {
        proof {
            assert(amounts@.take(i + 1).drop_last() =~= amounts@.take(i as int));
            lemma_total_of_part(amounts@, i + 1);
        }
        match sum.checked_add(amounts[i].msat()) {
            Some(more) => {
                sum = more;
            },
            None => return None,
        }
        i = i + 1;
    }
    proof {
        assert(amounts@.take(i as int) =~= amounts@);
    }
    Some(Amount::from_msat(sum))
}

/// Makes the response that tells the balance from the node's reply.
pub fn balance_of_reply(reply: &FundsReply) -> (response: Result<Response, BalanceError>)
    requires
        reply matches FundsReply::Channels { amounts } ==> total(amounts@) <= u64::MAX,
    ensures
        match reply {
            FundsReply::Channels { amounts } => {
                &&& response matches Ok(response)
                &&& response@ == balance_response(total(amounts@))
                &&& response.result matches Some(ResponseResult::GetBalance { balance })
                &&& balance == total(amounts@)
            },
            FundsReply::WrongResponse => response matches Err(error) && error
                == BalanceError::WrongResponse,
            FundsReply::RpcError => response matches Err(error) && error == BalanceError::RpcError,
        },
{
    match reply {
        FundsReply::Channels { amounts } => {
            let balance = checked_total(amounts).unwrap();
            Ok(Response::balance(balance.msat()))
        },
        FundsReply::WrongResponse => Err(BalanceError::WrongResponse),
        FundsReply::RpcError => Err(BalanceError::RpcError),
    }
}

/// What is to be done about a message of the relay.
#[derive(Debug)]
pub enum Action {
    /// Nothing.
    Ignore,
    /// Send the event that answers the relay's challenge.
    Authenticate { event: SignedEvent },
    /// Do not act upon the event that came, but send the answer to it, where there is one.
    Reject { rejection: Rejection },
    /// Have the Lightning node make a payment, and hand its reply to `finish_payment`.
    Pay { payment: Payment },
    /// Make no payment.
    Decline { error: PayError },
    /// Ask the Lightning node for its funds, and hand its reply to `get_balance`.
    ListFunds,
    /// Stop: the wallet does not carry out what it was asked for.
    Stop { refused: NotImplemented },
}

impl ClnNwcView {
    /// What the wallet does about an event: it turns down what is not a request of the
    /// client, looks at the invoice that the client wants paid, has the funds listed where
    /// the client asks for the balance, and stops at any other request.
    pub open spec fn acts_on(self, event: EventView, after: ClnNwcView, action: Action) -> bool {
        match self.judged(event) {
            Err(_) => {
                &&& after == self
                &&& action matches Action::Reject { rejection }
                &&& self.rejects(event, rejection)
            },
            Ok(request) => match request.method {
                Method::PayInvoice => match action {
                    Action::Pay { payment } => self.admits(
                        request.invoice->0,
                        after,
                        Ok(payment@),
                    ),
                    Action::Decline { error } => self.admits(
                        request.invoice->0,
                        after,
                        Err(error),
                    ),
                    _ => false,
                },
                Method::GetBalance => after == self && action is ListFunds,
                method => {
                    &&& after == self
                    &&& action matches Action::Stop { refused }
                    &&& refused.method() == method
                },
            },
        }
    }
}

/// Whatever event comes, the wallet keeps its keys, its relay and its limits, what it spent
/// stays within those limits, and so it does after a payment that it then has made,
/// whatever the node replies. Only for the client is anything done.
pub proof fn law_wallet_stays_within_limits(
    wallet: ClnNwcView,
    event: EventView,
    after: ClnNwcView,
    action: Action,
    reply: PayReply,
)
    requires
        wallet.limits.within(),
        wallet.acts_on(event, after, action),
    ensures
        after == (ClnNwcView {
            limits: LimitsView {
                hour_start: after.limits.hour_start,
                hour_value: after.limits.hour_value,
                day_start: after.limits.day_start,
                day_value: after.limits.day_value,
                ..wallet.limits
            },
            ..wallet
        }),
        after.limits.within(),
        action matches Action::Pay { payment } ==> {
            &&& payment@.amount <= wallet.limits.max_invoice
            &&& settlement(after.limits, payment@.amount, reply).0.within()
        },
        !(action is Reject) ==> {
            &&& is_genuine(event.json)
            &&& event.pubkey == wallet.client_keys.public
        },
{
}

impl ClnNwc {
    /// A wallet with the keys `nwc_keys` for the client with the keys `client_keys`, at a
    /// relay.
    pub fn new(client_keys: Keys, nwc_keys: Keys, relay: &str, limits: Limits) -> (wallet: Result<
        ClnNwc,
        SetupError,
    >)
        ensures
            match wallet {
                Ok(wallet) => {
                    &&& wallet@.client_keys == client_keys@
                    &&& wallet@.nwc_keys == nwc_keys@
                    &&& wallet@.client_keys.wf()
                    &&& wallet@.nwc_keys.wf()
                    &&& relay_of_text(relay@) == Some(wallet@.relay)
                    &&& wallet@.limits == limits@
                    &&& wallet@.nwc_url == wallet_uri(
                        nwc_keys@.public,
                        relay@,
                        client_keys@.secret,
                    )
                    &&& is_web_socket(relay@) ==> wallet@.nwc_url is Some
                    &&& wallet@.nwc_url matches Some(nwc_url) ==> uri_start(
                        nwc_keys@.public,
                        client_keys@.secret,
                    ).is_prefix_of(nwc_url)
                },
                Err(error) => error == SetupError::InvalidRelay && relay_of_text(relay@) is None,
            },
    {
        let nwc_url = make_uri(&nwc_keys.public_key(), relay, &client_keys.secret_key());
        match parse_relay(relay) {
            Some(relay) => Ok(ClnNwc { client_keys, nwc_keys, relay, limits, nwc_url }),
            None => Err(SetupError::InvalidRelay),
        }
    }

    /// The address of the relay.
    pub fn relay(&self) -> (relay: &str)
        ensures
            relay@ == self@.relay,
    {
        self.relay.as_str()
    }

    /// The limits, with what was spent.
    pub fn limits(&self) -> (limits: &Limits)
        ensures
            limits@ == self@.limits,
    {
        &self.limits
    }

    /// The address by which the client finds the wallet, where the relay can stand in one.
    pub fn nwc_url(&self) -> (nwc_url: Option<&str>)
        ensures
            match nwc_url {
                Some(nwc_url) => self@.nwc_url == Some(nwc_url@),
                None => self@.nwc_url is None,
            },
    {
        match &self.nwc_url {
            Some(nwc_url) => Some(nwc_url.as_str()),
            None => None,
        }
    }

    /// Seals a response for the public key `to` and signs it as the answer to `request`.
    fn answer(&self, to: &[u8; 32], request: &[u8; 32], response: &Response) -> (answer: Option<
        SignedEvent,
    >)
        ensures
            answer is Some <==> is_public_key(to@),
            answer matches Some(answer) ==> is_answer(
                answer@,
                self@.nwc_keys,
                to@,
                request@,
                response@,
            ),
    {
        let secret = self.nwc_keys.secret_key();
        match encrypt(&secret, to, response.to_json().as_str()) {
            Some(content) => sign_answer(
                &secret,
                WALLET_CONNECT_RESPONSE,
                content.as_str(),
                to,
                request,
            ),
            None => None,
        }
    }

    /// Checks that it is a valid event and from an authorized pubkey. A request from
    /// another public key is refused, with an answer that says so. A request that the client
    /// wrote down, sealed and signed comes out as it went in.
    pub fn verify_event(&self, event: &Event) -> (request: Result<Request, Rejection>)
        ensures
            match request {
                Ok(request) => self@.judged(event@) == Ok::<RequestView, Refusal>(request@),
                Err(rejection) => self@.rejects(event@, rejection),
            },
            event@.is_whole(),
            forall|asked: ClientRequest|
                #[trigger] self@.is_asked_by_client(event@, asked) ==> request is Ok
                    && request->Ok_0@ == asked.request(),
    {
        if !event.verify() {
            return Err(Rejection { refusal: Refusal::InvalidEvent, answer: None });
        }
        let client = self.client_keys.public_key();
        let secret = self.nwc_keys.secret_key();
        let json = match decrypt(&secret, &client, event.content()) {
            Some(json) => json,
            None => return Err(Rejection { refusal: Refusal::NotDecrypted, answer: None }),
        };
        let request = match Request::from_json(json.as_str()) {
            Some(request) => request,
            None => return Err(Rejection { refusal: Refusal::NotDecoded, answer: None }),
        };
        // Check event is from correct pubkey
        match authorize(request, &event.pubkey(), &client) {
            Ok(request) => Ok(request),
            Err(response) => {
                let answer = self.answer(&client, &event.id(), &response);
                Err(Rejection { refusal: Refusal::Unauthorized, answer })
            },
        }
    }

    /// Decides what to do about a message of the relay.
    pub fn handle(&mut self, message: &RelayMessage) -> (action: Action)
        ensures
            match *message {
                RelayMessage::Event { event } => old(self)@.acts_on(event@, final(self)@, action),
                RelayMessage::Auth { challenge } => {
                    &&& final(self)@ == old(self)@
                    &&& action matches Action::Authenticate { event }
                    &&& is_signed(
                        event@,
                        old(self)@.nwc_keys.secret,
                        AUTHENTICATION,
                        ""@,
                        auth_tags(challenge@, old(self)@.relay),
                    )
                    &&& event@.tags == seq![
                        seq!["challenge"@, challenge@],
                        seq!["relay"@, old(self)@.relay],
                    ]
                    &&& event.kind == 22242
                    &&& event.content@ == ""@
                },
                RelayMessage::Other => final(self)@ == old(self)@ && action is Ignore,
            },
            action matches Action::Pay { payment } ==> final(self)@.limits.can_count(
                payment@.amount,
            ),
    {
        match message {
            RelayMessage::Event { event } => match self.verify_event(event) {
                Ok(request) => match dispatch(request) {
                    Ok(Command::PayInvoice { invoice }) => match self.pay_invoice(
                        invoice.as_str(),
                    ) {
                        Ok(payment) => Action::Pay { payment },
                        Err(error) => Action::Decline { error },
                    },
                    Ok(Command::GetBalance) => Action::ListFunds,
                    Err(refused) => Action::Stop { refused },
                },
                Err(rejection) => Action::Reject { rejection },
            },
            RelayMessage::Auth { challenge } => {
                let secret = self.nwc_keys.secret_key();
                let event = sign_auth(&secret, challenge.as_str(), self.relay.as_str());
                Action::Authenticate { event: event.unwrap() }
            },
            RelayMessage::Other => Action::Ignore,
        }
    }

    /// The event that answers the challenge of a relay, where the relay has a valid
    /// address.
    pub fn auth(&self, challenge: &str, relay: &str) -> (event: Option<SignedEvent>)
        ensures
            match event {
                Some(event) => {
                    &&& relay_of_text(relay@) is Some
                    &&& is_signed(
                        event@,
                        self@.nwc_keys.secret,
                        AUTHENTICATION,
                        ""@,
                        auth_tags(challenge@, relay_of_text(relay@)->0),
                    )
                    &&& event@.tags == seq![
                        seq!["challenge"@, challenge@],
                        seq!["relay"@, relay_of_text(relay@)->0],
                    ]
                    &&& event.kind == 22242
                    &&& event.content@ == ""@
                },
                None => relay_of_text(relay@) is None,
            },
    {
        match parse_relay(relay) {
            Some(address) => sign_auth(&self.nwc_keys.secret_key(), challenge, address.as_str()),
            None => None,
        }
    }

    /// Looks at an invoice that the client wants paid. Where it may be, the payment is to
    /// be handed to the Lightning node, and the node's reply to `finish_payment`.
    pub fn pay_invoice(&mut self, invoice: &str) -> (payment: Result<Payment, PayError>)
        ensures
            old(self)@.admits(invoice@, final(self)@, payment_view(payment)),
            payment matches Ok(payment) ==> final(self)@.limits.can_count(payment@.amount),
            payment matches Ok(payment) ==> {
                &&& invoice_of_text(invoice@) matches Some(parsed)
                &&& payment.bolt11@ == parsed.bolt11
                &&& parsed.amount_msat matches Some(msat)
                &&& payment.amount@ == msat
            },
    {
        let now = self.limits.now();
        let parsed = parse_invoice(invoice);
        let mut limits = self.limits;
        let payment = admit_payment(&mut limits, parsed, now.nanos());
        self.limits = limits;
        assert(self@ == (ClnNwcView { limits: limits@, ..old(self)@ }));
        payment
    }

    /// Counts the outcome of a payment that `pay_invoice` let pass, and signs the answer
    /// to the request `event_id`.
    pub fn finish_payment(
        &mut self,
        event_id: &[u8; 32],
        payment: &Payment,
        reply: &PayReply,
    ) -> (answer: Result<SignedEvent, PayError>)
        requires
            old(self)@.limits.can_count(payment@.amount),
        ensures
            ({
                let (limits_after, outcome) = settlement(
                    old(self)@.limits,
                    payment@.amount,
                    *reply,
                );
                &&& final(self)@ == (ClnNwcView { limits: limits_after, ..old(self)@ })
                &&& match answer {
                    Ok(answer) => outcome matches Ok(response) && is_answer(
                        answer@,
                        old(self)@.nwc_keys,
                        old(self)@.client_keys.public,
                        event_id@,
                        response,
                    ),
                    Err(error) => outcome == Err::<ResponseView, PayError>(error),
                }
            }),
            answer is Ok <==> reply is Complete,
            answer matches Ok(answer) ==> is_answer(
                answer@,
                old(self)@.nwc_keys,
                old(self)@.client_keys.public,
                event_id@,
                ResponseView {
                    result_type: Method::PayInvoice,
                    error: None,
                    result: Some(ResultView::PayInvoice { preimage: hex_digits(reply->preimage@) }),
                },
            ),
    {
        let mut limits = self.limits;
        let outcome = settle_payment(&mut limits, payment.amount, reply);
        self.limits = limits;
        match outcome {
            Ok(response) => {
                let client = self.client_keys.public_key();
                Ok(self.answer(&client, event_id, &response).unwrap())
            },
            Err(error) => Err(error),
        }
    }

    /// Signs the answer that tells the balance to the public key that asked for it, from
    /// the node's reply.
    pub fn get_balance(&self, event: &Event, reply: &FundsReply) -> (answer: Result<
        SignedEvent,
        BalanceError,
    >)
        requires
            reply matches FundsReply::Channels { amounts } ==> total(amounts@) <= u64::MAX,
        ensures
            match reply {
                FundsReply::Channels { amounts } => match answer {
                    Ok(answer) => is_public_key(event@.pubkey) && is_answer(
                        answer@,
                        self@.nwc_keys,
                        event@.pubkey,
                        event@.id,
                        balance_response(total(amounts@)),
                    ),
                    Err(error) => error == BalanceError::NotEncrypted && !is_public_key(
                        event@.pubkey,
                    ),
                },
                FundsReply::WrongResponse => answer matches Err(error) && error
                    == BalanceError::WrongResponse,
                FundsReply::RpcError => answer matches Err(error) && error
                    == BalanceError::RpcError,
            },
    {
        match balance_of_reply(reply) {
            Ok(response) => match self.answer(&event.pubkey(), &event.id(), &response) {
                Some(answer) => Ok(answer),
                None => Err(BalanceError::NotEncrypted),
            },
            Err(error) => Err(error),
        }
    }
}

/// What is to be paid is the invoice that was looked at, whole, and the amount that it names,
/// whatever the limits, the time and the invoice.
pub proof fn law_what_is_paid_is_the_invoice(
    limits: LimitsView,
    invoice: Option<InvoiceView>,
    now: nat,
)
    ensures
        admission(limits, invoice, now).1 matches Ok(payment) ==> {
            &&& invoice matches Some(invoice)
            &&& payment.bolt11 == invoice.bolt11
            &&& invoice.amount_msat matches Some(msat)
            &&& payment.amount == msat
            &&& msat <= limits.max_invoice
        },
{
}

/// Which invoices are let pass when the clock shows `now`, why the others are not, and what
/// becomes of the limits. What was spent in an hour that started more than 3600 seconds ago,
/// or in a day that started more than 86400 seconds ago, no longer counts.
pub proof fn law_invoices_are_held_against_the_limits(
    limits: LimitsView,
    invoice: Option<InvoiceView>,
    now: nat,
)
    ensures
        ({
            let (after, outcome) = admission(limits, invoice, now);
            match invoice {
                None => {
                    &&& outcome == Err::<PaymentView, PayError>(PayError::InvalidInvoice)
                    &&& after == limits
                },
                Some(invoice) => match invoice.amount_msat {
                    None => {
                        &&& outcome == Err::<PaymentView, PayError>(PayError::AmountNotDefined)
                        &&& after == limits
                    },
                    Some(msat) => if msat > limits.max_invoice {
                        &&& outcome == Err::<PaymentView, PayError>(PayError::InvoiceTooLarge)
                        &&& after == limits
                    } else {
                        let hour_over = now > limits.hour_start + 3600 * 1_000_000_000;
                        let day_over = now > limits.day_start + 86400 * 1_000_000_000;
                        let hour_spent = if hour_over { 0 } else { limits.hour_value };
                        let day_spent = if day_over { 0 } else { limits.day_value };
                        &&& hour_spent + msat <= limits.hour_limit && day_spent + msat
                            <= limits.day_limit ==> {
                            &&& outcome matches Ok(payment)
                            &&& payment.bolt11 == invoice.bolt11
                            &&& payment.amount == msat
                        }
                        &&& hour_spent + msat > limits.hour_limit || day_spent + msat
                            > limits.day_limit ==> outcome == Err::<PaymentView, PayError>(
                            PayError::LimitsExceeded,
                        )
                        &&& after == (LimitsView {
                            hour_start: if hour_over { now } else { limits.hour_start },
                            hour_value: hour_spent,
                            day_start: if day_over { now } else { limits.day_start },
                            day_value: day_spent,
                            ..limits
                        })
                    },
                },
            }
        }),
{
}

/// The wallet looks at the invoice that the text spells out, at a time that its own clock
/// shows, and changes nothing but what it spent and when the hour and the day started.
pub proof fn law_invoices_of_requests(
    wallet: ClnNwcView,
    text: Seq<char>,
    after: ClnNwcView,
    outcome: Result<PaymentView, PayError>,
)
    requires
        wallet.admits(text, after, outcome),
    ensures
        after == (ClnNwcView { limits: after.limits, ..wallet }),
        exists|reading: Reading|
            {
                let now = reading@.nanos as nat;
                let limits = wallet.limits;
                &&& (#[trigger] reading@).clock == limits.clock
                &&& match invoice_of_text(text) {
                    None => {
                        &&& outcome == Err::<PaymentView, PayError>(PayError::InvalidInvoice)
                        &&& after.limits == limits
                    },
                    Some(invoice) => match invoice.amount_msat {
                        None => {
                            &&& outcome == Err::<PaymentView, PayError>(PayError::AmountNotDefined)
                            &&& after.limits == limits
                        },
                        Some(msat) => if msat > limits.max_invoice {
                            &&& outcome == Err::<PaymentView, PayError>(PayError::InvoiceTooLarge)
                            &&& after.limits == limits
                        } else {
                            let hour_over = now > limits.hour_start + 3600 * 1_000_000_000;
                            let day_over = now > limits.day_start + 86400 * 1_000_000_000;
                            let hour_spent = if hour_over { 0 } else { limits.hour_value };
                            let day_spent = if day_over { 0 } else { limits.day_value };
                            &&& hour_spent + msat <= limits.hour_limit && day_spent + msat
                                <= limits.day_limit ==> {
                                &&& outcome matches Ok(payment)
                                &&& payment.bolt11 == invoice.bolt11
                                &&& payment.amount == msat
                            }
                            &&& hour_spent + msat > limits.hour_limit || day_spent + msat
                                > limits.day_limit ==> outcome == Err::<PaymentView, PayError>(
                                PayError::LimitsExceeded,
                            )
                            &&& after.limits == (LimitsView {
                                hour_start: if hour_over { now } else { limits.hour_start },
                                hour_value: hour_spent,
                                day_start: if day_over { now } else { limits.day_start },
                                day_value: day_spent,
                                ..limits
                            })
                        },
                    },
                }
            },
{
    let reading = choose|reading: Reading|
        {
            let (limits_after, decided) = admission(
                wallet.limits,
                invoice_of_text(text),
                reading@.nanos as nat,
            );
            &&& (#[trigger] reading@).clock == wallet.limits.clock
            &&& after == (ClnNwcView { limits: limits_after, ..wallet })
            &&& outcome == decided
        };
    law_invoices_are_held_against_the_limits(
        wallet.limits,
        invoice_of_text(text),
        reading@.nanos as nat,
    );
    assert(reading@.clock == wallet.limits.clock);
}

/// Whatever the clock shows, an invoice is let pass if its amount exceeds neither limit
/// together with what was spent, and is not if it exceeds a limit by itself.
pub proof fn law_invoices_whatever_the_time(
    wallet: ClnNwcView,
    text: Seq<char>,
    after: ClnNwcView,
    outcome: Result<PaymentView, PayError>,
    invoice: InvoiceView,
    msat: u64,
)
    requires
        wallet.admits(text, after, outcome),
        invoice_of_text(text) == Some(invoice),
        invoice.amount_msat == Some(msat),
        msat <= wallet.limits.max_invoice,
    ensures
        wallet.limits.hour_value + msat <= wallet.limits.hour_limit && wallet.limits.day_value
            + msat <= wallet.limits.day_limit ==> {
            &&& outcome matches Ok(payment)
            &&& payment.bolt11 == invoice.bolt11
            &&& payment.amount == msat
        },
        msat > wallet.limits.hour_limit || msat > wallet.limits.day_limit ==> outcome == Err::<
            PaymentView,
            PayError,
        >(PayError::LimitsExceeded),
{
}

/// What becomes of an event: each reason not to act upon it, and when it is acted upon.
pub proof fn law_judgements(wallet: ClnNwcView, event: EventView)
    ensures
        ({
            let judged = wallet.judged(event);
            let text = nip04_text(
                wallet.nwc_keys.secret,
                wallet.client_keys.public,
                event.content,
            );
            if !is_genuine(event.json) {
                judged == Err::<RequestView, Refusal>(Refusal::InvalidEvent)
            } else {
                match text {
                    None => judged == Err::<RequestView, Refusal>(Refusal::NotDecrypted),
                    Some(json) => match request_of_raw(raw_request_of_json(json)) {
                        None => judged == Err::<RequestView, Refusal>(Refusal::NotDecoded),
                        Some(request) => if event.pubkey == wallet.client_keys.public {
                            judged == Ok::<RequestView, Refusal>(request)
                        } else {
                            judged == Err::<RequestView, Refusal>(Refusal::Unauthorized)
                        },
                    },
                }
            }
        }),
{
}

/// What the wallet does about an event, by the name of the method in a request of the client:
/// it pays the invoice or declines to, has the funds listed if and only if the balance is asked
/// for, stops at the methods that it does not carry out, and turns down everything else. Only
/// a request to pay changes it.
pub proof fn law_actions_follow_the_request(
    wallet: ClnNwcView,
    event: EventView,
    after: ClnNwcView,
    action: Action,
)
    requires
        wallet.acts_on(event, after, action),
    ensures
        ({
            let text = nip04_text(
                wallet.nwc_keys.secret,
                wallet.client_keys.public,
                event.content,
            );
            let raw = raw_request_of_json(text->0)->0;
            let heard = {
                &&& is_genuine(event.json)
                &&& event.pubkey == wallet.client_keys.public
                &&& text is Some
                &&& raw_request_of_json(text->0) is Some
            };
            &&& heard && raw.method == "pay_invoice"@ && raw.invoice is Some ==> {
                ||| action matches Action::Pay { payment } && wallet.admits(
                    raw.invoice->0,
                    after,
                    Ok(payment@),
                )
                ||| action matches Action::Decline { error } && wallet.admits(
                    raw.invoice->0,
                    after,
                    Err(error),
                )
            }
            &&& action is Pay || action is Decline <==> heard && raw.method == "pay_invoice"@
                && raw.invoice is Some
            &&& action is ListFunds <==> heard && raw.method == "get_balance"@
            &&& heard ==> {
                &&& raw.method == "multi_pay_invoice"@ ==> {
                    &&& after == wallet
                    &&& action matches Action::Stop { refused }
                    &&& refused == NotImplemented::MultiPayInvoice
                }
                &&& raw.method == "pay_keysend"@ ==> {
                    &&& after == wallet
                    &&& action matches Action::Stop { refused }
                    &&& refused == NotImplemented::PayKeysend
                }
                &&& raw.method == "multi_pay_keysend"@ ==> {
                    &&& after == wallet
                    &&& action matches Action::Stop { refused }
                    &&& refused == NotImplemented::MultiPayKeysend
                }
                &&& raw.method == "make_invoice"@ ==> {
                    &&& after == wallet
                    &&& action matches Action::Stop { refused }
                    &&& refused == NotImplemented::MakeInvoice
                }
                &&& raw.method == "lookup_invoice"@ ==> {
                    &&& after == wallet
                    &&& action matches Action::Stop { refused }
                    &&& refused == NotImplemented::LookupInvoice
                }
                &&& raw.method == "list_transactions"@ ==> {
                    &&& after == wallet
                    &&& action matches Action::Stop { refused }
                    &&& refused == NotImplemented::ListTransactions
                }
                &&& raw.method == "get_info"@ ==> {
                    &&& after == wallet
                    &&& action matches Action::Stop { refused }
                    &&& refused == NotImplemented::GetInfo
                }
            }
            &&& action is Stop <==> heard && {
                ||| raw.method == "multi_pay_invoice"@
                ||| raw.method == "pay_keysend"@
                ||| raw.method == "multi_pay_keysend"@
                ||| raw.method == "make_invoice"@
                ||| raw.method == "lookup_invoice"@
                ||| raw.method == "list_transactions"@
                ||| raw.method == "get_info"@
            }
            &&& !heard || (raw.method == "pay_invoice"@ && raw.invoice is None) ==> action is Reject
            &&& heard && {
                    &&& raw.method != "pay_invoice"@
                    &&& raw.method != "get_balance"@
                    &&& raw.method != "multi_pay_invoice"@
                    &&& raw.method != "pay_keysend"@
                    &&& raw.method != "multi_pay_keysend"@
                    &&& raw.method != "make_invoice"@
                    &&& raw.method != "lookup_invoice"@
                    &&& raw.method != "list_transactions"@
                    &&& raw.method != "get_info"@
            } ==> action is Reject
            &&& !(action is Ignore) && !(action is Authenticate)
            &&& !(action is Pay) && !(action is Decline) ==> after == wallet
        }),
{
    let text = nip04_text(wallet.nwc_keys.secret, wallet.client_keys.public, event.content);
    if text is Some && raw_request_of_json(text->0) is Some {
        law_names_ask_for_methods(raw_request_of_json(text->0)->0);
        law_method_names_distinct(Method::PayInvoice);
        law_method_names_distinct(Method::GetBalance);
        law_method_names_distinct(Method::MultiPayInvoice);
        law_method_names_distinct(Method::PayKeysend);
        law_method_names_distinct(Method::MultiPayKeysend);
        law_method_names_distinct(Method::MakeInvoice);
        law_method_names_distinct(Method::LookupInvoice);
        law_method_names_distinct(Method::ListTransactions);
        law_method_names_distinct(Method::GetInfo);
    }
}

/// A request of the client to pay an invoice that is valid and not too large is carried out
/// with the invoice and the amount that the client's text spells out, if its amount exceeds
/// neither limit together with what was spent. If its amount exceeds a limit by itself, or the
/// text spells out no invoice that can be paid, the wallet declines, and says why.
pub proof fn law_requests_to_pay_are_paid(
    wallet: ClnNwcView,
    event: EventView,
    after: ClnNwcView,
    action: Action,
    json: Seq<char>,
    text: Seq<char>,
)
    requires
        wallet.acts_on(event, after, action),
        is_genuine(event.json),
        event.pubkey == wallet.client_keys.public,
        nip04_text(wallet.nwc_keys.secret, wallet.client_keys.public, event.content) == Some(json),
        raw_request_of_json(json) == Some(
            RawRequestView { method: "pay_invoice"@, invoice: Some(text) },
        ),
    ensures
        match invoice_of_text(text) {
            None => action matches Action::Decline { error } && error == PayError::InvalidInvoice,
            Some(invoice) => match invoice.amount_msat {
                None => action matches Action::Decline { error } && error
                    == PayError::AmountNotDefined,
                Some(msat) => {
                    &&& msat > wallet.limits.max_invoice ==> {
                        &&& action matches Action::Decline { error }
                        &&& error == PayError::InvoiceTooLarge
                    }
                    &&& msat <= wallet.limits.max_invoice && (msat > wallet.limits.hour_limit
                        || msat > wallet.limits.day_limit) ==> {
                        &&& action matches Action::Decline { error }
                        &&& error == PayError::LimitsExceeded
                    }
                    &&& msat <= wallet.limits.max_invoice && wallet.limits.hour_value + msat
                        <= wallet.limits.hour_limit && wallet.limits.day_value + msat
                        <= wallet.limits.day_limit ==> {
                        &&& action matches Action::Pay { payment }
                        &&& payment.bolt11@ == invoice.bolt11
                        &&& payment.amount@ == msat
                    }
                    &&& action matches Action::Pay { payment } ==> {
                        &&& payment.bolt11@ == invoice.bolt11
                        &&& payment.amount@ == msat
                    }
                },
            },
        },
{
    law_actions_follow_the_request(wallet, event, after, action);
    let outcome = match action {
        Action::Pay { payment } => Ok(payment@),
        Action::Decline { error } => Err(error),
        _ => arbitrary(),
    };
    assert(wallet.admits(text, after, outcome));
    law_invoices_of_requests(wallet, text, after, outcome);
    if let Some(invoice) = invoice_of_text(text) {
        if let Some(msat) = invoice.amount_msat {
            if msat <= wallet.limits.max_invoice {
                law_invoices_whatever_the_time(wallet, text, after, outcome, invoice, msat);
            }
        }
    }
}

/// What the wallet answers to a request that another public key than the client's made: an
/// event to the client and about that request, from the wallet, in which the client's secret
/// key opens these words. Nothing else that is turned down is answered.
pub proof fn law_refused_requests_are_answered(
    wallet: ClnNwcView,
    event: EventView,
    rejection: Rejection,
)
    requires
        wallet.client_keys.wf(),
        wallet.rejects(event, rejection),
    ensures
        wallet.judged(event) == Err::<RequestView, Refusal>(rejection.refusal),
        rejection.answer is Some <==> rejection.refusal == Refusal::Unauthorized,
        rejection.answer matches Some(answer) ==> {
            let text = nip04_text(
                wallet.nwc_keys.secret,
                wallet.client_keys.public,
                event.content,
            )->0;
            &&& is_genuine(answer.json@)
            &&& answer.kind == 23195
            &&& answer@.tags == seq![
                seq!["p"@, hex_digits(wallet.client_keys.public)],
                seq!["e"@, hex_digits(event.id)],
            ]
            &&& public_key_of(wallet.nwc_keys.secret) == Some(answer.pubkey@)
            &&& nip04_text(wallet.client_keys.secret, answer.pubkey@, answer.content@) == Some(
                "{\"result_type\":\""@ + raw_request_of_json(text)->0.method
                    + "\",\"error\":{\"code\":\"UNAUTHORIZED\",\"message\":\"Unauthorized pubkey\"}}"@,
            )
        },
{
    law_judgements(wallet, event);
    let text = nip04_text(wallet.nwc_keys.secret, wallet.client_keys.public, event.content)->0;
    if rejection.answer is Some {
        let raw = raw_request_of_json(text)->0;
        let method = request_in(wallet.decrypted(event))->0.method;
        law_names_ask_for_methods(raw);
        law_methods_have_their_names(method);
        law_text_of_an_unauthorized_response(method);
        assert(method_name(method) == raw.method);
    }
}

/// An answer is genuine, a response of a wallet by its kind, from the wallet, and says for whom
/// it is and which request it answers; the JSON text of the event says so too.
pub proof fn law_answers_name_the_request(
    answer: SignedEventView,
    wallet: KeysView,
    to: Seq<u8>,
    request: Seq<u8>,
    response: ResponseView,
)
    requires
        is_answer(answer, wallet, to, request, response),
    ensures
        is_genuine(answer.json),
        answer.kind == 23195,
        answer.tags == seq![seq!["p"@, hex_digits(to)], seq!["e"@, hex_digits(request)]],
        public_key_of(wallet.secret) == Some(answer.pubkey),
        event_of_json(answer.json) matches Some(parts) && parts.kind == 23195 && parts.tags
            == answer.tags && parts.pubkey == answer.pubkey && parts.id == answer.id
            && parts.content == answer.content,
{
}

/// What the node's reply to a payment leads to. A payment that is complete or under way adds
/// its amount to what was spent in the hour and in the day, and nothing else is changed; a
/// complete one is answered with the whole preimage, two digits for each of its bytes, and any
/// other is not.
pub proof fn law_payments_are_settled(limits: LimitsView, amount: nat, reply: PayReply)
    ensures
        ({
            let (after, outcome) = settlement(limits, amount, reply);
            &&& match reply {
                PayReply::Complete { preimage } => {
                    &&& outcome matches Ok(response)
                    &&& response.result_type == Method::PayInvoice
                    &&& response.error is None
                    &&& response.result matches Some(ResultView::PayInvoice { preimage: told })
                    &&& told.len() == 2 * preimage@.len()
                    &&& forall|i: int|
                        0 <= i < preimage@.len() ==> #[trigger] preimage@[i] == 16 * digit_value(
                            told[2 * i],
                        ) + digit_value(told[2 * i + 1])
                },
                PayReply::Pending => outcome == Err::<ResponseView, PayError>(
                    PayError::PaymentPending,
                ),
                PayReply::Failed => outcome == Err::<ResponseView, PayError>(
                    PayError::PaymentFailed,
                ),
                PayReply::WrongResponse => outcome == Err::<ResponseView, PayError>(
                    PayError::WrongResponse,
                ),
                PayReply::RpcError => outcome == Err::<ResponseView, PayError>(PayError::RpcError),
            }
            &&& reply is Complete || reply is Pending ==> after == (LimitsView {
                hour_value: limits.hour_value + amount,
                day_value: limits.day_value + amount,
                ..limits
            })
            &&& !(reply is Complete) && !(reply is Pending) ==> after == limits
        }),
{
    if let PayReply::Complete { preimage } = reply {
        law_hex_spells_every_byte(preimage@);
    }
}

/// The client whose payment is complete opens the answer and reads the preimage in it,
/// whole and in hexadecimal.
pub proof fn law_client_reads_the_preimage(
    answer: SignedEventView,
    wallet: ClnNwcView,
    request: Seq<u8>,
    amount: nat,
    preimage: Vec<u8>,
)
    requires
        wallet.client_keys.wf(),
        settlement(wallet.limits, amount, PayReply::Complete { preimage }).1 matches Ok(response)
            && is_answer(
            answer,
            wallet.nwc_keys,
            wallet.client_keys.public,
            request,
            response,
        ),
    ensures
        nip04_text(wallet.client_keys.secret, answer.pubkey, answer.content) == Some(
            "{\"result_type\":\"pay_invoice\",\"result\":{\"preimage\":\""@ + hex_digits(preimage@)
                + "\"}}"@,
        ),
{
    law_text_of_a_paid_response(preimage@);
}

/// Whoever asked for the balance opens the answer and reads the sum of what the channels hold
/// in it, in decimal.
pub proof fn law_client_reads_the_balance(
    answer: SignedEventView,
    wallet: KeysView,
    to: Seq<u8>,
    request: Seq<u8>,
    amounts: Seq<Amount>,
    reader: Seq<u8>,
)
    requires
        total(amounts) <= u64::MAX,
        is_answer(answer, wallet, to, request, balance_response(total(amounts))),
        public_key_of(reader) == Some(to),
    ensures
        nip04_text(reader, answer.pubkey, answer.content) == Some(
            "{\"result_type\":\"get_balance\",\"result\":{\"balance\":"@ + decimal(total(amounts))
                + "}}"@,
        ),
{
    law_text_of_a_balance_response(total(amounts));
}

/// The sum of no amounts is nothing, and one more amount adds what it is, however many there
/// are already.
pub proof fn law_every_amount_counts(amounts: Seq<Amount>, one: Amount)
    ensures
        total(Seq::<Amount>::empty()) == 0,
        total(seq![one]) == one@,
        total(amounts.push(one)) == total(amounts) + one@,
        total(seq![one] + amounts) == one@ + total(amounts),
{
    assert(amounts.push(one).drop_last() =~= amounts);
    assert(seq![one].drop_last() =~= Seq::<Amount>::empty());
    law_totals_of_parts(seq![one], amounts);
}

/// The sum of two lists of amounts, one after the other, is the sum of their sums, in
/// whichever order they come.
pub proof fn law_totals_of_parts(first: Seq<Amount>, second: Seq<Amount>)
    ensures
        total(first + second) == total(first) + total(second),
        total(first + second) == total(second + first),
{
    lemma_total_of_two(first, second);
    lemma_total_of_two(second, first);
}

/// The sum of two lists of amounts, one after the other.
proof fn lemma_total_of_two(first: Seq<Amount>, second: Seq<Amount>)
    ensures
        total(first + second) == total(first) + total(second),
    decreases second.len(),
{
    if second.len() == 0 {
        assert(first + second =~= first);
    } else {
        lemma_total_of_two(first, second.drop_last());
        assert((first + second).drop_last() =~= first + second.drop_last());
    }
}

/// The address of the wallet spells the wallet's public key and the client's secret key, each
/// with all its bytes, at these places.
pub proof fn law_addresses_spell_the_keys(public: Seq<u8>, secret: Seq<u8>)
    requires
        public.len() == 32,
        secret.len() == 32,
    ensures
        uri_start(public, secret).len() == 165,
        uri_start(public, secret).subrange(0, 22) == "nostr+walletconnect://"@,
        uri_start(public, secret).subrange(22, 86) == hex_digits(public),
        uri_start(public, secret).subrange(86, 94) == "?secret="@,
        uri_start(public, secret).subrange(94, 158) == hex_digits(secret),
        uri_start(public, secret).subrange(158, 165) == "&relay="@,
{
    reveal_strlit("nostr+walletconnect://");
    reveal_strlit("?secret=");
    reveal_strlit("&relay=");
}

/// A host behind `ws://` or `wss://`, with a path but no port, is the address of a web socket.
pub proof fn law_hosts_are_web_sockets(host: Seq<char>)
    requires
        !host.contains(':'),
    ensures
        is_web_socket("ws://"@ + host),
        is_web_socket("wss://"@ + host),
{
    reveal_strlit("ws://");
    reveal_strlit("wss://");
    reveal_strlit("://");
    assert("://"@[0] == ':');
    assert forall|i: int| 4 <= i <= ("ws://"@ + host).len() - 3 implies #[trigger] ("ws://"@
        + host).subrange(i, i + 3) != "://"@ by {
        let text = "ws://"@ + host;
        assert(text.subrange(i, i + 3)[0] == text[i]);
        assert(i > 4 ==> host.contains(text[i])) by {
            if i > 4 {
                assert(host[i - 5] == text[i]);
            }
        }
    }
    assert forall|i: int| 4 <= i <= ("wss://"@ + host).len() - 3 implies #[trigger] ("wss://"@
        + host).subrange(i, i + 3) != "://"@ by {
        let text = "wss://"@ + host;
        assert(text.subrange(i, i + 3)[0] == text[i]);
        assert(i > 5 ==> host.contains(text[i])) by {
            if i > 5 {
                assert(host[i - 6] == text[i]);
            }
        }
    }
}

/// What is said of a payment is what it holds.
pub proof fn law_payments_are_seen_whole(payment: Payment, outcome: Result<Payment, PayError>)
    ensures
        payment@.bolt11 == payment.bolt11@,
        payment@.amount == payment.amount@,
        match outcome {
            Ok(passed) => payment_view(outcome) matches Ok(seen) && seen.bolt11 == passed.bolt11@
                && seen.amount == passed.amount@,
            Err(error) => payment_view(outcome) == Err::<PaymentView, PayError>(error),
        },
{
}

/// What is said of a wallet is what it holds.
proof fn law_wallets_are_seen_whole(wallet: ClnNwc)
    ensures
        wallet@.client_keys == wallet.client_keys@,
        wallet@.nwc_keys == wallet.nwc_keys@,
        wallet@.relay == wallet.relay@,
        wallet@.limits == wallet.limits@,
        match wallet.nwc_url {
            Some(nwc_url) => wallet@.nwc_url == Some(nwc_url@),
            None => wallet@.nwc_url is None,
        },
{
}

/// An event is the client's if the client signed it and sealed a text in it for the wallet, and
/// in no other case; the wallet then reads that text.
pub proof fn law_sealed_texts_are_read(
    wallet: ClnNwcView,
    event: EventView,
    json: Seq<char>,
    asked: ClientRequest,
)
    requires
        wallet.client_keys.wf(),
        wallet.nwc_keys.wf(),
    ensures
        wallet.is_sent_by_client(event, json) <==> {
            &&& is_genuine(event.json)
            &&& event.pubkey == wallet.client_keys.public
            &&& nip04_seals(wallet.client_keys.secret, wallet.nwc_keys.public, json, event.content)
        },
        wallet.is_asked_by_client(event, asked) <==> wallet.is_sent_by_client(event, asked.json()),
        wallet.is_sent_by_client(event, json) ==> nip04_text(
            wallet.nwc_keys.secret,
            wallet.client_keys.public,
            event.content,
        ) == Some(json),
{
}

/// An hour is current for 3600 seconds after it started, and a day for 86400 seconds.
pub proof fn law_current_hour_and_day(limits: LimitsView, now: nat)
    ensures
        is_current(limits, now) <==> {
            &&& now <= limits.hour_start + 3600 * 1_000_000_000
            &&& now <= limits.day_start + 86400 * 1_000_000_000
        },
{
}

} // verus!
