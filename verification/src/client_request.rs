//! What clients write: the JSON texts of the requests of Nostr Wallet Connect (NIP-47), with
//! all their parameters.
use vstd::prelude::*;

use crate::json::{
    array, joined, json_string, law_plain_texts_are_spelled_as_they_are, member, number_member,
    object, text_member,
};
use crate::nip47::{method_name, Method, RequestView};

verus! {

/// The parameters of a request to pay an invoice.
pub struct PayInvoice {
    pub id: Option<Seq<char>>,
    pub invoice: Seq<char>,
    pub amount: Option<u64>,
}

/// The parameters of a request to pay without an invoice.
pub struct PayKeysend {
    pub id: Option<Seq<char>>,
    pub amount: u64,
    pub pubkey: Seq<char>,
    pub preimage: Option<Seq<char>>,
    /// Records to hand over with the payment, each a number and a text.
    pub tlv_records: Seq<(u64, Seq<char>)>,
}

/// A request as a client makes it.
pub enum ClientRequest {
    PayInvoice { invoice: PayInvoice },
    MultiPayInvoice { invoices: Seq<PayInvoice> },
    PayKeysend { keysend: PayKeysend },
    MultiPayKeysend { keysends: Seq<PayKeysend> },
    MakeInvoice {
        amount: u64,
        description: Option<Seq<char>>,
        description_hash: Option<Seq<char>>,
        expiry: Option<u64>,
    },
    LookupInvoice { payment_hash: Option<Seq<char>>, bolt11: Option<Seq<char>> },
    ListTransactions {
        from: Option<u64>,
        until: Option<u64>,
        limit: Option<u64>,
        offset: Option<u64>,
        unpaid: Option<bool>,
        /// Whether only incoming payments are meant, or only outgoing ones.
        incoming: Option<bool>,
    },
    GetBalance,
    GetInfo,
}

impl PayInvoice {
    /// The parameters as a JSON object.
    pub open spec fn json(self) -> Seq<char> {
        object(
            text_member("id"@, self.id) + text_member("invoice"@, Some(self.invoice))
                + number_member("amount"@, self.amount),
        )
    }
}

/// A record to hand over with a payment as a JSON object.
pub open spec fn tlv_record_json(record: (u64, Seq<char>)) -> Seq<char> {
    object(number_member("type"@, Some(record.0)) + text_member("value"@, Some(record.1)))
}

impl PayKeysend {
    /// The parameters as a JSON object.
    pub open spec fn json(self) -> Seq<char> {
        let records = array(
            self.tlv_records.map_values(|record: (u64, Seq<char>)| tlv_record_json(record)),
        );
        object(
            text_member("id"@, self.id) + number_member("amount"@, Some(self.amount)) + text_member(
                "pubkey"@,
                Some(self.pubkey),
            ) + text_member("preimage"@, self.preimage) + if self.tlv_records.len() == 0 {
                Seq::empty()
            } else {
                seq![member("tlv_records"@, records)]
            },
        )
    }
}

impl ClientRequest {
    /// What is asked for, as far as the wallet looks at it.
    pub open spec fn request(self) -> RequestView {
        RequestView {
            method: self.method(),
            invoice: match self {
                ClientRequest::PayInvoice { invoice } => Some(invoice.invoice),
                _ => None,
            },
        }
    }

    /// The method that is asked for.
    pub open spec fn method(self) -> Method {
        match self {
            ClientRequest::PayInvoice { .. } => Method::PayInvoice,
            ClientRequest::MultiPayInvoice { .. } => Method::MultiPayInvoice,
            ClientRequest::PayKeysend { .. } => Method::PayKeysend,
            ClientRequest::MultiPayKeysend { .. } => Method::MultiPayKeysend,
            ClientRequest::MakeInvoice { .. } => Method::MakeInvoice,
            ClientRequest::LookupInvoice { .. } => Method::LookupInvoice,
            ClientRequest::ListTransactions { .. } => Method::ListTransactions,
            ClientRequest::GetBalance => Method::GetBalance,
            ClientRequest::GetInfo => Method::GetInfo,
        }
    }

    /// The parameters as a JSON object.
    pub open spec fn params(self) -> Seq<char> {
        match self {
            ClientRequest::PayInvoice { invoice } => invoice.json(),
            ClientRequest::MultiPayInvoice { invoices } => object(
                seq![
                    member(
                        "invoices"@,
                        array(invoices.map_values(|invoice: PayInvoice| invoice.json())),
                    ),
                ],
            ),
            ClientRequest::PayKeysend { keysend } => keysend.json(),
            ClientRequest::MultiPayKeysend { keysends } => object(
                seq![
                    member(
                        "keysends"@,
                        array(keysends.map_values(|keysend: PayKeysend| keysend.json())),
                    ),
                ],
            ),
            ClientRequest::MakeInvoice { amount, description, description_hash, expiry } => object(
                number_member("amount"@, Some(amount)) + text_member("description"@, description)
                    + text_member("description_hash"@, description_hash) + number_member(
                    "expiry"@,
                    expiry,
                ),
            ),
            ClientRequest::LookupInvoice { payment_hash, bolt11 } => object(
                text_member("payment_hash"@, payment_hash) + text_member("invoice"@, bolt11),
            ),
            ClientRequest::ListTransactions { from, until, limit, offset, unpaid, incoming } =>
                object(
                number_member("from"@, from) + number_member("until"@, until) + number_member(
                    "limit"@,
                    limit,
                ) + number_member("offset"@, offset) + match unpaid {
                    Some(true) => seq![member("unpaid"@, "true"@)],
                    Some(false) => seq![member("unpaid"@, "false"@)],
                    None => Seq::empty(),
                } + text_member(
                    "type"@,
                    match incoming {
                        Some(true) => Some("incoming"@),
                        Some(false) => Some("outgoing"@),
                        None => None,
                    },
                ),
            ),
            ClientRequest::GetBalance => object(Seq::empty()),
            ClientRequest::GetInfo => object(Seq::empty()),
        }
    }

    /// The JSON text of the request.
    pub open spec fn json(self) -> Seq<char> {
        object(
            seq![
                member("method"@, json_string(method_name(self.method()))),
                member("params"@, self.params()),
            ],
        )
    }
}

/// What a client writes to have an invoice paid, and to ask for the balance.
pub proof fn law_texts_of_requests(invoice: Seq<char>)
    ensures
        (ClientRequest::PayInvoice {
            invoice: PayInvoice { id: None, invoice, amount: None },
        }).json() == "{\"method\":\"pay_invoice\",\"params\":{\"invoice\":"@ + json_string(invoice)
            + "}}"@,
        ClientRequest::GetBalance.json() == "{\"method\":\"get_balance\",\"params\":{}}"@,
{
    reveal_strlit("method");
    reveal_strlit("params");
    reveal_strlit("invoice");
    reveal_strlit("pay_invoice");
    reveal_strlit("get_balance");
    law_plain_texts_are_spelled_as_they_are("method"@);
    law_plain_texts_are_spelled_as_they_are("params"@);
    law_plain_texts_are_spelled_as_they_are("invoice"@);
    law_plain_texts_are_spelled_as_they_are("pay_invoice"@);
    law_plain_texts_are_spelled_as_they_are("get_balance"@);
    reveal_strlit("{\"method\":\"pay_invoice\",\"params\":{\"invoice\":");
    reveal_strlit("}}");
    reveal_strlit("{\"method\":\"get_balance\",\"params\":{}}");
    let asked = PayInvoice { id: None, invoice, amount: None };
    let only = seq![member("invoice"@, json_string(invoice))];
    assert(text_member("id"@, asked.id) + text_member("invoice"@, Some(invoice)) + number_member(
        "amount"@,
        asked.amount,
    ) =~= only);
    assert(joined(only) == only[0]);
    let pay = ClientRequest::PayInvoice { invoice: asked };
    lemma_two_members(member("method"@, json_string("pay_invoice"@)), member("params"@, pay.params()));
    assert(pay.json() =~= "{\"method\":\"pay_invoice\",\"params\":{\"invoice\":"@ + json_string(
        invoice,
    ) + "}}"@);
    let ask = ClientRequest::GetBalance;
    lemma_two_members(member("method"@, json_string("get_balance"@)), member("params"@, ask.params()));
    assert(joined(Seq::<Seq<char>>::empty()) =~= Seq::<char>::empty());
    assert(ask.json() =~= "{\"method\":\"get_balance\",\"params\":{}}"@);
}

/// An object with two members.
proof fn lemma_two_members(first: Seq<char>, second: Seq<char>)
    ensures
        object(seq![first, second]) == seq!['{'] + first + seq![','] + second + seq!['}'],
{
    assert(seq![first, second].drop_last() =~= seq![first]);
    assert(joined(seq![first]) == first);
    assert(object(seq![first, second]) =~= seq!['{'] + first + seq![','] + second + seq!['}']);
}

/// What is asked for is the method of the request and, where an invoice is to be paid, that
/// invoice, whatever the other parameters.
pub proof fn law_requests_name_the_invoice(asked: ClientRequest)
    ensures
        match asked {
            ClientRequest::PayInvoice { invoice } => asked.request().method == Method::PayInvoice
                && asked.request().invoice == Some(invoice.invoice),
            _ => asked.request().method != Method::PayInvoice && asked.request().invoice is None,
        },
{
}

} // verus!
