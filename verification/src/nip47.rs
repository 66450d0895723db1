//! The requests and responses of Nostr Wallet Connect (NIP-47).
use std::str::FromStr;

use nostr_sdk::nips::nip47;
use nostr_sdk::JsonUtil;
use vstd::prelude::*;

use crate::client_request::ClientRequest;
use crate::hex_text::hex_digits;
use crate::json::{
    decimal, json_string, law_hex_is_spelled_as_it_is, law_plain_texts_are_spelled_as_they_are,
};
use crate::text::same_text;

verus! {

/// The methods that a client may ask for.
#[derive(Debug, Clone, Copy, PartialEq, Eq, Structural)]
pub enum Method {
    PayInvoice,
    MultiPayInvoice,
    PayKeysend,
    MultiPayKeysend,
    MakeInvoice,
    LookupInvoice,
    ListTransactions,
    GetBalance,
    GetInfo,
}

/// The name by which a method travels.
pub open spec fn method_name(method: Method) -> Seq<char> {
    match method {
        Method::PayInvoice => "pay_invoice"@,
        Method::MultiPayInvoice => "multi_pay_invoice"@,
        Method::PayKeysend => "pay_keysend"@,
        Method::MultiPayKeysend => "multi_pay_keysend"@,
        Method::MakeInvoice => "make_invoice"@,
        Method::LookupInvoice => "lookup_invoice"@,
        Method::ListTransactions => "list_transactions"@,
        Method::GetBalance => "get_balance"@,
        Method::GetInfo => "get_info"@,
    }
}

/// The method that has the given name.
pub open spec fn method_of_name(name: Seq<char>) -> Option<Method> {
    if exists|method: Method| #[trigger] method_name(method) == name {
        Some(choose|method: Method| #[trigger] method_name(method) == name)
    } else {
        None
    }
}

/// No two methods share a name, so that a name stands for one method.
pub proof fn law_method_names_distinct(method: Method)
    ensures
        method_of_name(method_name(method)) == Some(method),
        forall|other: Method| #[trigger] method_name(other) == method_name(method) ==> other == method,
{
    reveal_strlit("pay_invoice");
    reveal_strlit("multi_pay_invoice");
    reveal_strlit("pay_keysend");
    reveal_strlit("multi_pay_keysend");
    reveal_strlit("make_invoice");
    reveal_strlit("lookup_invoice");
    reveal_strlit("list_transactions");
    reveal_strlit("get_balance");
    reveal_strlit("get_info");
    assert forall|other: Method| #[trigger] method_name(other) == method_name(method) implies other
        == method by {
        // Lengths and the characters at three places tell the names apart.
        assert(method_name(other)[0] == method_name(method)[0]);
        assert(method_name(other)[4] == method_name(method)[4]);
        assert(method_name(other)[10] == method_name(method)[10]);
    }
}

impl Method {
    /// The name by which the method travels.
    pub fn name(&self) -> (name: &'static str)
        ensures
            name@ == method_name(*self),
    {
        match self {
            Method::PayInvoice => "pay_invoice",
            Method::MultiPayInvoice => "multi_pay_invoice",
            Method::PayKeysend => "pay_keysend",
            Method::MultiPayKeysend => "multi_pay_keysend",
            Method::MakeInvoice => "make_invoice",
            Method::LookupInvoice => "lookup_invoice",
            Method::ListTransactions => "list_transactions",
            Method::GetBalance => "get_balance",
            Method::GetInfo => "get_info",
        }
    }

    /// The method of the given name, where there is one.
    pub fn from_name(name: &str) -> (method: Option<Method>)
        ensures
            method == method_of_name(name@),
    {
        let methods: [Method; 9] = [
            Method::PayInvoice,
            Method::MultiPayInvoice,
            Method::PayKeysend,
            Method::MultiPayKeysend,
            Method::MakeInvoice,
            Method::LookupInvoice,
            Method::ListTransactions,
            Method::GetBalance,
            Method::GetInfo,
        ];
        let mut i: usize = 0;
        while i < 9
            invariant
                i <= 9,
                methods@ == seq![
                    Method::PayInvoice,
                    Method::MultiPayInvoice,
                    Method::PayKeysend,
                    Method::MultiPayKeysend,
                    Method::MakeInvoice,
                    Method::LookupInvoice,
                    Method::ListTransactions,
                    Method::GetBalance,
                    Method::GetInfo,
                ],
                forall|j: int| 0 <= j < i ==> method_name(#[trigger] methods@[j]) != name@,
            decreases 9 - i,
        {
            if same_text(name, methods[i].name()) {
                proof {
                    law_method_names_distinct(methods@[i as int]);
                }
                return Some(methods[i]);
            }
            i = i + 1;
        }
        assert forall|method: Method| method_name(method) != name@ by {
            assert(methods@[0] == Method::PayInvoice);
            assert(methods@[1] == Method::MultiPayInvoice);
            assert(methods@[2] == Method::PayKeysend);
            assert(methods@[3] == Method::MultiPayKeysend);
            assert(methods@[4] == Method::MakeInvoice);
            assert(methods@[5] == Method::LookupInvoice);
            assert(methods@[6] == Method::ListTransactions);
            assert(methods@[7] == Method::GetBalance);
            assert(methods@[8] == Method::GetInfo);
        }
        None
    }
}

/// A request as its JSON spells it out: the name of the method and, where an invoice
/// is to be paid, that invoice.
pub struct RawRequest {
    pub method: String,
    pub invoice: Option<String>,
}

/// The contents of a [`RawRequest`].
pub struct RawRequestView {
    pub method: Seq<char>,
    pub invoice: Option<Seq<char>>,
}

impl View for RawRequest {
    type V = RawRequestView;

    open spec fn view(&self) -> RawRequestView {
        RawRequestView {
            method: self.method@,
            invoice: match self.invoice {
                Some(invoice) => Some(invoice@),
                None => None,
            },
        }
    }
}

/// What a client asks for. Of the parameters only the invoice to pay is kept: no
/// other method is carried out with parameters.
#[derive(Debug)]
pub enum Request {
    PayInvoice { invoice: String },
    MultiPayInvoice,
    PayKeysend,
    MultiPayKeysend,
    MakeInvoice,
    LookupInvoice,
    ListTransactions,
    GetBalance,
    GetInfo,
}

/// A request by its method and the invoice to pay.
pub struct RequestView {
    pub method: Method,
    pub invoice: Option<Seq<char>>,
}

impl View for Request {
    type V = RequestView;

    open spec fn view(&self) -> RequestView {
        match self {
            Request::PayInvoice { invoice } => RequestView {
                method: Method::PayInvoice,
                invoice: Some(invoice@),
            },
            Request::MultiPayInvoice => RequestView { method: Method::MultiPayInvoice, invoice: None },
            Request::PayKeysend => RequestView { method: Method::PayKeysend, invoice: None },
            Request::MultiPayKeysend => RequestView { method: Method::MultiPayKeysend, invoice: None },
            Request::MakeInvoice => RequestView { method: Method::MakeInvoice, invoice: None },
            Request::LookupInvoice => RequestView { method: Method::LookupInvoice, invoice: None },
            Request::ListTransactions => RequestView {
                method: Method::ListTransactions,
                invoice: None,
            },
            Request::GetBalance => RequestView { method: Method::GetBalance, invoice: None },
            Request::GetInfo => RequestView { method: Method::GetInfo, invoice: None },
        }
    }
}

/// The request that a decoded JSON text makes: one for a method of this module, with
/// the invoice where one is to be paid.
pub open spec fn request_of_raw(raw: Option<RawRequestView>) -> Option<RequestView> {
    match raw {
        Some(raw) => match method_of_name(raw.method) {
            Some(Method::PayInvoice) => match raw.invoice {
                Some(invoice) => Some(
                    RequestView { method: Method::PayInvoice, invoice: Some(invoice) },
                ),
                None => None,
            },
            Some(method) => Some(RequestView { method, invoice: None }),
            None => None,
        },
        None => None,
    }
}

/// What `nostr_sdk` reads in the JSON text of a request.
pub uninterp spec fn raw_request_of_json(json: Seq<char>) -> Option<RawRequestView>;

/// What is read in a JSON text that a client wrote is the method and the invoice that the
/// client wrote down.
pub open spec fn reads_back(json: Seq<char>, raw: Option<RawRequestView>) -> bool {
    forall|written: ClientRequest|
        json == #[trigger] written.json() ==> raw == Some(
            RawRequestView {
                method: method_name(written.method()),
                invoice: written.request().invoice,
            },
        )
}

/// `nostr_sdk::nips::nip47::Request::from_json`: the method that a JSON text asks
/// for, by its name, and the invoice of a `pay_invoice` request. The result is named;
/// beside the name stands that it reads back the texts that `Request::as_json` writes, which
/// are those of a [`ClientRequest`].
#[verifier::external_body]
pub(crate) fn parse_request(json: &str) -> (raw: Option<RawRequest>)
    ensures
        match raw {
            Some(raw) => raw_request_of_json(json@) == Some(raw@),
            None => raw_request_of_json(json@) is None,
        },
        match raw {
            Some(raw) => reads_back(json@, Some(raw@)),
            None => reads_back(json@, None),
        },
{
    match nip47::Request::from_json(json) {
        Ok(request) => Some(RawRequest {
            method: request.method.as_str().to_string(),
            invoice: match request.params {
                nip47::RequestParams::PayInvoice(params) => Some(params.invoice),
                _ => None,
            },
        }),
        Err(_) => None,
    }
}

impl Request {
    /// The method that is asked for.
    pub fn method(&self) -> (method: Method)
        ensures
            method == self@.method,
    {
        match self {
            Request::PayInvoice { invoice: _ } => Method::PayInvoice,
            Request::MultiPayInvoice => Method::MultiPayInvoice,
            Request::PayKeysend => Method::PayKeysend,
            Request::MultiPayKeysend => Method::MultiPayKeysend,
            Request::MakeInvoice => Method::MakeInvoice,
            Request::LookupInvoice => Method::LookupInvoice,
            Request::ListTransactions => Method::ListTransactions,
            Request::GetBalance => Method::GetBalance,
            Request::GetInfo => Method::GetInfo,
        }
    }

    /// The request that a decoded JSON text makes, where it makes one.
    pub fn from_raw(raw: Option<RawRequest>) -> (request: Option<Request>)
        ensures
            match raw {
                Some(raw) => match request {
                    Some(request) => request_of_raw(Some(raw@)) == Some(request@),
                    None => request_of_raw(Some(raw@)) is None,
                },
                None => request is None,
            },
    {
        match raw {
            Some(raw) => match Method::from_name(raw.method.as_str()) {
                Some(Method::PayInvoice) => match raw.invoice {
                    Some(invoice) => Some(Request::PayInvoice { invoice }),
                    None => None,
                },
                Some(Method::MultiPayInvoice) => Some(Request::MultiPayInvoice),
                Some(Method::PayKeysend) => Some(Request::PayKeysend),
                Some(Method::MultiPayKeysend) => Some(Request::MultiPayKeysend),
                Some(Method::MakeInvoice) => Some(Request::MakeInvoice),
                Some(Method::LookupInvoice) => Some(Request::LookupInvoice),
                Some(Method::ListTransactions) => Some(Request::ListTransactions),
                Some(Method::GetBalance) => Some(Request::GetBalance),
                Some(Method::GetInfo) => Some(Request::GetInfo),
                None => None,
            },
            None => None,
        }
    }

    /// Reads a request from its JSON text. What a client wrote down is read back.
    pub fn from_json(json: &str) -> (request: Option<Request>)
        ensures
            match request {
                Some(request) => request_of_raw(raw_request_of_json(json@)) == Some(request@),
                None => request_of_raw(raw_request_of_json(json@)) is None,
            },
            forall|written: ClientRequest|
                json@ == #[trigger] written.json() ==> request is Some && request->0@
                    == written.request(),
    {
        let request = Request::from_raw(parse_request(json));
        proof {
            assert forall|written: ClientRequest| json@ == #[trigger] written.json() implies request
                is Some && request->0@ == written.request() by {
                law_method_names_distinct(written.method());
            }
        }
        request
    }
}

/// What the wallet does for a client.
#[derive(Debug)]
pub enum Command {
    /// Pay an invoice.
    PayInvoice { invoice: String },
    /// Tell the balance.
    GetBalance,
}

/// The methods that the wallet does not carry out.
#[derive(Debug, Clone, Copy, PartialEq, Eq, Structural)]
pub enum NotImplemented {
    MultiPayInvoice,
    PayKeysend,
    MultiPayKeysend,
    MakeInvoice,
    LookupInvoice,
    ListTransactions,
    GetInfo,
}

impl NotImplemented {
    /// The method that is not carried out.
    pub open spec fn method(self) -> Method {
        match self {
            NotImplemented::MultiPayInvoice => Method::MultiPayInvoice,
            NotImplemented::PayKeysend => Method::PayKeysend,
            NotImplemented::MultiPayKeysend => Method::MultiPayKeysend,
            NotImplemented::MakeInvoice => Method::MakeInvoice,
            NotImplemented::LookupInvoice => Method::LookupInvoice,
            NotImplemented::ListTransactions => Method::ListTransactions,
            NotImplemented::GetInfo => Method::GetInfo,
        }
    }

    /// What the wallet says of the method.
    pub open spec fn text(self) -> Seq<char> {
        match self {
            NotImplemented::MultiPayInvoice => "NIP47 Multi pay is not implemented"@,
            NotImplemented::PayKeysend => "NIP47 Pay keysend is not implemented"@,
            NotImplemented::MultiPayKeysend => "NIP47 Multi Pay Keysend is not implemented"@,
            NotImplemented::MakeInvoice => "NIP47 Make invoice is not implemented"@,
            NotImplemented::LookupInvoice => "NIP47 Lookup invoice is not implemented"@,
            NotImplemented::ListTransactions => "NIP47 List transactions is not implmneted"@,
            NotImplemented::GetInfo => "NIP47 Get info is not implemented"@,
        }
    }

    /// What the wallet says of the method.
    pub fn message(&self) -> (message: &'static str)
        ensures
            message@ == self.text(),
            match self {
                NotImplemented::MultiPayInvoice => message@ == "NIP47 Multi pay is not implemented"@,
                NotImplemented::PayKeysend => message@ == "NIP47 Pay keysend is not implemented"@,
                NotImplemented::MultiPayKeysend => message@ == "NIP47 Multi Pay Keysend is not implemented"@,
                NotImplemented::MakeInvoice => message@ == "NIP47 Make invoice is not implemented"@,
                NotImplemented::LookupInvoice => message@ == "NIP47 Lookup invoice is not implemented"@,
                NotImplemented::ListTransactions => message@ == "NIP47 List transactions is not implmneted"@,
                NotImplemented::GetInfo => message@ == "NIP47 Get info is not implemented"@,
            },
    {
        match self {
            NotImplemented::MultiPayInvoice => "NIP47 Multi pay is not implemented",
            NotImplemented::PayKeysend => "NIP47 Pay keysend is not implemented",
            NotImplemented::MultiPayKeysend => "NIP47 Multi Pay Keysend is not implemented",
            NotImplemented::MakeInvoice => "NIP47 Make invoice is not implemented",
            NotImplemented::LookupInvoice => "NIP47 Lookup invoice is not implemented",
            NotImplemented::ListTransactions => "NIP47 List transactions is not implmneted",
            NotImplemented::GetInfo => "NIP47 Get info is not implemented",
        }
    }
}

/// What a request has the wallet do. Paying an invoice and telling the balance are
/// carried out, the other methods are not.
pub fn dispatch(request: Request) -> (command: Result<Command, NotImplemented>)
    ensures
        match command {
            Ok(Command::PayInvoice { invoice }) => request@ == (RequestView {
                method: Method::PayInvoice,
                invoice: Some(invoice@),
            }),
            Ok(Command::GetBalance) => request@.method == Method::GetBalance,
            Err(refused) => request@.method == refused.method(),
        },
{
    match request {
        Request::PayInvoice { invoice } => Ok(Command::PayInvoice { invoice }),
        Request::GetBalance => Ok(Command::GetBalance),
        Request::MakeInvoice => Err(NotImplemented::MakeInvoice),
        Request::LookupInvoice => Err(NotImplemented::LookupInvoice),
        Request::MultiPayInvoice => Err(NotImplemented::MultiPayInvoice),
        Request::PayKeysend => Err(NotImplemented::PayKeysend),
        Request::MultiPayKeysend => Err(NotImplemented::MultiPayKeysend),
        Request::ListTransactions => Err(NotImplemented::ListTransactions),
        Request::GetInfo => Err(NotImplemented::GetInfo),
    }
}

/// The error codes that the wallet answers with.
#[derive(Debug, Clone, Copy, PartialEq, Eq, Structural)]
pub enum ErrorCode {
    /// The public key has no wallet here.
    Unauthorized,
}

/// An error in a response.
#[derive(Debug)]
pub struct NIP47Error {
    pub code: ErrorCode,
    pub message: String,
}

/// The result in a response.
#[derive(Debug)]
pub enum ResponseResult {
    /// An invoice was paid: the preimage in hexadecimal.
    PayInvoice { preimage: String },
    /// The balance in millisatoshis.
    GetBalance { balance: u64 },
}

/// A response to a request.
#[derive(Debug)]
pub struct Response {
    /// The method that was asked for.
    pub result_type: Method,
    pub error: Option<NIP47Error>,
    pub result: Option<ResponseResult>,
}

/// The contents of a [`ResponseResult`].
pub enum ResultView {
    PayInvoice { preimage: Seq<char> },
    GetBalance { balance: u64 },
}

/// The contents of a [`Response`]; an error by its code and message.
pub struct ResponseView {
    pub result_type: Method,
    pub error: Option<(ErrorCode, Seq<char>)>,
    pub result: Option<ResultView>,
}

impl View for Response {
    type V = ResponseView;

    open spec fn view(&self) -> ResponseView {
        ResponseView {
            result_type: self.result_type,
            error: match self.error {
                Some(error) => Some((error.code, error.message@)),
                None => None,
            },
            result: match self.result {
                Some(ResponseResult::PayInvoice { preimage }) => Some(
                    ResultView::PayInvoice { preimage: preimage@ },
                ),
                Some(ResponseResult::GetBalance { balance }) => Some(
                    ResultView::GetBalance { balance },
                ),
                None => None,
            },
        }
    }
}

/// The response to a paid invoice.
pub open spec fn paid_response(preimage: Seq<char>) -> ResponseView {
    ResponseView {
        result_type: Method::PayInvoice,
        error: None,
        result: Some(ResultView::PayInvoice { preimage }),
    }
}

/// The response that tells the balance.
pub open spec fn balance_response(balance: nat) -> ResponseView {
    ResponseView {
        result_type: Method::GetBalance,
        error: None,
        result: Some(ResultView::GetBalance { balance: balance as u64 }),
    }
}

/// The response to a request from a public key that may not make one.
pub open spec fn unauthorized_response(method: Method) -> ResponseView {
    ResponseView {
        result_type: method,
        error: Some((ErrorCode::Unauthorized, "Unauthorized pubkey"@)),
        result: None,
    }
}

/// How the JSON text of a response tells an error.
pub open spec fn json_of_error(error: Option<(ErrorCode, Seq<char>)>) -> Seq<char> {
    match error {
        Some((ErrorCode::Unauthorized, message)) =>
            ",\"error\":{\"code\":\"UNAUTHORIZED\",\"message\":"@ + json_string(message) + "}"@,
        None => Seq::empty(),
    }
}

/// How the JSON text of a response tells a result.
pub open spec fn json_of_result(result: Option<ResultView>) -> Seq<char> {
    match result {
        Some(ResultView::PayInvoice { preimage }) => ",\"result\":{\"preimage\":"@ + json_string(
            preimage,
        ) + "}"@,
        Some(ResultView::GetBalance { balance }) => ",\"result\":{\"balance\":"@ + decimal(
            balance as nat,
        ) + "}"@,
        None => Seq::empty(),
    }
}

/// The JSON text of a response.
pub open spec fn json_of_response(response: ResponseView) -> Seq<char> {
    "{\"result_type\":\""@ + method_name(response.result_type) + "\""@ + json_of_error(
        response.error,
    ) + json_of_result(response.result) + "}"@
}

/// `nostr_sdk::nips::nip47::Response::as_json`: the JSON text of a response, whose
/// method is handed over by its name. The members of the response follow each other as
/// `json_of_response` says, without white space.
#[verifier::external_body]
fn encode_response(response: &Response, name: &str) -> (json: String)
    requires
        name@ == method_name(response.result_type),
    ensures
        json@ == json_of_response(response@),
{
    let error = response.error.as_ref().map(|error| nip47::NIP47Error {
        code: match error.code { ErrorCode::Unauthorized => nip47::ErrorCode::Unauthorized },
        message: error.message.clone(),
    });
    let result = response.result.as_ref().map(|result| match result {
        ResponseResult::PayInvoice { preimage } => nip47::ResponseResult::PayInvoice(
            nip47::PayInvoiceResponse { preimage: preimage.clone(), fees_paid: None }),
        ResponseResult::GetBalance { balance } => nip47::ResponseResult::GetBalance(
            nip47::GetBalanceResponse { balance: *balance }),
    });
    let result_type = nip47::Method::from_str(name).unwrap();
    nip47::Response { result_type, error, result }.as_json()
}

impl Response {
    /// The JSON text of the response.
    pub fn to_json(&self) -> (json: String)
        ensures
            json@ == json_of_response(self@),
    {
        encode_response(self, self.result_type.name())
    }

    /// The response to a paid invoice.
    pub fn paid(preimage: String) -> (response: Response)
        ensures
            response@ == paid_response(preimage@),
            response.result_type == Method::PayInvoice,
            response.error is None,
            response.result matches Some(ResponseResult::PayInvoice { preimage: told }) && told@
                == preimage@,
    {
        Response {
            result_type: Method::PayInvoice,
            error: None,
            result: Some(ResponseResult::PayInvoice { preimage }),
        }
    }

    /// The response that tells the balance.
    pub fn balance(balance: u64) -> (response: Response)
        ensures
            response@ == balance_response(balance as nat),
            response.result_type == Method::GetBalance,
            response.error is None,
            response.result matches Some(ResponseResult::GetBalance { balance: told }) && told
                == balance,
    {
        Response {
            result_type: Method::GetBalance,
            error: None,
            result: Some(ResponseResult::GetBalance { balance }),
        }
    }

    /// The response to a request from a public key that may not make one.
    pub fn unauthorized(method: Method) -> (response: Response)
        ensures
            response@ == unauthorized_response(method),
            response.result_type == method,
            response.error matches Some(error) && error.code == ErrorCode::Unauthorized
                && error.message@ == "Unauthorized pubkey"@,
            response.result is None,
    {
        Response {
            result_type: method,
            error: Some(
                NIP47Error {
                    code: ErrorCode::Unauthorized,
                    message: "Unauthorized pubkey".to_owned(),
                },
            ),
            result: None,
        }
    }
}

/// A name asks for the method of that name and for no other; a request to pay asks for the
/// invoice that it names, and is none without one. Names of no method make no request.
pub proof fn law_names_ask_for_methods(raw: RawRequestView)
    ensures
        request_of_raw(None) is None,
        ({
            let read = request_of_raw(Some(raw));
            &&& raw.method == "pay_invoice"@ ==> match raw.invoice {
                Some(invoice) => read == Some(
                    RequestView { method: Method::PayInvoice, invoice: Some(invoice) },
                ),
                None => read is None,
            }
            &&& raw.method == "multi_pay_invoice"@ ==> read == Some(
                RequestView { method: Method::MultiPayInvoice, invoice: None },
            )
            &&& raw.method == "pay_keysend"@ ==> read == Some(
                RequestView { method: Method::PayKeysend, invoice: None },
            )
            &&& raw.method == "multi_pay_keysend"@ ==> read == Some(
                RequestView { method: Method::MultiPayKeysend, invoice: None },
            )
            &&& raw.method == "make_invoice"@ ==> read == Some(
                RequestView { method: Method::MakeInvoice, invoice: None },
            )
            &&& raw.method == "lookup_invoice"@ ==> read == Some(
                RequestView { method: Method::LookupInvoice, invoice: None },
            )
            &&& raw.method == "list_transactions"@ ==> read == Some(
                RequestView { method: Method::ListTransactions, invoice: None },
            )
            &&& raw.method == "get_balance"@ ==> read == Some(
                RequestView { method: Method::GetBalance, invoice: None },
            )
            &&& raw.method == "get_info"@ ==> read == Some(
                RequestView { method: Method::GetInfo, invoice: None },
            )
            &&& ({
                &&& raw.method != "pay_invoice"@
                &&& raw.method != "multi_pay_invoice"@
                &&& raw.method != "pay_keysend"@
                &&& raw.method != "multi_pay_keysend"@
                &&& raw.method != "make_invoice"@
                &&& raw.method != "lookup_invoice"@
                &&& raw.method != "list_transactions"@
                &&& raw.method != "get_balance"@
                &&& raw.method != "get_info"@
            }) ==> read is None
        }),
{
    law_method_names_distinct(Method::PayInvoice);
    law_method_names_distinct(Method::MultiPayInvoice);
    law_method_names_distinct(Method::PayKeysend);
    law_method_names_distinct(Method::MultiPayKeysend);
    law_method_names_distinct(Method::MakeInvoice);
    law_method_names_distinct(Method::LookupInvoice);
    law_method_names_distinct(Method::ListTransactions);
    law_method_names_distinct(Method::GetBalance);
    law_method_names_distinct(Method::GetInfo);
    if method_of_name(raw.method) is Some {
        let method = choose|method: Method| #[trigger] method_name(method) == raw.method;
        assert(method_name(method) == raw.method);
    }
}

/// Every method travels by its own name.
pub proof fn law_methods_have_their_names(method: Method)
    ensures
        ({
            let name = method_name(method);
            match method {
                Method::PayInvoice => name == "pay_invoice"@,
                Method::MultiPayInvoice => name == "multi_pay_invoice"@,
                Method::PayKeysend => name == "pay_keysend"@,
                Method::MultiPayKeysend => name == "multi_pay_keysend"@,
                Method::MakeInvoice => name == "make_invoice"@,
                Method::LookupInvoice => name == "lookup_invoice"@,
                Method::ListTransactions => name == "list_transactions"@,
                Method::GetBalance => name == "get_balance"@,
                Method::GetInfo => name == "get_info"@,
            }
        }),
{
}

/// The response to a paid invoice names that method, tells no error, and holds the preimage,
/// whole and unchanged; so different preimages have different responses.
pub proof fn law_paid_response_holds_the_preimage(preimage: Seq<char>)
    ensures
        paid_response(preimage).result_type == Method::PayInvoice,
        paid_response(preimage).error is None,
        paid_response(preimage).result matches Some(ResultView::PayInvoice { preimage: told })
            && told == preimage,
{
}

/// The response to a request for the balance names that method, tells no error, and holds the
/// balance.
pub proof fn law_balance_response_holds_the_balance(balance: nat)
    requires
        balance <= u64::MAX,
    ensures
        balance_response(balance).result_type == Method::GetBalance,
        balance_response(balance).error is None,
        balance_response(balance).result matches Some(ResultView::GetBalance { balance: told })
            && told == balance,
{
}

/// The response to a request that may not be made names its method, tells that the public key
/// is not authorized, and holds no result.
pub proof fn law_unauthorized_response_says_so(method: Method)
    ensures
        unauthorized_response(method).result_type == method,
        unauthorized_response(method).error matches Some((code, message)) && code
            == ErrorCode::Unauthorized && message == "Unauthorized pubkey"@,
        unauthorized_response(method).result is None,
{
}

/// What is said of a response is what it holds.
pub proof fn law_responses_are_seen_whole(response: Response)
    ensures
        response@.result_type == response.result_type,
        match response.error {
            Some(error) => response@.error matches Some((code, message)) && code == error.code
                && message == error.message@,
            None => response@.error is None,
        },
        match response.result {
            Some(ResponseResult::PayInvoice { preimage }) => response@.result matches Some(
                ResultView::PayInvoice { preimage: told },
            ) && told == preimage@,
            Some(ResponseResult::GetBalance { balance }) => response@.result matches Some(
                ResultView::GetBalance { balance: told },
            ) && told == balance,
            None => response@.result is None,
        },
{
}

/// What is said of a request is what it holds.
pub proof fn law_requests_are_seen_whole(request: Request, raw: RawRequest)
    ensures
        match request {
            Request::PayInvoice { invoice } => request@.method == Method::PayInvoice
                && request@.invoice == Some(invoice@),
            Request::MultiPayInvoice => request@.method == Method::MultiPayInvoice,
            Request::PayKeysend => request@.method == Method::PayKeysend,
            Request::MultiPayKeysend => request@.method == Method::MultiPayKeysend,
            Request::MakeInvoice => request@.method == Method::MakeInvoice,
            Request::LookupInvoice => request@.method == Method::LookupInvoice,
            Request::ListTransactions => request@.method == Method::ListTransactions,
            Request::GetBalance => request@.method == Method::GetBalance,
            Request::GetInfo => request@.method == Method::GetInfo,
        },
        !(request is PayInvoice) ==> request@.invoice is None,
        raw@.method == raw.method@,
        match raw.invoice {
            Some(invoice) => raw@.invoice == Some(invoice@),
            None => raw@.invoice is None,
        },
{
}

/// The client that paid reads the preimage, in hexadecimal, between these words.
pub proof fn law_text_of_a_paid_response(preimage: Seq<u8>)
    ensures
        json_of_response(paid_response(hex_digits(preimage)))
            == "{\"result_type\":\"pay_invoice\",\"result\":{\"preimage\":\""@ + hex_digits(preimage)
            + "\"}}"@,
{
    law_hex_is_spelled_as_it_is(preimage);
    reveal_strlit("{\"result_type\":\"");
    reveal_strlit("pay_invoice");
    reveal_strlit("\"");
    reveal_strlit(",\"result\":{\"preimage\":");
    reveal_strlit("}");
    reveal_strlit("{\"result_type\":\"pay_invoice\",\"result\":{\"preimage\":\"");
    reveal_strlit("\"}}");
    assert(json_of_response(paid_response(hex_digits(preimage)))
        =~= "{\"result_type\":\"pay_invoice\",\"result\":{\"preimage\":\""@ + hex_digits(preimage)
        + "\"}}"@);
}

/// The client that asked for the balance reads it, in decimal, between these words.
pub proof fn law_text_of_a_balance_response(balance: nat)
    requires
        balance <= u64::MAX,
    ensures
        json_of_response(balance_response(balance))
            == "{\"result_type\":\"get_balance\",\"result\":{\"balance\":"@ + decimal(balance)
            + "}}"@,
{
    reveal_strlit("{\"result_type\":\"");
    reveal_strlit("get_balance");
    reveal_strlit("\"");
    reveal_strlit(",\"result\":{\"balance\":");
    reveal_strlit("}");
    reveal_strlit("{\"result_type\":\"get_balance\",\"result\":{\"balance\":");
    reveal_strlit("}}");
    assert(json_of_response(balance_response(balance))
        =~= "{\"result_type\":\"get_balance\",\"result\":{\"balance\":"@ + decimal(balance)
        + "}}"@);
}

/// The client reads of a request that another public key made which method was asked for, and
/// that it may not be, in these words.
pub proof fn law_text_of_an_unauthorized_response(method: Method)
    ensures
        json_of_response(unauthorized_response(method)) == "{\"result_type\":\""@ + method_name(method)
            + "\",\"error\":{\"code\":\"UNAUTHORIZED\",\"message\":\"Unauthorized pubkey\"}}"@,
{
    reveal_strlit("Unauthorized pubkey");
    law_plain_texts_are_spelled_as_they_are("Unauthorized pubkey"@);
    reveal_strlit("{\"result_type\":\"");
    reveal_strlit("\"");
    reveal_strlit(",\"error\":{\"code\":\"UNAUTHORIZED\",\"message\":");
    reveal_strlit("}");
    reveal_strlit("\",\"error\":{\"code\":\"UNAUTHORIZED\",\"message\":\"Unauthorized pubkey\"}}");
    assert(json_of_response(unauthorized_response(method)) =~= "{\"result_type\":\""@ + method_name(
        method,
    ) + "\",\"error\":{\"code\":\"UNAUTHORIZED\",\"message\":\"Unauthorized pubkey\"}}"@);
}

/// The JSON text of any response to a paid invoice, and of any error: the preimage, or the
/// message, as a JSON string between these words.
pub proof fn law_texts_of_responses(preimage: Seq<char>, method: Method, message: Seq<char>)
    ensures
        json_of_response(paid_response(preimage))
            == "{\"result_type\":\"pay_invoice\",\"result\":{\"preimage\":"@ + json_string(preimage)
            + "}}"@,
        json_of_response(
            ResponseView {
                result_type: method,
                error: Some((ErrorCode::Unauthorized, message)),
                result: None,
            },
        ) == "{\"result_type\":\""@ + method_name(method)
            + "\",\"error\":{\"code\":\"UNAUTHORIZED\",\"message\":"@ + json_string(message) + "}}"@,
{
    reveal_strlit("{\"result_type\":\"");
    reveal_strlit("pay_invoice");
    reveal_strlit("\"");
    reveal_strlit(",\"result\":{\"preimage\":");
    reveal_strlit("}");
    reveal_strlit("}}");
    reveal_strlit(",\"error\":{\"code\":\"UNAUTHORIZED\",\"message\":");
    reveal_strlit("\",\"error\":{\"code\":\"UNAUTHORIZED\",\"message\":");
    reveal_strlit("{\"result_type\":\"pay_invoice\",\"result\":{\"preimage\":");
    assert(json_of_response(paid_response(preimage))
        =~= "{\"result_type\":\"pay_invoice\",\"result\":{\"preimage\":"@ + json_string(preimage)
        + "}}"@);
    assert(json_of_response(
        ResponseView {
            result_type: method,
            error: Some((ErrorCode::Unauthorized, message)),
            result: None,
        },
    ) =~= "{\"result_type\":\""@ + method_name(method)
        + "\",\"error\":{\"code\":\"UNAUTHORIZED\",\"message\":"@ + json_string(message) + "}}"@);
}

/// Every method but those to pay an invoice and to tell the balance is one that the wallet
/// does not carry out, and no other is.
pub proof fn law_two_methods_are_carried_out(method: Method)
    ensures
        (exists|refused: NotImplemented| #[trigger] refused.method() == method) <==> method_name(
            method,
        ) != "pay_invoice"@ && method_name(method) != "get_balance"@,
        forall|a: NotImplemented, b: NotImplemented|
            #[trigger] a.method() == #[trigger] b.method() ==> a == b,
{
    law_method_names_distinct(Method::PayInvoice);
    law_method_names_distinct(Method::GetBalance);
    assert(NotImplemented::MultiPayInvoice.method() == Method::MultiPayInvoice);
    assert(NotImplemented::PayKeysend.method() == Method::PayKeysend);
    assert(NotImplemented::MultiPayKeysend.method() == Method::MultiPayKeysend);
    assert(NotImplemented::MakeInvoice.method() == Method::MakeInvoice);
    assert(NotImplemented::LookupInvoice.method() == Method::LookupInvoice);
    assert(NotImplemented::ListTransactions.method() == Method::ListTransactions);
    assert(NotImplemented::GetInfo.method() == Method::GetInfo);
}

} // verus!
