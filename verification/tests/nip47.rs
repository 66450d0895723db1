use nostr_sdk::nips::nip47;
use nostr_sdk::{JsonUtil, Timestamp};
use nostr_wallet_connect::nip47::{
    dispatch, Command, Method, NotImplemented, RawRequest, Request, Response,
};

const METHODS: [(Method, &str); 9] = [
    (Method::PayInvoice, "pay_invoice"),
    (Method::MultiPayInvoice, "multi_pay_invoice"),
    (Method::PayKeysend, "pay_keysend"),
    (Method::MultiPayKeysend, "multi_pay_keysend"),
    (Method::MakeInvoice, "make_invoice"),
    (Method::LookupInvoice, "lookup_invoice"),
    (Method::ListTransactions, "list_transactions"),
    (Method::GetBalance, "get_balance"),
    (Method::GetInfo, "get_info"),
];

#[test]
fn methods_have_names() {
    for (method, name) in METHODS {
        assert_eq!(method.name(), name);
        assert_eq!(Method::from_name(name), Some(method));
    }
    assert_eq!(Method::from_name(""), None);
    assert_eq!(Method::from_name("PAY_INVOICE"), None);
    assert_eq!(Method::from_name("make_hold_invoice"), None);
}

#[test]
fn a_request_to_pay_is_read() {
    let json = "{\"method\":\"pay_invoice\",\"params\":{\"invoice\":\"lnbc1\"}}";
    let request = Request::from_json(json).unwrap();
    assert_eq!(request.method(), Method::PayInvoice);
    match dispatch(request) {
        Ok(Command::PayInvoice { invoice }) => assert_eq!(invoice, "lnbc1"),
        _ => panic!("not a payment"),
    }
}

#[test]
fn a_request_for_the_balance_is_read() {
    let request = Request::from_json("{\"method\":\"get_balance\",\"params\":{}}").unwrap();
    assert_eq!(request.method(), Method::GetBalance);
    assert!(matches!(dispatch(request), Ok(Command::GetBalance)));
}

#[test]
fn other_texts_are_no_requests() {
    assert!(Request::from_json("").is_none());
    assert!(Request::from_json("{}").is_none());
    assert!(Request::from_json("{\"method\":\"fly\",\"params\":{}}").is_none());
    assert!(Request::from_json("{\"method\":\"pay_invoice\",\"params\":{}}").is_none());
}

#[test]
fn raw_requests_need_a_known_method() {
    let raw = |method: &str, invoice: Option<&str>| {
        Request::from_raw(Some(RawRequest {
            method: method.to_string(),
            invoice: invoice.map(|invoice| invoice.to_string()),
        }))
    };
    assert!(Request::from_raw(None).is_none());
    assert!(raw("fly", None).is_none());
    assert!(raw("pay_invoice", None).is_none());
    for (method, name) in METHODS {
        assert_eq!(raw(name, Some("lnbc1")).unwrap().method(), method);
    }
}

#[test]
fn other_methods_are_not_carried_out() {
    let cases = [
        (Request::MakeInvoice, NotImplemented::MakeInvoice, "NIP47 Make invoice is not implemented"),
        (
            Request::LookupInvoice,
            NotImplemented::LookupInvoice,
            "NIP47 Lookup invoice is not implemented",
        ),
        (
            Request::MultiPayInvoice,
            NotImplemented::MultiPayInvoice,
            "NIP47 Multi pay is not implemented",
        ),
        (Request::PayKeysend, NotImplemented::PayKeysend, "NIP47 Pay keysend is not implemented"),
        (
            Request::MultiPayKeysend,
            NotImplemented::MultiPayKeysend,
            "NIP47 Multi Pay Keysend is not implemented",
        ),
        (
            Request::ListTransactions,
            NotImplemented::ListTransactions,
            "NIP47 List transactions is not implmneted",
        ),
        (Request::GetInfo, NotImplemented::GetInfo, "NIP47 Get info is not implemented"),
    ];
    for (request, expected, message) in cases {
        match dispatch(request) {
            Err(refused) => {
                assert_eq!(refused, expected);
                assert_eq!(refused.message(), message);
            }
            Ok(_) => panic!("carried out"),
        }
    }
}

#[test]
fn responses_are_written_as_json() {
    assert_eq!(
        Response::paid("00ff".to_string()).to_json(),
        "{\"result_type\":\"pay_invoice\",\"result\":{\"preimage\":\"00ff\"}}",
    );
    assert_eq!(
        Response::balance(21).to_json(),
        "{\"result_type\":\"get_balance\",\"result\":{\"balance\":21}}",
    );
    assert_eq!(
        Response::unauthorized(Method::GetInfo).to_json(),
        "{\"result_type\":\"get_info\",\"error\":{\"code\":\"UNAUTHORIZED\",\"message\":\"Unauthorized pubkey\"}}",
    );
}

#[test]
fn texts_in_responses_are_escaped() {
    assert_eq!(
        Response::paid("\"\\\n\r\t\u{8}\u{c}\u{1}\u{1f}\u{7f}é/".to_string()).to_json(),
        "{\"result_type\":\"pay_invoice\",\"result\":{\"preimage\":\"\\\"\\\\\\n\\r\\t\\b\\f\\u0001\\u001f\u{7f}é/\"}}",
    );
}

#[test]
fn large_balances_are_written_in_full() {
    assert_eq!(
        Response::balance(u64::MAX).to_json(),
        "{\"result_type\":\"get_balance\",\"result\":{\"balance\":18446744073709551615}}",
    );
    assert_eq!(
        Response::balance(0).to_json(),
        "{\"result_type\":\"get_balance\",\"result\":{\"balance\":0}}",
    );
}

/// Checks what a client writes down for a request, and that its method and invoice are read.
fn read_back(written: nip47::Request, json: &str, method: Method, invoice: Option<&str>) {
    assert_eq!(written.as_json(), json);
    let request = Request::from_json(json).unwrap();
    assert_eq!(request.method(), method);
    let read = match request {
        Request::PayInvoice { invoice } => Some(invoice),
        _ => None,
    };
    assert_eq!(read.as_deref(), invoice);
}

#[test]
fn requests_to_pay_are_read_as_clients_write_them() {
    let mut params = nip47::PayInvoiceRequest::new("lnbc1");
    read_back(
        nip47::Request::pay_invoice(params.clone()),
        "{\"method\":\"pay_invoice\",\"params\":{\"invoice\":\"lnbc1\"}}",
        Method::PayInvoice,
        Some("lnbc1"),
    );
    params.id = Some("a\"b".to_string());
    params.amount = Some(u64::MAX);
    params.invoice = "\\\u{1}\u{1f600}".to_string();
    read_back(
        nip47::Request::pay_invoice(params.clone()),
        "{\"method\":\"pay_invoice\",\"params\":{\"id\":\"a\\\"b\",\"invoice\":\"\\\\\\u0001\u{1f600}\",\"amount\":18446744073709551615}}",
        Method::PayInvoice,
        Some("\\\u{1}\u{1f600}"),
    );
    let other = nip47::PayInvoiceRequest::new("i");
    let invoices = vec![other.clone(), nip47::PayInvoiceRequest { amount: Some(0), ..other }];
    read_back(
        nip47::Request::multi_pay_invoice(nip47::MultiPayInvoiceRequest { invoices }),
        "{\"method\":\"multi_pay_invoice\",\"params\":{\"invoices\":[{\"invoice\":\"i\"},{\"invoice\":\"i\",\"amount\":0}]}}",
        Method::MultiPayInvoice,
        None,
    );
    read_back(
        nip47::Request::multi_pay_invoice(nip47::MultiPayInvoiceRequest { invoices: vec![] }),
        "{\"method\":\"multi_pay_invoice\",\"params\":{\"invoices\":[]}}",
        Method::MultiPayInvoice,
        None,
    );
}

#[test]
fn keysend_requests_are_read_as_clients_write_them() {
    let bare = nip47::PayKeysendRequest {
        id: None,
        amount: 5,
        pubkey: "p".to_string(),
        preimage: None,
        tlv_records: vec![],
    };
    let full = nip47::PayKeysendRequest {
        id: Some("x".to_string()),
        amount: 6,
        pubkey: "q".to_string(),
        preimage: Some("r".to_string()),
        tlv_records: vec![
            nip47::KeysendTLVRecord { tlv_type: 1, value: "v".to_string() },
            nip47::KeysendTLVRecord { tlv_type: 2, value: "w".to_string() },
        ],
    };
    read_back(
        nip47::Request::pay_keysend(full.clone()),
        "{\"method\":\"pay_keysend\",\"params\":{\"id\":\"x\",\"amount\":6,\"pubkey\":\"q\",\"preimage\":\"r\",\"tlv_records\":[{\"type\":1,\"value\":\"v\"},{\"type\":2,\"value\":\"w\"}]}}",
        Method::PayKeysend,
        None,
    );
    read_back(
        nip47::Request {
            method: nip47::Method::MultiPayKeysend,
            params: nip47::RequestParams::MultiPayKeysend(nip47::MultiPayKeysendRequest {
                keysends: vec![bare],
            }),
        },
        "{\"method\":\"multi_pay_keysend\",\"params\":{\"keysends\":[{\"amount\":5,\"pubkey\":\"p\"}]}}",
        Method::MultiPayKeysend,
        None,
    );
}

#[test]
fn other_requests_are_read_as_clients_write_them() {
    let text = |text: &str| Some(text.to_string());
    read_back(
        nip47::Request::make_invoice(nip47::MakeInvoiceRequest {
            amount: 1,
            description: text("d"),
            description_hash: text("h"),
            expiry: Some(2),
        }),
        "{\"method\":\"make_invoice\",\"params\":{\"amount\":1,\"description\":\"d\",\"description_hash\":\"h\",\"expiry\":2}}",
        Method::MakeInvoice,
        None,
    );
    read_back(
        nip47::Request::lookup_invoice(nip47::LookupInvoiceRequest {
            payment_hash: text("h"),
            invoice: text("i"),
        }),
        "{\"method\":\"lookup_invoice\",\"params\":{\"payment_hash\":\"h\",\"invoice\":\"i\"}}",
        Method::LookupInvoice,
        None,
    );
    let list = |transaction_type, unpaid| nip47::Request {
        method: nip47::Method::ListTransactions,
        params: nip47::RequestParams::ListTransactions(nip47::ListTransactionsRequest {
            from: Some(Timestamp::from_secs(1)),
            until: Some(Timestamp::from_secs(2)),
            limit: Some(3),
            offset: Some(4),
            unpaid: Some(unpaid),
            transaction_type: Some(transaction_type),
        }),
    };
    read_back(
        list(nip47::TransactionType::Incoming, true),
        "{\"method\":\"list_transactions\",\"params\":{\"from\":1,\"until\":2,\"limit\":3,\"offset\":4,\"unpaid\":true,\"type\":\"incoming\"}}",
        Method::ListTransactions,
        None,
    );
    read_back(
        list(nip47::TransactionType::Outgoing, false),
        "{\"method\":\"list_transactions\",\"params\":{\"from\":1,\"until\":2,\"limit\":3,\"offset\":4,\"unpaid\":false,\"type\":\"outgoing\"}}",
        Method::ListTransactions,
        None,
    );
    read_back(
        nip47::Request::get_balance(),
        "{\"method\":\"get_balance\",\"params\":{}}",
        Method::GetBalance,
        None,
    );
    read_back(
        nip47::Request::get_info(),
        "{\"method\":\"get_info\",\"params\":{}}",
        Method::GetInfo,
        None,
    );
}

#[test]
fn every_method_can_be_answered() {
    for (method, name) in METHODS {
        let json = Response::unauthorized(method).to_json();
        assert!(json.starts_with(&format!("{{\"result_type\":\"{}\",", name)));
    }
}
