//! Lightning invoices.
use std::str::FromStr;

use lightning_invoice::Bolt11Invoice;
use vstd::prelude::*;

verus! {

/// What an invoice says that a payer acts on.
pub struct Invoice {
    /// The invoice in its own encoding.
    pub bolt11: String,
    /// The amount asked for in millisatoshis, where the invoice names one.
    pub amount_msat: Option<u64>,
}

/// The contents of an [`Invoice`].
pub struct InvoiceView {
    pub bolt11: Seq<char>,
    pub amount_msat: Option<u64>,
}

impl View for Invoice {
    type V = InvoiceView;

    open spec fn view(&self) -> InvoiceView {
        InvoiceView { bolt11: self.bolt11@, amount_msat: self.amount_msat }
    }
}

/// The invoice that a text encodes, where it encodes a valid one.
pub uninterp spec fn invoice_of_text(text: Seq<char>) -> Option<InvoiceView>;

/// `lightning_invoice::Bolt11Invoice::from_str`: reads a signed BOLT 11 invoice and
/// checks it; the invoice is handed out by its own encoding and by
/// `amount_milli_satoshis`. The result is named.
#[verifier::external_body]
pub(crate) fn parse_invoice(text: &str) -> (invoice: Option<Invoice>)
    ensures
        match invoice {
            Some(invoice) => invoice_of_text(text@) == Some(invoice@),
            None => invoice_of_text(text@) is None,
        },
{
    match Bolt11Invoice::from_str(text) {
        Ok(invoice) => Some(Invoice {
            bolt11: invoice.to_string(),
            amount_msat: invoice.amount_milli_satoshis(),
        }),
        Err(_) => None,
    }
}

/// What is said of an invoice is what it holds.
pub proof fn law_invoices_are_seen_whole(invoice: Invoice)
    ensures
        invoice@.bolt11 == invoice.bolt11@,
        invoice@.amount_msat == invoice.amount_msat,
{
}

} // verus!
