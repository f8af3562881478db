use vstd::prelude::*;

verus! {

/// The structured invoice record extracted from the model's answer.
///
/// A flat record of payer and receiver identity, the receiver's bank
/// details, the amount, and the payment purpose. Unknown string fields
/// are the empty string; an unknown amount is `"0.0"`.
///
/// The amount is held as the decimal text of the JSON number it was
/// decoded from (for example `"10000.0"`): the pipeline only carries it
/// through to the output, so nothing here computes with it.
#[derive(Debug, Clone)]
pub struct InvoiceInfo {
    pub payer_name: String,
    pub payer_inn: String,
    pub payer_address: String,
    pub receiver_name: String,
    pub receiver_inn: String,
    pub receiver_address: String,
    pub receiver_account: String,
    pub receiver_bank_name: String,
    pub receiver_bank_bic: String,
    pub receiver_bank_corr_account: String,
    pub amount: String,
    pub purpose: String,
}

} // verus!
