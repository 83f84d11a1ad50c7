//! The record types of the registry and their mathematical views.

use vstd::prelude::*;

verus! {

/// An immutable record of a completed payment, keyed by `receipt_id`.
pub struct Receipt {
    /// The unique key under which the receipt is stored.
    pub receipt_id: String,
    /// Hash of the transaction the receipt attests to.
    pub tx_hash: String,
    /// Amount paid, in the smallest payment-token unit.
    pub amount_plt: u128,
    /// Unix timestamp of the payment.
    pub ts_unix: u64,
}

/// The mathematical value of a [`Receipt`]: its strings as character
/// sequences, its integers as themselves.
pub ghost struct ReceiptView {
    pub receipt_id: Seq<char>,
    pub tx_hash: Seq<char>,
    pub amount_plt: u128,
    pub ts_unix: u64,
}

impl View for Receipt {
    type V = ReceiptView;

    open spec fn view(&self) -> ReceiptView {
        ReceiptView {
            receipt_id: self.receipt_id@,
            tx_hash: self.tx_hash@,
            amount_plt: self.amount_plt,
            ts_unix: self.ts_unix,
        }
    }
}

impl Clone for Receipt {
    fn clone(&self) -> (r: Self)
        ensures
            r@ == self@,
    {
        Receipt {
            receipt_id: self.receipt_id.clone(),
            tx_hash: self.tx_hash.clone(),
            amount_plt: self.amount_plt,
            ts_unix: self.ts_unix,
        }
    }
}

/// The notification broadcast once per successful mint. It is not persisted;
/// the host forwards it to external log observers.
pub struct ReceiptEmitted {
    /// Key of the receipt that was stored.
    pub receipt_id: String,
    /// Transaction hash carried over from the stored receipt.
    pub tx_hash: String,
    /// Timestamp carried over from the stored receipt.
    pub ts_unix: u64,
}

/// The mathematical value of a [`ReceiptEmitted`].
pub ghost struct ReceiptEmittedView {
    pub receipt_id: Seq<char>,
    pub tx_hash: Seq<char>,
    pub ts_unix: u64,
}

impl View for ReceiptEmitted {
    type V = ReceiptEmittedView;

    open spec fn view(&self) -> ReceiptEmittedView {
        ReceiptEmittedView {
            receipt_id: self.receipt_id@,
            tx_hash: self.tx_hash@,
            ts_unix: self.ts_unix,
        }
    }
}

} // verus!
