use crate::backend::digest::sha256_accepts;
use crate::backend::functions::{le_bytes, u64_bytes};
use crate::backend::traits::hashable::Hashable;
use vstd::prelude::*;
use vstd::utf8::encode_utf8;

verus! {

/// A transfer of `value` units from one address to another.
///
/// An empty `from` marks a mint: value that enters the ledger without a source.
#[derive(Debug)]
pub struct Transaction {
    from: String,
    to: String,
    value: u64,
}

/// What a transaction states, as plain values.
pub struct TransactionView {
    pub from: Seq<char>,
    pub to: Seq<char>,
    pub value: u64,
}

impl View for Transaction {
    type V = TransactionView;

    closed spec fn view(&self) -> TransactionView {
        TransactionView { from: self.from@, to: self.to@, value: self.value }
    }
}

/// The byte encoding of a transfer: the source address's UTF-8 bytes, the target
/// address's UTF-8 bytes, then the amount as eight little-endian bytes.
pub open spec fn transaction_bytes(tx: TransactionView) -> Seq<u8> {
    encode_utf8(tx.from) + encode_utf8(tx.to) + le_bytes(tx.value as nat, 8)
}

impl Transaction {
    pub fn new(from: String, to: String, value: u64) -> (tx: Self)
        ensures
            tx@ == (TransactionView { from: from@, to: to@, value }),
    {
        Transaction { from, to, value }
    }

    pub fn from_address(&self) -> (from: &String)
        ensures
            from@ == self@.from,
    {
        &self.from
    }

    pub fn to_address(&self) -> (to: &String)
        ensures
            to@ == self@.to,
    {
        &self.to
    }

    pub fn value(&self) -> (value: &u64)
        ensures
            *value == self@.value,
    {
        &self.value
    }
}

impl Clone for Transaction {
    fn clone(&self) -> (tx: Self)
        ensures
            tx@ == self@,
    {
        Transaction { from: self.from.clone(), to: self.to.clone(), value: self.value }
    }
}

impl Hashable for Transaction {
    open spec fn spec_bytes(&self) -> Seq<u8> {
        transaction_bytes(self@)
    }

    open spec fn hashable(&self) -> bool {
        sha256_accepts(transaction_bytes(self@).len())
    }

    fn bytes(&self) -> (out: Vec<u8>) {
        let mut out: Vec<u8> = Vec::new();
        out.extend_from_slice(self.from.as_str().as_bytes());
        out.extend_from_slice(self.to.as_str().as_bytes());
        let amount = u64_bytes(&self.value);
        out.extend_from_slice(amount.as_slice());
        out
    }
}

} // verus!
