use crate::backend::digest::{hex_chars, hex_string, sha256_accepts, sha256_digest};
use crate::backend::traits::hashable::Hashable;
use crate::backend::transaction::transaction::{transaction_bytes, Transaction, TransactionView};
use vstd::hash_set::StringHashSet;
use vstd::prelude::*;

verus! {

/// The ordered batch of transfers that one block carries.
#[derive(Debug)]
pub struct Transactions {
    values: Vec<Transaction>,
}

/// What each transaction of a sequence states.
pub open spec fn transaction_views(txs: Seq<Transaction>) -> Seq<TransactionView> {
    txs.map_values(|tx: Transaction| tx@)
}

impl View for Transactions {
    type V = Seq<TransactionView>;

    closed spec fn view(&self) -> Seq<TransactionView> {
        transaction_views(self.values@)
    }
}

/// The sum of the amounts of a batch.
pub open spec fn total_value(txs: Seq<TransactionView>) -> nat
    decreases txs.len(),
{
    if txs.len() == 0 {
        0
    } else {
        total_value(txs.drop_last()) + txs.last().value as nat
    }
}

/// The encodings of the transfers of a batch, one after another.
pub open spec fn transactions_bytes(txs: Seq<TransactionView>) -> Seq<u8>
    decreases txs.len(),
{
    if txs.len() == 0 {
        Seq::empty()
    } else {
        transactions_bytes(txs.drop_last()) + transaction_bytes(txs.last())
    }
}

/// The SHA-256 digests of the transfers of a batch, one after another.
pub open spec fn transaction_digests(txs: Seq<TransactionView>) -> Seq<u8>
    decreases txs.len(),
{
    if txs.len() == 0 {
        Seq::empty()
    } else {
        transaction_digests(txs.drop_last()) + sha256_digest(transaction_bytes(txs.last()))
    }
}

/// The hexadecimal digest of one transfer.
pub open spec fn transaction_hash(tx: TransactionView) -> Seq<char> {
    hex_chars(sha256_digest(transaction_bytes(tx)))
}

/// The hexadecimal digests of the transfers of a batch, as a set.
pub open spec fn transaction_hashes(txs: Seq<TransactionView>) -> Set<Seq<char>> {
    Set::new(
        |h: Seq<char>|
            exists|i: int| 0 <= i < txs.len() && h == transaction_hash(#[trigger] txs[i]),
    )
}

/// Every transfer of the batch has an encoding short enough for SHA-256.
pub open spec fn each_hashable(txs: Seq<TransactionView>) -> bool {
    forall|i: int| 0 <= i < txs.len() ==> sha256_accepts(#[trigger] transaction_bytes(txs[i]).len())
}

/// The encoding of a batch is at least as long as that of each of its transfers.
pub proof fn lemma_transactions_bytes_len(txs: Seq<TransactionView>, i: int)
    requires
        0 <= i < txs.len(),
    ensures
        transaction_bytes(txs[i]).len() <= transactions_bytes(txs).len(),
        transactions_bytes(txs.take(i)).len() <= transactions_bytes(txs).len(),
    decreases txs.len(),
{
    if i < txs.len() - 1 {
        lemma_transactions_bytes_len(txs.drop_last(), i);
        assert(txs.drop_last().take(i) =~= txs.take(i));
    } else {
        assert(txs.take(i) =~= txs.drop_last());
    }
}

impl Transactions {
    pub fn empty() -> (txs: Transactions)
        ensures
            txs@ == Seq::<TransactionView>::empty(),
    {
        let txs = Transactions { values: Vec::new() };
        assert(txs@ =~= Seq::<TransactionView>::empty());
        txs
    }

    pub fn values(&self) -> (values: &Vec<Transaction>)
        ensures
            transaction_views(values@) == self@,
    {
        &self.values
    }

    pub fn values_mut(&mut self) -> (values: &mut Vec<Transaction>)
        ensures
            transaction_views(values@) == old(self)@,
            final(self)@ == transaction_views(final(values)@),
    {
        &mut self.values
    }

    /// The sum of the amounts of the batch.
    pub fn input_sum(&self) -> (sum: u64)
        requires
            total_value(self@) <= u64::MAX,
        ensures
            sum == total_value(self@),
    {
        let mut sum: u64 = 0;
        let mut i: usize = 0;
        while i < self.values.len()
            invariant
                i <= self.values@.len(),
                sum == total_value(self@.take(i as int)),
                total_value(self@) <= u64::MAX,
            decreases self.values@.len() - i,
        {
            proof {
                assert(self@.take(i + 1).drop_last() =~= self@.take(i as int));
                lemma_total_value_prefix(self@, i + 1);
            }
            sum = sum + *self.values[i].value();
            i += 1;
        }
        assert(self@.take(i as int) =~= self@);
        sum
    }

    /// The hexadecimal digests of the transfers, as a set.
    pub fn input_hashes(&self) -> (hashes: StringHashSet)
        requires
            each_hashable(self@),
        ensures
            hashes@ == transaction_hashes(self@),
    {
        let mut hashes = StringHashSet::new();
        let mut i: usize = 0;
        while i < self.values.len()
            invariant
                i <= self.values@.len(),
                each_hashable(self@),
                hashes@ == transaction_hashes(self@.take(i as int)),
            decreases self.values@.len() - i,
        {
            assert(sha256_accepts(transaction_bytes(self@[i as int]).len()));
            let digest = self.values[i].hash();
            let text = hex_string(digest.as_slice());
            hashes.insert(text);
            proof {
                let before = self@.take(i as int);
                let after = self@.take(i + 1);
                assert(after[i as int] == self@[i as int]);
                assert forall|h: Seq<char>|
                    transaction_hashes(after).contains(h) <==> transaction_hashes(before).insert(
                        transaction_hash(self@[i as int]),
                    ).contains(h) by {
                    if transaction_hashes(after).contains(h) {
                        let j = choose|j: int|
                            0 <= j < after.len() && h == transaction_hash(#[trigger] after[j]);
                        if j < i {
                            assert(before[j] == after[j]);
                        }
                    }
                    if transaction_hashes(before).contains(h) {
                        let j = choose|j: int|
                            0 <= j < before.len() && h == transaction_hash(#[trigger] before[j]);
                        assert(after[j] == before[j]);
                    }
                }
                assert(hashes@ =~= transaction_hashes(after));
            }
            i += 1;
        }
        assert(self@.take(i as int) =~= self@);
        hashes
    }

    pub fn is_input_empty(&self) -> (empty: bool)
        ensures
            empty == (self@.len() == 0),
    {
        self.values.len() == 0
    }
}

/// The sum over a prefix never exceeds the sum over the whole batch.
pub proof fn lemma_total_value_prefix(txs: Seq<TransactionView>, n: int)
    requires
        0 <= n <= txs.len(),
    ensures
        total_value(txs.take(n)) <= total_value(txs),
    decreases txs.len(),
{
    if n < txs.len() {
        lemma_total_value_prefix(txs.drop_last(), n);
        assert(txs.drop_last().take(n) =~= txs.take(n));
    } else {
        assert(txs.take(n) =~= txs);
    }
}

impl Clone for Transactions {
    fn clone(&self) -> (txs: Self)
        ensures
            txs@ == self@,
    {
        let mut values: Vec<Transaction> = Vec::new();
        let mut i: usize = 0;
        while i < self.values.len()
            invariant
                i <= self.values@.len(),
                values@.len() == i,
                transaction_views(values@) == self@.take(i as int),
            decreases self.values@.len() - i,
        {
            let ghost copied = values@;
            let tx = self.values[i].clone();
            values.push(tx);
            proof {
                assert forall|j: int| 0 <= j < i + 1 implies transaction_views(values@)[j]
                    == self@.take(i + 1)[j] by {
                    if j < i {
                        assert(transaction_views(copied)[j] == self@.take(i as int)[j]);
                    }
                }
                assert(transaction_views(values@) =~= self@.take(i + 1));
            }
            i += 1;
        }
        assert(self@.take(i as int) =~= self@);
        Transactions { values }
    }
}

impl Hashable for Transactions {
    open spec fn spec_bytes(&self) -> Seq<u8> {
        transactions_bytes(self@)
    }

    open spec fn hashable(&self) -> bool {
        sha256_accepts(transactions_bytes(self@).len())
    }

    fn bytes(&self) -> (out: Vec<u8>) {
        let mut out: Vec<u8> = Vec::new();
        let mut i: usize = 0;
        while i < self.values.len()
            invariant
                i <= self.values@.len(),
                self.hashable(),
                out@ == transactions_bytes(self@.take(i as int)),
            decreases self.values@.len() - i,
        {
            proof {
                lemma_transactions_bytes_len(self@, i as int);
                assert(self@.take(i + 1).drop_last() =~= self@.take(i as int));
            }
            let piece = self.values[i].bytes();
            out.extend_from_slice(piece.as_slice());
            i += 1;
        }
        assert(self@.take(i as int) =~= self@);
        out
    }
}

} // verus!
