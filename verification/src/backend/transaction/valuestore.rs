use crate::backend::block::block::Block;
use crate::backend::enums::BlockValidationError;
use crate::backend::transaction::supply::{
    balance_of, lemma_balance_within_supply, lemma_supply_empty, lemma_supply_forget,
    lemma_supply_insert, supply,
};
use crate::backend::transaction::transaction::TransactionView;
use vstd::hash_map::StringHashMap;
use vstd::prelude::*;

verus! {

/// The amount that the broadcaster of every admitted block after the first is paid.
pub const MINING_REWARD: u64 = 1;

/// The ledger: what every known address holds.
pub struct ValueStore {
    values_store: StringHashMap<u64>,
    supply: u64,
}

impl View for ValueStore {
    type V = Map<Seq<char>, u64>;

    closed spec fn view(&self) -> Map<Seq<char>, u64> {
        self.values_store@
    }
}

/// The ledger after `value` has been added to what `to` holds.
pub open spec fn credited(ledger: Map<Seq<char>, u64>, to: Seq<char>, value: u64) -> Map<
    Seq<char>,
    u64,
> {
    ledger.insert(to, (balance_of(ledger, to) + value) as u64)
}

/// Taking `value` from `from`: refused for an address the ledger does not know, and for
/// one that holds less than `value`.
pub open spec fn debit(ledger: Map<Seq<char>, u64>, from: Seq<char>, value: u64) -> Result<
    Map<Seq<char>, u64>,
    BlockValidationError,
> {
    if !ledger.contains_key(from) {
        Err(BlockValidationError::InvalidInput)
    } else if ledger[from] < value {
        Err(BlockValidationError::InsufficientInputVal)
    } else {
        Ok(ledger.insert(from, (ledger[from] - value) as u64))
    }
}

/// Moving `value` from `from` to `to`. Moving nothing always succeeds and changes nothing.
pub open spec fn transfer(
    ledger: Map<Seq<char>, u64>,
    from: Seq<char>,
    to: Seq<char>,
    value: u64,
) -> Result<Map<Seq<char>, u64>, BlockValidationError> {
    if value == 0 {
        Ok(ledger)
    } else {
        match debit(ledger, from, value) {
            Ok(debited) => Ok(credited(debited, to, value)),
            Err(e) => Err(e),
        }
    }
}

/// Applying a batch of transfers in order: the ledger after all of them, or the reason
/// why the first one that fails does.
pub open spec fn apply_all(ledger: Map<Seq<char>, u64>, txs: Seq<TransactionView>) -> Result<
    Map<Seq<char>, u64>,
    BlockValidationError,
>
    decreases txs.len(),
{
    if txs.len() == 0 {
        Ok(ledger)
    } else {
        match apply_all(ledger, txs.drop_last()) {
            Ok(applied) => transfer(applied, txs.last().from, txs.last().to, txs.last().value),
            Err(e) => Err(e),
        }
    }
}

/// The ledger with the entry of `address` put back to what it was: a balance, or absent.
pub open spec fn restored(
    ledger: Map<Seq<char>, u64>,
    address: Seq<char>,
    previous: Option<u64>,
) -> Map<Seq<char>, u64> {
    match previous {
        Some(balance) => ledger.insert(address, balance),
        None => ledger.remove(address),
    }
}

/// The entry that a ledger holds for `address`: its balance, or nothing.
pub open spec fn entry(ledger: Map<Seq<char>, u64>, address: Seq<char>) -> Option<u64> {
    if ledger.contains_key(address) {
        Some(ledger[address])
    } else {
        None
    }
}

/// What an entry that may be absent counts towards the supply.
pub open spec fn held(entry: Option<u64>) -> nat {
    match entry {
        Some(balance) => balance as nat,
        None => 0,
    }
}

/// A transfer moves value and neither creates nor destroys it.
pub proof fn lemma_transfer_conserves(
    ledger: Map<Seq<char>, u64>,
    from: Seq<char>,
    to: Seq<char>,
    value: u64,
)
    requires
        ledger.dom().finite(),
        supply(ledger) <= u64::MAX,
        transfer(ledger, from, to, value) is Ok,
    ensures
        transfer(ledger, from, to, value)->Ok_0.dom().finite(),
        supply(transfer(ledger, from, to, value)->Ok_0) == supply(ledger),
{
    if value != 0 {
        let debited = debit(ledger, from, value)->Ok_0;
        lemma_supply_insert(ledger, from, (ledger[from] - value) as u64);
        lemma_balance_within_supply(debited, to);
        lemma_supply_insert(debited, to, (balance_of(debited, to) + value) as u64);
    }
}

/// Crediting adds exactly the credited amount to the supply.
pub proof fn lemma_credit_supply(ledger: Map<Seq<char>, u64>, to: Seq<char>, value: u64)
    requires
        ledger.dom().finite(),
        supply(ledger) + value <= u64::MAX,
    ensures
        credited(ledger, to, value).dom().finite(),
        supply(credited(ledger, to, value)) == supply(ledger) + value,
{
    lemma_balance_within_supply(ledger, to);
    lemma_supply_insert(ledger, to, (balance_of(ledger, to) + value) as u64);
}

/// Putting an entry back changes the supply by the difference to what the entry held.
pub proof fn lemma_supply_restored(
    ledger: Map<Seq<char>, u64>,
    address: Seq<char>,
    previous: Option<u64>,
)
    requires
        ledger.dom().finite(),
    ensures
        restored(ledger, address, previous).dom().finite(),
        supply(restored(ledger, address, previous)) == supply(ledger) - balance_of(
            ledger,
            address,
        ) + held(previous),
{
    match previous {
        Some(balance) => lemma_supply_insert(ledger, address, balance),
        None => lemma_supply_forget(ledger, address),
    }
}

/// A transfer is undone by putting the target's entry back, then the source's. Neither
/// step lifts the supply above what the ledger held before the transfer.
pub proof fn lemma_undo_transfer(
    before: Map<Seq<char>, u64>,
    from: Seq<char>,
    to: Seq<char>,
    value: u64,
)
    requires
        before.dom().finite(),
        supply(before) <= u64::MAX,
        transfer(before, from, to, value) is Ok,
    ensures
        ({
            let after = transfer(before, from, to, value)->Ok_0;
            let halfway = restored(after, to, entry(before, to));
            &&& halfway.dom().finite()
            &&& supply(halfway) <= supply(before)
            &&& supply(after) - balance_of(after, to) + held(entry(before, to)) <= u64::MAX
            &&& supply(halfway) - balance_of(halfway, from) + held(entry(before, from))
                <= u64::MAX
            &&& restored(halfway, from, entry(before, from)) == before
        }),
{
    let after = transfer(before, from, to, value)->Ok_0;
    let halfway = restored(after, to, entry(before, to));
    lemma_transfer_conserves(before, from, to, value);
    lemma_supply_restored(after, to, entry(before, to));
    lemma_supply_restored(halfway, from, entry(before, from));
    assert(restored(halfway, from, entry(before, from)) =~= before);
}

/// A batch fails as soon as one of its prefixes does, and for the same reason.
pub proof fn lemma_apply_all_prefix_error(
    ledger: Map<Seq<char>, u64>,
    txs: Seq<TransactionView>,
    k: int,
)
    requires
        0 <= k <= txs.len(),
        apply_all(ledger, txs.take(k)) is Err,
    ensures
        apply_all(ledger, txs) == apply_all(ledger, txs.take(k)),
    decreases txs.len(),
{
    if k == txs.len() {
        assert(txs.take(k) =~= txs);
    } else {
        assert(txs.drop_last().take(k) =~= txs.take(k));
        lemma_apply_all_prefix_error(ledger, txs.drop_last(), k);
    }
}

impl ValueStore {
    /// The total that the store has on record as issued.
    pub closed spec fn issued(&self) -> u64 {
        self.supply
    }

    /// A store is well formed when it knows finitely many addresses and its record of
    /// the total issued is the sum of their balances.
    pub open spec fn wf(&self) -> bool {
        &&& self@.dom().finite()
        &&& supply(self@) == self.issued()
    }

    pub fn new() -> (store: Self)
        ensures
            store.wf(),
            store@ == Map::<Seq<char>, u64>::empty(),
    {
        proof {
            lemma_supply_empty();
        }
        ValueStore { values_store: StringHashMap::<u64>::new(), supply: 0 }
    }

    /// What `address` holds, where the store knows it.
    pub fn balance(&self, address: &String) -> (balance: Option<u64>)
        ensures
            balance == entry(self@, address@),
    {
        match self.values_store.get(address.as_str()) {
            Some(value) => Some(*value),
            None => None,
        }
    }

    /// The sum of all balances.
    pub fn total_supply(&self) -> (total: u64)
        requires
            self.wf(),
        ensures
            total == supply(self@),
    {
        self.supply
    }

    /// Pays the mining reward to `rewarder`, where `rewarder` broadcast the last block
    /// of `block_chain`.
    pub fn reward_miner(&mut self, block_chain: &Vec<Block>, rewarder: String)
        requires
            old(self).wf(),
            supply(old(self)@) + MINING_REWARD <= u64::MAX,
        ensures
            final(self).wf(),
            final(self)@ == (if block_chain@.len() > 0 && block_chain@.last()@.broadcaster
                == rewarder@ {
                credited(old(self)@, rewarder@, MINING_REWARD)
            } else {
                old(self)@
            }),
    {
        if block_chain.len() == 0 {
            return ;
        }
        let last_block = &block_chain[block_chain.len() - 1];
        if *last_block.broadcaster() == rewarder {
            let _ = self.set_value(&rewarder, MINING_REWARD, false);
        }
    }

    /// Credits the mint of a first block: the amount of its first transfer, to that
    /// transfer's target. Refused for a block that carries no transfer or is not the
    /// first.
    pub fn insert_genesis_balance(&mut self, block: &mut Block) -> (outcome: Result<
        (),
        BlockValidationError,
    >)
        requires
            old(self).wf(),
            old(block)@.transactions.len() > 0 ==> supply(old(self)@) + old(
                block,
            )@.transactions[0].value <= u64::MAX,
        ensures
            final(self).wf(),
            *final(block) == *old(block),
            match outcome {
                Ok(()) => {
                    &&& old(block)@.transactions.len() > 0
                    &&& old(block)@.index == 0
                    &&& final(self)@ == credited(
                        old(self)@,
                        old(block)@.transactions[0].to,
                        old(block)@.transactions[0].value,
                    )
                },
                Err(e) => {
                    &&& e == BlockValidationError::InvalidInput
                    &&& (old(block)@.transactions.len() == 0 || old(block)@.index != 0)
                    &&& final(self)@ == old(self)@
                },
            },
    {
        let transactions = block.transactions();
        if transactions.values().len() == 0 || block.index() != 0 {
            return Err(BlockValidationError::InvalidInput);
        }
        let genesis_tx = &transactions.values()[0];
        assert(genesis_tx@ == block@.transactions[0]);
        if *genesis_tx.value() != 0 {
            let _ = self.set_value(genesis_tx.to_address(), *genesis_tx.value(), false);
        } else {
            self.note(genesis_tx.to_address());
        }
        Ok(())
    }

    /// Makes sure the store knows `key`, with a balance of zero where it did not.
    fn note(&mut self, key: &String)
        requires
            old(self).wf(),
        ensures
            final(self).wf(),
            final(self)@ == credited(old(self)@, key@, 0),
    {
        let held: u64 = match self.values_store.get(key.as_str()) {
            Some(value) => *value,
            None => 0,
        };
        proof {
            lemma_supply_insert(self@, key@, held);
        }
        self.values_store.insert(key.clone(), held);
    }

    /// Moves `value` from `from_address` to `to_address`, or changes nothing and says
    /// why not.
    pub fn set_transaction(
        &mut self,
        from_address: &String,
        to_address: &String,
        value: u64,
    ) -> (outcome: Result<(), BlockValidationError>)
        requires
            old(self).wf(),
        ensures
            final(self).wf(),
            match transfer(old(self)@, from_address@, to_address@, value) {
                Ok(ledger) => outcome is Ok && final(self)@ == ledger,
                Err(e) => outcome == Err::<(), BlockValidationError>(e) && final(self)@ == old(
                    self,
                )@,
            },
    {
        match self.set_value(from_address, value, true) {
            Ok(()) => {
                let _ = self.set_value(to_address, value, false);
                Ok(())
            },
            Err(e) => Err(e),
        }
    }

    /// Takes `value` from `key` (a sender) or adds it to `key` (a receiver). A `value`
    /// of zero changes nothing. Only taking can fail.
    fn set_value(&mut self, key: &String, value: u64, is_sender: bool) -> (outcome: Result<
        (),
        BlockValidationError,
    >)
        requires
            old(self).wf(),
            !is_sender ==> supply(old(self)@) + value <= u64::MAX,
        ensures
            final(self).wf(),
            value == 0 ==> outcome is Ok && final(self)@ == old(self)@,
            value != 0 && !is_sender ==> outcome is Ok && final(self)@ == credited(
                old(self)@,
                key@,
                value,
            ),
            value != 0 && is_sender ==> match debit(old(self)@, key@, value) {
                Ok(ledger) => outcome is Ok && final(self)@ == ledger && supply(final(self)@)
                    + value == supply(old(self)@),
                Err(e) => outcome == Err::<(), BlockValidationError>(e) && final(self)@ == old(
                    self,
                )@,
            },
    {
        if value == 0 {
            return Ok(());
        }
        proof {
            lemma_balance_within_supply(self@, key@);
        }
        let value_wrapped: Option<u64> = match self.values_store.get(key.as_str()) {
            Some(target_value) => Some(*target_value),
            None => None,
        };
        match value_wrapped {
            Some(target_value) => {
                if is_sender {
                    if target_value < value {
                        return Err(BlockValidationError::InsufficientInputVal);
                    }
                    proof {
                        lemma_supply_insert(self@, key@, (target_value - value) as u64);
                    }
                    self.values_store.insert(key.clone(), target_value - value);
                    self.supply = self.supply - value;
                    Ok(())
                } else {
                    proof {
                        lemma_supply_insert(self@, key@, (target_value + value) as u64);
                    }
                    self.values_store.insert(key.clone(), target_value + value);
                    self.supply = self.supply + value;
                    Ok(())
                }
            },
            None => {
                if is_sender {
                    return Err(BlockValidationError::InvalidInput);
                }
                proof {
                    lemma_supply_insert(self@, key@, value);
                }
                self.values_store.insert(key.clone(), value);
                self.supply = self.supply + value;
                Ok(())
            },
        }
    }

    /// Puts the entry of `key` back to `previous`: a balance, or absent.
    pub(crate) fn reinstate(&mut self, key: &String, previous: Option<u64>)
        requires
            old(self).wf(),
            supply(old(self)@) - balance_of(old(self)@, key@) + held(previous) <= u64::MAX,
        ensures
            final(self).wf(),
            final(self)@ == restored(old(self)@, key@, previous),
    {
        proof {
            lemma_balance_within_supply(self@, key@);
        }
        let current: u64 = match self.values_store.get(key.as_str()) {
            Some(value) => *value,
            None => 0,
        };
        match previous {
            Some(balance) => {
                proof {
                    lemma_supply_insert(self@, key@, balance);
                }
                self.values_store.insert(key.clone(), balance);
                self.supply = self.supply - current + balance;
            },
            None => {
                proof {
                    lemma_supply_forget(self@, key@);
                }
                self.values_store.remove(key.as_str());
                self.supply = self.supply - current;
            },
        }
    }
}

} // verus!
