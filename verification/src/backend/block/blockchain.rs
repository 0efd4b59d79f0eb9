use crate::backend::block::block::{Block, BlockView};
use crate::backend::enums::BlockValidationError;
use crate::backend::functions::{check_difficulty, meets_difficulty};
use crate::backend::transaction::supply::{lemma_supply_empty, supply};
use crate::backend::transaction::transaction::{Transaction, TransactionView};
use crate::backend::transaction::transactions::{transaction_views, Transactions};
use crate::backend::transaction::valuestore::{
    apply_all, credited, entry, lemma_apply_all_prefix_error, lemma_credit_supply,
    lemma_transfer_conserves, lemma_undo_transfer, transfer, ValueStore, MINING_REWARD,
};
use vstd::prelude::*;

verus! {

/// The accepted blocks, oldest first, and the ledger that their transfers have produced.
pub struct BlockChain {
    blocks: Vec<Block>,
    value_store: ValueStore,
}

/// What a chain states, as plain values.
pub struct ChainView {
    pub blocks: Seq<BlockView>,
    pub balances: Map<Seq<char>, u64>,
}

/// What each block of a sequence states.
pub open spec fn block_views(blocks: Seq<Block>) -> Seq<BlockView> {
    blocks.map_values(|b: Block| b@)
}

impl View for BlockChain {
    type V = ChainView;

    closed spec fn view(&self) -> ChainView {
        ChainView { blocks: block_views(self.blocks@), balances: self.value_store@ }
    }
}

/// The block at position `i` sits correctly in the sequence: its index is its position,
/// its digest meets its target, and it follows its predecessor in time and by digest;
/// the first block names no predecessor.
pub open spec fn link_holds(blocks: Seq<BlockView>, i: int) -> bool
    recommends
        0 <= i < blocks.len(),
{
    &&& blocks[i].index == i
    &&& meets_difficulty(blocks[i].digest, blocks[i].difficulty)
    &&& if i == 0 {
        blocks[i].prev is None
    } else {
        &&& blocks[i].timestamp > blocks[i - 1].timestamp
        &&& blocks[i].prev == Some(blocks[i - 1].digest)
    }
}

/// Every block of the sequence sits correctly in it.
pub open spec fn linked(blocks: Seq<BlockView>) -> bool {
    forall|i: int| 0 <= i < blocks.len() ==> #[trigger] link_holds(blocks, i)
}

/// What a chain of the given blocks has issued: the first block's mint, and the reward
/// for every block after it.
pub open spec fn issuance(blocks: Seq<BlockView>) -> int {
    if blocks.len() == 0 {
        0
    } else {
        blocks[0].transactions[0].value + MINING_REWARD * (blocks.len() - 1)
    }
}

/// An accepted state: the blocks are linked, the first one carries its mint, and the
/// ledger holds exactly what the chain has issued.
pub open spec fn chain_wf(chain: ChainView) -> bool {
    &&& linked(chain.blocks)
    &&& chain.blocks.len() > 0 ==> chain.blocks[0].transactions.len() > 0
    &&& chain.blocks.len() == 0 ==> chain.balances == Map::<Seq<char>, u64>::empty()
    &&& chain.balances.dom().finite()
    &&& supply(chain.balances) == issuance(chain.blocks)
    &&& supply(chain.balances) <= u64::MAX
}

/// Admitting a first block to an empty chain.
pub open spec fn accept_first(candidate: BlockView) -> Result<ChainView, BlockValidationError> {
    if candidate.index != 0 {
        Err(BlockValidationError::MismatchedIndex)
    } else if candidate.prev is Some {
        Err(BlockValidationError::InvalidGenesisBlock)
    } else if !meets_difficulty(candidate.digest, candidate.difficulty) {
        Err(BlockValidationError::InvalidHash)
    } else if candidate.transactions.len() == 0 {
        Err(BlockValidationError::InvalidInput)
    } else {
        Ok(
            ChainView {
                blocks: seq![candidate],
                balances: credited(
                    Map::<Seq<char>, u64>::empty(),
                    candidate.transactions[0].to,
                    candidate.transactions[0].value,
                ),
            },
        )
    }
}

/// Admitting a block behind the tip of a chain that has one.
pub open spec fn accept_next(chain: ChainView, candidate: BlockView) -> Result<
    ChainView,
    BlockValidationError,
>
    recommends
        chain.blocks.len() > 0,
{
    let last = chain.blocks.last();
    if candidate.index != last.index + 1 {
        Err(BlockValidationError::MismatchedIndex)
    } else if !meets_difficulty(candidate.digest, candidate.difficulty) {
        Err(BlockValidationError::InvalidHash)
    } else if candidate.timestamp <= last.timestamp {
        Err(BlockValidationError::AchronologicalTimestamp)
    } else {
        match apply_all(chain.balances, candidate.transactions) {
            Err(e) => Err(e),
            Ok(applied) => Ok(
                ChainView {
                    blocks: chain.blocks.push(
                        BlockView { prev: Some(last.digest), ..candidate },
                    ),
                    balances: credited(applied, candidate.broadcaster, MINING_REWARD),
                },
            ),
        }
    }
}

/// The admission rule: the chain that results from accepting `candidate`, or the reason
/// why it is turned down.
pub open spec fn accept(chain: ChainView, candidate: BlockView) -> Result<
    ChainView,
    BlockValidationError,
> {
    if chain.blocks.len() == 0 {
        accept_first(candidate)
    } else {
        accept_next(chain, candidate)
    }
}

impl BlockChain {
    /// The chain's own ledger keeps its books.
    pub closed spec fn ledger_wf(&self) -> bool {
        self.value_store.wf()
    }

    /// A chain is well formed when it is an accepted state and its ledger keeps its
    /// books.
    pub open spec fn wf(&self) -> bool {
        &&& chain_wf(self@)
        &&& self.ledger_wf()
    }

    pub fn new() -> (chain: BlockChain)
        ensures
            chain.wf(),
            chain@.blocks == Seq::<BlockView>::empty(),
            chain@.balances == Map::<Seq<char>, u64>::empty(),
    {
        let chain = BlockChain { blocks: Vec::new(), value_store: ValueStore::new() };
        proof {
            lemma_supply_empty();
            assert(chain@.blocks =~= Seq::<BlockView>::empty());
        }
        chain
    }

    /// The most recently accepted block.
    pub fn last(&self) -> (tip: Option<&Block>)
        ensures
            match tip {
                Some(block) => self@.blocks.len() > 0 && block@ == self@.blocks.last(),
                None => self@.blocks.len() == 0,
            },
    {
        if self.blocks.len() == 0 {
            return None;
        }
        Some(&self.blocks[self.blocks.len() - 1])
    }

    /// The number of accepted blocks.
    pub fn get_block_size(&self) -> (size: usize)
        ensures
            size == self@.blocks.len(),
    {
        self.blocks.len()
    }

    pub fn value_store(&self) -> (store: &ValueStore)
        ensures
            store@ == self@.balances,
            self.wf() ==> store.wf(),
    {
        &self.value_store
    }

    /// Appends `block` without holding it to any rule.
    pub fn _push(&mut self, block: Block)
        ensures
            final(self)@.blocks == old(self)@.blocks.push(block@),
            final(self)@.balances == old(self)@.balances,
    {
        self.blocks.push(block);
        assert(final(self)@.blocks =~= old(self)@.blocks.push(block@));
    }

    /// Moves `value` between two addresses of the chain's ledger, or changes nothing
    /// and says why not.
    pub fn set_transaction(
        &mut self,
        from_address: &String,
        to_address: &String,
        value: u64,
    ) -> (outcome: Result<(), BlockValidationError>)
        requires
            old(self).wf(),
        ensures
            final(self).wf(),
            final(self)@.blocks == old(self)@.blocks,
            match transfer(old(self)@.balances, from_address@, to_address@, value) {
                Ok(ledger) => outcome is Ok && final(self)@.balances == ledger,
                Err(e) => outcome == Err::<(), BlockValidationError>(e) && final(self)@
                    == old(self)@,
            },
    {
        proof {
            if transfer(self@.balances, from_address@, to_address@, value) is Ok {
                lemma_transfer_conserves(self@.balances, from_address@, to_address@, value);
            }
        }
        self.value_store.set_transaction(from_address, to_address, value)
    }
}

/// What it takes to undo one applied transfer: the two addresses it touched, and what
/// each held before.
struct Reversal {
    from: String,
    from_before: Option<u64>,
    to: String,
    to_before: Option<u64>,
}

/// `undo` records what the transfer `tx` touched in the ledger `before`.
spec fn reverses(undo: Reversal, before: Map<Seq<char>, u64>, tx: TransactionView) -> bool {
    &&& undo.from@ == tx.from
    &&& undo.to@ == tx.to
    &&& undo.from_before == entry(before, tx.from)
    &&& undo.to_before == entry(before, tx.to)
}

/// Whether two digests are the same, byte for byte.
fn same_digest(a: &[u8; 32], b: &[u8; 32]) -> (same: bool)
    ensures
        same == (a@ == b@),
{
    let mut i: usize = 0;
    while i < 32
        invariant
            i <= 32,
            forall|j: int| 0 <= j < i ==> a@[j] == b@[j],
        decreases 32 - i,
    {
        if a[i] != b[i] {
            return false;
        }
        i += 1;
    }
    assert(a@ =~= b@);
    true
}

impl BlockChain {
    /// Applies one transfer of a candidate to the ledger. A chain without a first block
    /// takes none.
    fn insert_value_to_balance(&mut self, tx: &Transaction) -> (outcome: Result<
        (),
        BlockValidationError,
    >)
        requires
            old(self).ledger_wf(),
        ensures
            final(self).ledger_wf(),
            final(self).blocks == old(self).blocks,
            old(self)@.blocks.len() == 0 ==> outcome == Err::<(), BlockValidationError>(
                BlockValidationError::InvalidInput,
            ) && final(self)@ == old(self)@,
            old(self)@.blocks.len() > 0 ==> match transfer(
                old(self)@.balances,
                tx@.from,
                tx@.to,
                tx@.value,
            ) {
                Ok(ledger) => outcome is Ok && final(self)@.balances == ledger,
                Err(e) => outcome == Err::<(), BlockValidationError>(e) && final(self)@
                    == old(self)@,
            },
    {
        if self.blocks.len() == 0 {
            return Err(BlockValidationError::InvalidInput);
        }
        let from_adr = tx.from_address();
        let to_adr = tx.to_address();
        let value = tx.value();
        self.value_store.set_transaction(from_adr, to_adr, *value)
    }

    /// Undoes the transfers that `processed_txs` records, last first. `states` holds the
    /// ledger before each of them and after the last; `views` holds the transfers.
    fn undo_transactions(
        &mut self,
        processed_txs: &Vec<Reversal>,
        Ghost(states): Ghost<Seq<Map<Seq<char>, u64>>>,
        Ghost(views): Ghost<Seq<TransactionView>>,
    )
        requires
            old(self).ledger_wf(),
            states.len() == processed_txs@.len() + 1,
            processed_txs@.len() <= views.len(),
            states.last() == old(self)@.balances,
            forall|k: int|
                0 <= k < states.len() ==> (#[trigger] states[k]).dom().finite() && supply(
                    states[k],
                ) <= u64::MAX,
            forall|k: int|
                0 <= k < processed_txs@.len() ==> transfer(
                    #[trigger] states[k],
                    views[k].from,
                    views[k].to,
                    views[k].value,
                ) == Ok::<Map<Seq<char>, u64>, BlockValidationError>(states[k + 1]),
            forall|k: int|
                0 <= k < processed_txs@.len() ==> reverses(
                    #[trigger] processed_txs@[k],
                    states[k],
                    views[k],
                ),
        ensures
            final(self).ledger_wf(),
            final(self).blocks == old(self).blocks,
            final(self)@.balances == states[0],
    {
        let mut j: usize = processed_txs.len();
        while j > 0
            invariant
                j <= processed_txs@.len(),
                self.blocks == old(self).blocks,
                self.ledger_wf(),
                states.len() == processed_txs@.len() + 1,
                processed_txs@.len() <= views.len(),
                states[j as int] == self@.balances,
                forall|k: int|
                    0 <= k < states.len() ==> (#[trigger] states[k]).dom().finite() && supply(
                        states[k],
                    ) <= u64::MAX,
                forall|k: int|
                    0 <= k < processed_txs@.len() ==> transfer(
                        #[trigger] states[k],
                        views[k].from,
                        views[k].to,
                        views[k].value,
                    ) == Ok::<Map<Seq<char>, u64>, BlockValidationError>(states[k + 1]),
                forall|k: int|
                    0 <= k < processed_txs@.len() ==> reverses(
                        #[trigger] processed_txs@[k],
                        states[k],
                        views[k],
                    ),
            decreases j,
        {
            j -= 1;
            let tx_done = &processed_txs[j];
            proof {
                assert(reverses(processed_txs@[j as int], states[j as int], views[j as int]));
                assert(states[j as int].dom().finite());
                lemma_undo_transfer(
                    states[j as int],
                    views[j as int].from,
                    views[j as int].to,
                    views[j as int].value,
                );
            }
            self.value_store.reinstate(&tx_done.to, tx_done.to_before);
            self.value_store.reinstate(&tx_done.from, tx_done.from_before);
        }
    }

    /// Applies the transfers of a candidate in order. Where one fails, every transfer
    /// applied before it is undone, last first, and the ledger is as it was.
    fn apply_transactions(&mut self, transactions: &Transactions) -> (outcome: Result<
        (),
        BlockValidationError,
    >)
        requires
            old(self).ledger_wf(),
            old(self)@.blocks.len() > 0,
            old(self)@.balances.dom().finite(),
            supply(old(self)@.balances) <= u64::MAX,
        ensures
            final(self).ledger_wf(),
            final(self).blocks == old(self).blocks,
            match apply_all(old(self)@.balances, transactions@) {
                Ok(ledger) => {
                    &&& outcome is Ok
                    &&& final(self)@.balances == ledger
                    &&& ledger.dom().finite()
                    &&& supply(ledger) == supply(old(self)@.balances)
                },
                Err(e) => outcome == Err::<(), BlockValidationError>(e) && final(self)@
                    == old(self)@,
            },
    {
        let txs = transactions.values();
        let ghost start = self@.balances;
        let ghost views = transactions@;
        let ghost mut states: Seq<Map<Seq<char>, u64>> = seq![start];
        let mut processed_txs: Vec<Reversal> = Vec::new();
        let mut i: usize = 0;
        assert(views.take(0) =~= Seq::<TransactionView>::empty());
        while i < txs.len()
            invariant
                i <= txs@.len(),
                transaction_views(txs@) == views,
                views == transactions@,
                start == old(self)@.balances,
                self.blocks == old(self).blocks,
                self@.blocks.len() > 0,
                self.ledger_wf(),
                supply(start) <= u64::MAX,
                states.len() == i + 1,
                states[0] == start,
                states[i as int] == self@.balances,
                forall|j: int|
                    0 <= j <= i ==> (#[trigger] states[j]).dom().finite() && supply(states[j])
                        == supply(start),
                forall|j: int|
                    0 <= j < i ==> transfer(
                        #[trigger] states[j],
                        views[j].from,
                        views[j].to,
                        views[j].value,
                    ) == Ok::<Map<Seq<char>, u64>, BlockValidationError>(states[j + 1]),
                apply_all(start, views.take(i as int)) == Ok::<
                    Map<Seq<char>, u64>,
                    BlockValidationError,
                >(states[i as int]),
                processed_txs@.len() == i,
                forall|j: int|
                    0 <= j < i ==> reverses(#[trigger] processed_txs@[j], states[j], views[j]),
            decreases txs@.len() - i,
        {
            let tx = &txs[i];
            assert(tx@ == views[i as int]);
            let from_before = self.value_store.balance(tx.from_address());
            let to_before = self.value_store.balance(tx.to_address());
            let ghost before = self@.balances;
            proof {
                assert(views.take(i + 1).drop_last() =~= views.take(i as int));
                assert(views.take(i + 1).last() == views[i as int]);
            }
            match self.insert_value_to_balance(tx) {
                Ok(()) => {
                    processed_txs.push(
                        Reversal {
                            from: tx.from_address().clone(),
                            from_before,
                            to: tx.to_address().clone(),
                            to_before,
                        },
                    );
                    proof {
                        lemma_transfer_conserves(before, tx@.from, tx@.to, tx@.value);
                        states = states.push(self@.balances);
                    }
                },
                Err(e) => {
                    proof {
                        lemma_apply_all_prefix_error(start, views, i + 1);
                    }
                    self.undo_transactions(&processed_txs, Ghost(states), Ghost(views));
                    return Err(e);
                },
            }
            i += 1;
        }
        assert(views.take(i as int) =~= views);
        Ok(())
    }

    /// Holds `new_block` to the admission rule. An accepted block is appended behind
    /// the tip, with the tip's digest recorded as its predecessor's; its transfers are
    /// applied and its broadcaster is paid the mining reward. A block that is turned
    /// down leaves chain and ledger as they were.
    pub fn update_block(&mut self, new_block: Block) -> (outcome: Result<
        (),
        BlockValidationError,
    >)
        requires
            old(self).wf(),
            old(self)@.blocks.len() > 0 ==> supply(old(self)@.balances) + MINING_REWARD
                <= u64::MAX,
        ensures
            final(self).wf(),
            match accept(old(self)@, new_block@) {
                Ok(chain) => outcome is Ok && final(self)@ == chain,
                Err(e) => outcome == Err::<(), BlockValidationError>(e) && final(self)@
                    == old(self)@,
            },
    {
        let mut new_block = new_block;
        let ghost candidate = new_block@;
        if self.blocks.len() == 0 {
            if new_block.index() != 0 {
                return Err(BlockValidationError::MismatchedIndex);
            }
            if new_block.has_prev() {
                return Err(BlockValidationError::InvalidGenesisBlock);
            }
            let result = check_difficulty(
                new_block.current_hash_bytes().as_slice(),
                &new_block.difficulty(),
            );
            if !result {
                return Err(BlockValidationError::InvalidHash);
            }
            proof {
                lemma_supply_empty();
                if candidate.transactions.len() > 0 {
                    lemma_credit_supply(
                        Map::<Seq<char>, u64>::empty(),
                        candidate.transactions[0].to,
                        candidate.transactions[0].value,
                    );
                }
            }
            match self.value_store.insert_genesis_balance(&mut new_block) {
                Ok(()) => {
                    self.blocks.push(new_block);
                    proof {
                        assert(self@.blocks =~= seq![candidate]);
                        assert(link_holds(self@.blocks, 0));
                    }
                    return Ok(());
                },
                Err(_) => {
                    return Err(BlockValidationError::InvalidInput);
                },
            }
        }
        let ghost before = self@;
        let size = self.blocks.len();
        let tip = &self.blocks[size - 1];
        let tip_index = tip.index();
        let tip_timestamp = tip.timestamp();
        let tip_hash = tip.current_hash_bytes();
        assert(tip@ == before.blocks.last());
        if tip_index == u64::MAX || new_block.index() != tip_index + 1 {
            return Err(BlockValidationError::MismatchedIndex);
        }
        let is_valid_hash = check_difficulty(
            new_block.current_hash_bytes().as_slice(),
            &new_block.difficulty(),
        );
        if !is_valid_hash {
            return Err(BlockValidationError::InvalidHash);
        }
        if tip_timestamp >= new_block.timestamp() {
            return Err(BlockValidationError::AchronologicalTimestamp);
        }
        match self.apply_transactions(new_block.transactions()) {
            Ok(()) => {},
            Err(e) => {
                return Err(e);
            },
        }
        let ghost applied = self@.balances;
        let broadcaster = new_block.broadcaster().clone();
        new_block.set_prev_block(tip_hash);
        let ghost appended = new_block@;
        self.blocks.push(new_block);
        self.value_store.reward_miner(&self.blocks, broadcaster);
        proof {
            lemma_credit_supply(applied, candidate.broadcaster, MINING_REWARD);
            assert(self@.blocks =~= before.blocks.push(appended));
            assert(link_holds(before.blocks, size - 1));
            assert forall|i: int| 0 <= i < self@.blocks.len() implies #[trigger] link_holds(
                self@.blocks,
                i,
            ) by {
                if i < size {
                    assert(link_holds(before.blocks, i));
                }
            }
        }
        Ok(())
    }

    /// Whether the accepted blocks are linked: each at its own index, each with a
    /// digest below its target, each later than the one before it and naming that
    /// one's digest, the first naming none.
    pub fn _is_valid(&self) -> (valid: bool)
        ensures
            valid == linked(self@.blocks),
    {
        let mut i: usize = 0;
        while i < self.blocks.len()
            invariant
                i <= self.blocks@.len(),
                forall|j: int| 0 <= j < i ==> #[trigger] link_holds(self@.blocks, j),
            decreases self.blocks@.len() - i,
        {
            let block = &self.blocks[i];
            assert(block@ == self@.blocks[i as int]);
            let mut holds = block.index() == i as u64 && check_difficulty(
                block.current_hash().as_slice(),
                &block.difficulty(),
            );
            if i == 0 {
                holds = holds && !block.has_prev();
            } else {
                let prev_block = &self.blocks[i - 1];
                assert(prev_block@ == self@.blocks[i - 1]);
                holds = holds && block.has_prev() && block.timestamp() > prev_block.timestamp()
                    && same_digest(&block.prev_hash_bytes(), prev_block.current_hash());
            }
            if !holds {
                assert(!link_holds(self@.blocks, i as int));
                return false;
            }
            i += 1;
        }
        true
    }
}

} // verus!
