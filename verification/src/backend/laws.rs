use crate::backend::block::block::{digest_is_current, mined, BlockView};
use crate::backend::block::blockchain::{accept, chain_wf, link_holds, ChainView};
use crate::backend::enums::BlockValidationError;
use crate::backend::functions::meets_difficulty;
use crate::backend::transaction::supply::{lemma_supply_empty, supply};
use crate::backend::transaction::transaction::TransactionView;
use crate::backend::transaction::valuestore::{
    apply_all, lemma_credit_supply, lemma_transfer_conserves, MINING_REWARD,
};
use vstd::prelude::*;

verus! {

/// The chain that holds nothing yet.
pub open spec fn empty_chain() -> ChainView {
    ChainView { blocks: Seq::empty(), balances: Map::empty() }
}

/// A mined first block that carries a transfer is accepted by the empty chain: the chain
/// then holds that block alone, and the ledger holds the minted amount for the mint's
/// target and nothing else.
pub proof fn law_mined_first_block_accepted(
    block: BlockView,
    timestamp: u64,
    transactions: Seq<TransactionView>,
    broadcaster: Seq<char>,
)
    requires
        mined(block, 0, timestamp, transactions, broadcaster),
        transactions.len() > 0,
    ensures
        accept(empty_chain(), block) == Ok::<ChainView, BlockValidationError>(
            ChainView {
                blocks: seq![block],
                balances: Map::<Seq<char>, u64>::empty().insert(
                    transactions[0].to,
                    transactions[0].value,
                ),
            },
        ),
{
}

/// Hashing what a mined block states gives the digest that the block stores.
pub proof fn law_mined_digest_is_current(
    block: BlockView,
    index: u64,
    timestamp: u64,
    transactions: Seq<TransactionView>,
    broadcaster: Seq<char>,
)
    requires
        mined(block, index, timestamp, transactions, broadcaster),
    ensures
        digest_is_current(block),
{
}

/// A candidate that sits at the right index, and on an empty chain names no
/// predecessor, is turned down for its digest whenever the digest does not lie below
/// its target, whatever else it states.
pub proof fn law_unmet_difficulty_rejected(chain: ChainView, candidate: BlockView)
    requires
        chain.blocks.len() == 0 ==> candidate.index == 0 && candidate.prev is None,
        chain.blocks.len() > 0 ==> candidate.index == chain.blocks.last().index + 1,
        !meets_difficulty(candidate.digest, candidate.difficulty),
    ensures
        accept(chain, candidate) == Err::<ChainView, BlockValidationError>(
            BlockValidationError::InvalidHash,
        ),
{
}

/// On a chain that has a tip, a candidate whose index is anything but the tip's index
/// plus one is turned down for its index: a repeated index as well as a skipped one.
pub proof fn law_index_gap_rejected(chain: ChainView, candidate: BlockView)
    requires
        chain.blocks.len() > 0,
        candidate.index != chain.blocks.last().index + 1,
    ensures
        accept(chain, candidate) == Err::<ChainView, BlockValidationError>(
            BlockValidationError::MismatchedIndex,
        ),
{
}

/// A candidate at the right index and with a digest below its target is turned down
/// for its timestamp whenever that is not later than the tip's.
pub proof fn law_stale_timestamp_rejected(chain: ChainView, candidate: BlockView)
    requires
        chain.blocks.len() > 0,
        candidate.index == chain.blocks.last().index + 1,
        meets_difficulty(candidate.digest, candidate.difficulty),
        candidate.timestamp <= chain.blocks.last().timestamp,
    ensures
        accept(chain, candidate) == Err::<ChainView, BlockValidationError>(
            BlockValidationError::AchronologicalTimestamp,
        ),
{
}

/// A batch of transfers that goes through moves value and neither creates nor destroys
/// it.
pub proof fn law_batch_conserves(ledger: Map<Seq<char>, u64>, txs: Seq<TransactionView>)
    requires
        ledger.dom().finite(),
        supply(ledger) <= u64::MAX,
        apply_all(ledger, txs) is Ok,
    ensures
        apply_all(ledger, txs)->Ok_0.dom().finite(),
        supply(apply_all(ledger, txs)->Ok_0) == supply(ledger),
    decreases txs.len(),
{
    if txs.len() > 0 {
        law_batch_conserves(ledger, txs.drop_last());
        let applied = apply_all(ledger, txs.drop_last())->Ok_0;
        lemma_transfer_conserves(applied, txs.last().from, txs.last().to, txs.last().value);
    }
}

/// Accepting a block takes one accepted state to another: the blocks stay linked, and
/// the ledger holds exactly the first block's mint and one reward for every block
/// after it.
pub proof fn law_accept_preserves_wf(chain: ChainView, candidate: BlockView)
    requires
        chain_wf(chain),
        chain.blocks.len() > 0 ==> supply(chain.balances) + MINING_REWARD <= u64::MAX,
        accept(chain, candidate) is Ok,
    ensures
        chain_wf(accept(chain, candidate)->Ok_0),
{
    let next = accept(chain, candidate)->Ok_0;
    if chain.blocks.len() == 0 {
        lemma_supply_empty();
        lemma_credit_supply(
            Map::<Seq<char>, u64>::empty(),
            candidate.transactions[0].to,
            candidate.transactions[0].value,
        );
        assert(link_holds(next.blocks, 0));
    } else {
        let size = chain.blocks.len() as int;
        law_batch_conserves(chain.balances, candidate.transactions);
        let applied = apply_all(chain.balances, candidate.transactions)->Ok_0;
        lemma_credit_supply(applied, candidate.broadcaster, MINING_REWARD);
        assert(link_holds(chain.blocks, size - 1));
        assert forall|i: int| 0 <= i < next.blocks.len() implies #[trigger] link_holds(
            next.blocks,
            i,
        ) by {
            if i < size {
                assert(link_holds(chain.blocks, i));
            }
        }
    }
}

/// A candidate that passes every check on its header is turned down whenever one of
/// its transfers fails, for the reason that the first failing transfer gives.
pub proof fn law_failed_transfer_rejects_block(chain: ChainView, candidate: BlockView)
    requires
        chain.blocks.len() > 0,
        apply_all(chain.balances, candidate.transactions) is Err,
        candidate.index == chain.blocks.last().index + 1,
        meets_difficulty(candidate.digest, candidate.difficulty),
        candidate.timestamp > chain.blocks.last().timestamp,
    ensures
        accept(chain, candidate) == Err::<ChainView, BlockValidationError>(
            apply_all(chain.balances, candidate.transactions)->Err_0,
        ),
{
}

} // verus!
