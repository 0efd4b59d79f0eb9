use crypto::digest::Digest;
use crypto::sha2::Sha256;
use rust_blockchain_seman::backend::block::block::INITIAL_BALANCE;
use rust_blockchain_seman::backend::transaction::valuestore::MINING_REWARD;
use rust_blockchain_seman::backend::{
    check_difficulty, get_genesis_hasher, get_hash, Block, BlockChain, BlockValidationError,
    Transaction, Transactions,
};

fn batch(transfers: &[(&str, &str, u64)]) -> Transactions {
    let mut transactions = Transactions::empty();
    for (from, to, value) in transfers {
        transactions
            .values_mut()
            .push(Transaction::new(from.to_string(), to.to_string(), *value));
    }
    transactions
}

fn mined(index: u64, timestamp: u64, transfers: &[(&str, &str, u64)], broadcaster: &str) -> Block {
    Block::mine_at(index, timestamp, batch(transfers), broadcaster.to_string())
        .expect("a nonce below the target")
}

/// A block sealed with the first nonce whose digest does not lie below the target.
fn unmined(index: u64, timestamp: u64, transfers: &[(&str, &str, u64)]) -> Block {
    let mut nonce: u64 = 0;
    loop {
        let block = Block::with_nonce(index, timestamp, nonce, batch(transfers), "M".to_string());
        if !check_difficulty(block.current_hash(), &block.difficulty()) {
            return block;
        }
        nonce += 1;
    }
}

/// A chain whose first block has minted 100 to `A`.
fn chain_with_a_hundred() -> BlockChain {
    let mut chain = BlockChain::new();
    assert_eq!(chain.update_block(mined(0, 1000, &[("", "A", 100)], "A")), Ok(()));
    chain
}

fn held(chain: &BlockChain, address: &str) -> Option<u64> {
    chain.value_store().balance(&address.to_string())
}

#[test]
fn test_verify() {
    let mut blk_chain = BlockChain::new();

    let block = Block::mine(1, Transactions::empty(), Sha256::new().result_str())
        .expect("a nonce below the target");
    blk_chain._push(block);
}

#[test]
fn test_verify_blocks() {
    let gen_block = Block::gen_genesis().expect("a nonce below the target");
    let mut last_hash: [u8; 32] = *gen_block.current_hash();
    let mut blk_chain = BlockChain::new();

    // put genesis block
    blk_chain._push(gen_block);

    let mut hasher = Sha256::new();
    hasher.input_str("Broadcaster");

    for i in 1..=10 {
        println!("{}", i);
        let block = Block::mine(1, Transactions::empty(), hasher.result_str())
            .expect("a nonce below the target");

        last_hash = block.current_hash().clone();
        blk_chain._push(block);
    }

    println!("{:?}", last_hash);
    println!("{:?}", blk_chain.get_block_size());
    println!("{}", blk_chain._is_valid());
}

#[test]
fn test_derefence() {
    let str_a = String::new();
    let _str_b = &str_a;
}

#[test]
fn new_chain_is_empty() {
    let chain = BlockChain::new();
    assert_eq!(chain.get_block_size(), 0);
    assert!(chain.last().is_none());
    assert_eq!(chain.value_store().total_supply(), 0);
    assert!(chain._is_valid());
}

#[test]
fn genesis_is_accepted() {
    let mut chain = BlockChain::new();
    assert_eq!(
        chain.update_block(Block::gen_genesis().expect("a nonce below the target")),
        Ok(())
    );
    assert_eq!(chain.get_block_size(), 1);
    assert_eq!(chain.value_store().balance(&get_genesis_hasher()), Some(INITIAL_BALANCE));
    assert_eq!(chain.value_store().balance(&get_genesis_hasher()), Some(5000));
    assert_eq!(chain.value_store().total_supply(), 5000);
    let tip = chain.last().expect("a tip");
    assert_eq!(tip.index(), 0);
    assert!(!tip.has_prev());
    assert!(chain._is_valid());
}

#[test]
fn genesis_with_a_nonzero_index_is_mismatched() {
    let mut chain = BlockChain::new();
    assert_eq!(
        chain.update_block(mined(1, 1000, &[("", "A", 100)], "A")),
        Err(BlockValidationError::MismatchedIndex)
    );
    assert_eq!(chain.get_block_size(), 0);
    assert_eq!(held(&chain, "A"), None);
}

#[test]
fn genesis_that_names_a_predecessor_is_invalid() {
    let mut chain = BlockChain::new();
    let mut block = mined(0, 1000, &[("", "A", 100)], "A");
    block.set_prev_block([7u8; 32]);
    assert_eq!(chain.update_block(block), Err(BlockValidationError::InvalidGenesisBlock));
    assert_eq!(chain.get_block_size(), 0);
    assert_eq!(held(&chain, "A"), None);
}

#[test]
fn genesis_with_an_unmet_target_is_an_invalid_hash() {
    let mut chain = BlockChain::new();
    assert_eq!(
        chain.update_block(unmined(0, 1000, &[("", "A", 100)])),
        Err(BlockValidationError::InvalidHash)
    );
    assert_eq!(chain.get_block_size(), 0);
    assert_eq!(held(&chain, "A"), None);
}

#[test]
fn genesis_without_a_transfer_is_invalid_input() {
    let mut chain = BlockChain::new();
    assert_eq!(
        chain.update_block(mined(0, 1000, &[], "A")),
        Err(BlockValidationError::InvalidInput)
    );
    assert_eq!(chain.get_block_size(), 0);
}

#[test]
fn unmet_target_is_an_invalid_hash() {
    let mut chain = chain_with_a_hundred();
    assert_eq!(
        chain.update_block(unmined(1, 2000, &[("A", "B", 10)])),
        Err(BlockValidationError::InvalidHash)
    );
    assert_eq!(chain.get_block_size(), 1);
    assert_eq!(held(&chain, "A"), Some(100));
    assert_eq!(held(&chain, "B"), None);
    assert_eq!(held(&chain, "M"), None);
}

#[test]
fn repeated_and_skipped_indices_are_mismatched() {
    let mut chain = chain_with_a_hundred();
    for index in [0u64, 2, 3, u64::MAX] {
        assert_eq!(
            chain.update_block(mined(index, 2000, &[("A", "B", 10)], "M")),
            Err(BlockValidationError::MismatchedIndex)
        );
        assert_eq!(chain.get_block_size(), 1);
        assert_eq!(held(&chain, "A"), Some(100));
        assert_eq!(held(&chain, "B"), None);
    }
    assert_eq!(chain.update_block(mined(1, 2000, &[("A", "B", 10)], "M")), Ok(()));
    assert_eq!(
        chain.update_block(mined(1, 3000, &[("A", "B", 10)], "M")),
        Err(BlockValidationError::MismatchedIndex)
    );
    assert_eq!(chain.get_block_size(), 2);
}

#[test]
fn timestamps_must_strictly_increase() {
    let mut chain = chain_with_a_hundred();
    for timestamp in [0u64, 999, 1000] {
        assert_eq!(
            chain.update_block(mined(1, timestamp, &[("A", "B", 10)], "M")),
            Err(BlockValidationError::AchronologicalTimestamp)
        );
        assert_eq!(chain.get_block_size(), 1);
        assert_eq!(held(&chain, "A"), Some(100));
        assert_eq!(held(&chain, "B"), None);
    }
    assert_eq!(chain.update_block(mined(1, 1001, &[("A", "B", 10)], "M")), Ok(()));
    assert_eq!(chain.get_block_size(), 2);
}

#[test]
fn overspending_block_is_rolled_back() {
    let mut chain = chain_with_a_hundred();
    assert_eq!(held(&chain, "A"), Some(100));
    let before_b = held(&chain, "B");
    let before_c = held(&chain, "C");
    assert_eq!(
        chain.update_block(mined(1, 2000, &[("A", "B", 60), ("A", "C", 60)], "M")),
        Err(BlockValidationError::InsufficientInputVal)
    );
    assert_eq!(held(&chain, "A"), Some(100));
    assert_eq!(held(&chain, "B"), before_b);
    assert_eq!(held(&chain, "C"), before_c);
    assert_eq!(held(&chain, "B"), None);
    assert_eq!(held(&chain, "M"), None);
    assert_eq!(chain.get_block_size(), 1);
    assert_eq!(chain.value_store().total_supply(), 100);
}

#[test]
fn rollback_restores_every_touched_balance() {
    let mut chain = chain_with_a_hundred();
    assert_eq!(chain.update_block(mined(1, 2000, &[("A", "B", 30)], "M")), Ok(()));
    let transfers = [
        ("A", "B", 20),
        ("B", "C", 45),
        ("C", "A", 5),
        ("B", "B", 5),
        ("A", "D", 0),
        ("ghost", "A", 1),
        ("A", "B", 1),
    ];
    assert_eq!(
        chain.update_block(mined(2, 3000, &transfers, "M")),
        Err(BlockValidationError::InvalidInput)
    );
    assert_eq!(held(&chain, "A"), Some(70));
    assert_eq!(held(&chain, "B"), Some(30));
    assert_eq!(held(&chain, "C"), None);
    assert_eq!(held(&chain, "D"), None);
    assert_eq!(held(&chain, "M"), Some(1));
    assert_eq!(chain.get_block_size(), 2);
    assert_eq!(chain.value_store().total_supply(), 101);
}

#[test]
fn end_to_end() {
    let mut chain = BlockChain::new();
    assert_eq!(
        chain.update_block(Block::gen_genesis().expect("a nonce below the target")),
        Ok(())
    );
    let g = get_genesis_hasher();
    let x = get_hash("X".to_string());
    let broadcaster = get_hash("broadcaster".to_string());
    let genesis_digest = chain.last().expect("a tip").current_hash_bytes();

    let mut transactions = Transactions::empty();
    transactions.values_mut().push(Transaction::new(g.clone(), x.clone(), 200));
    let block = Block::mine(1, transactions, broadcaster.clone())
        .expect("a nonce below the target");
    let sealed = block.current_hash_bytes();
    assert_eq!(chain.update_block(block), Ok(()));

    assert_eq!(chain.value_store().balance(&g), Some(4800));
    assert_eq!(chain.value_store().balance(&x), Some(200));
    assert_eq!(chain.value_store().balance(&broadcaster), Some(MINING_REWARD));
    assert_eq!(chain.value_store().balance(&broadcaster), Some(1));
    assert_eq!(chain.get_block_size(), 2);
    assert_eq!(chain.value_store().total_supply(), 5001);

    let tip = chain.last().expect("a tip");
    assert_eq!(tip.index(), 1);
    assert!(tip.has_prev());
    assert_eq!(tip.prev_hash_bytes(), genesis_digest);
    assert_eq!(tip.current_hash_bytes(), sealed);
    assert!(chain._is_valid());
}

#[test]
fn reward_adds_to_what_the_broadcaster_holds() {
    let mut chain = chain_with_a_hundred();
    assert_eq!(chain.update_block(mined(1, 2000, &[("A", "B", 10)], "A")), Ok(()));
    assert_eq!(held(&chain, "A"), Some(91));
    assert_eq!(held(&chain, "B"), Some(10));
    assert_eq!(chain.update_block(mined(2, 3000, &[], "B")), Ok(()));
    assert_eq!(held(&chain, "B"), Some(11));
    assert_eq!(chain.get_block_size(), 3);
    assert_eq!(chain.value_store().total_supply(), 102);
}

#[test]
fn accepted_block_overwrites_a_claimed_predecessor() {
    let mut chain = chain_with_a_hundred();
    let tip_digest = chain.last().expect("a tip").current_hash_bytes();
    let mut block = mined(1, 2000, &[], "M");
    block.set_prev_block([9u8; 32]);
    assert_eq!(chain.update_block(block), Ok(()));
    assert_eq!(chain.last().expect("a tip").prev_hash_bytes(), tip_digest);
    assert!(chain._is_valid());
}

#[test]
fn chain_set_transaction_moves_value() {
    let mut chain = BlockChain::new();
    assert_eq!(
        chain.set_transaction(&"A".to_string(), &"B".to_string(), 1),
        Err(BlockValidationError::InvalidInput)
    );
    assert_eq!(chain.set_transaction(&"A".to_string(), &"B".to_string(), 0), Ok(()));
    assert_eq!(held(&chain, "B"), None);

    let mut chain = chain_with_a_hundred();
    assert_eq!(chain.set_transaction(&"A".to_string(), &"B".to_string(), 25), Ok(()));
    assert_eq!(held(&chain, "A"), Some(75));
    assert_eq!(held(&chain, "B"), Some(25));
    assert_eq!(
        chain.set_transaction(&"B".to_string(), &"A".to_string(), 26),
        Err(BlockValidationError::InsufficientInputVal)
    );
    assert_eq!(chain.get_block_size(), 1);
}

#[test]
fn pushed_blocks_are_checked_by_is_valid() {
    let mut chain = BlockChain::new();
    chain._push(mined(0, 1000, &[("", "A", 100)], "A"));
    assert!(chain._is_valid());
    chain._push(mined(1, 2000, &[], "M"));
    assert!(!chain._is_valid());

    let mut chain = BlockChain::new();
    chain._push(mined(1, 1000, &[], "M"));
    assert!(!chain._is_valid());

    let mut chain = BlockChain::new();
    let first = mined(0, 1000, &[("", "A", 100)], "A");
    let first_digest = first.current_hash_bytes();
    chain._push(first);
    let mut second = mined(1, 1000, &[], "M");
    second.set_prev_block(first_digest);
    chain._push(second);
    assert!(!chain._is_valid());

    let mut chain = BlockChain::new();
    chain._push(mined(0, 1000, &[("", "A", 100)], "A"));
    let mut second = mined(1, 2000, &[], "M");
    second.set_prev_block(first_digest);
    chain._push(second);
    assert!(chain._is_valid());
    chain._push(unmined(2, 3000, &[]));
    assert!(!chain._is_valid());
}
