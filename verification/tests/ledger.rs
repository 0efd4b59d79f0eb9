use rust_blockchain_seman::backend::transaction::valuestore::MINING_REWARD;
use rust_blockchain_seman::backend::{
    Block, BlockValidationError, Transaction, Transactions, ValueStore,
};

fn batch(transfers: &[(&str, &str, u64)]) -> Transactions {
    let mut transactions = Transactions::empty();
    for (from, to, value) in transfers {
        transactions
            .values_mut()
            .push(Transaction::new(from.to_string(), to.to_string(), *value));
    }
    transactions
}

fn first_block(transfers: &[(&str, &str, u64)]) -> Block {
    Block::with_nonce(0, 1, 0, batch(transfers), "miner".to_string())
}

fn store_with(address: &str, amount: u64) -> ValueStore {
    let mut store = ValueStore::new();
    let mut block = first_block(&[("", address, amount)]);
    assert_eq!(store.insert_genesis_balance(&mut block), Ok(()));
    store
}

fn held(store: &ValueStore, address: &str) -> Option<u64> {
    store.balance(&address.to_string())
}

#[test]
fn new_store_knows_nobody() {
    let store = ValueStore::new();
    assert_eq!(held(&store, "A"), None);
    assert_eq!(held(&store, ""), None);
    assert_eq!(store.total_supply(), 0);
}

#[test]
fn transfer_moves_value() {
    let mut store = store_with("A", 100);
    assert_eq!(store.set_transaction(&"A".to_string(), &"B".to_string(), 60), Ok(()));
    assert_eq!(held(&store, "A"), Some(40));
    assert_eq!(held(&store, "B"), Some(60));
    assert_eq!(store.total_supply(), 100);
    assert_eq!(store.set_transaction(&"A".to_string(), &"B".to_string(), 40), Ok(()));
    assert_eq!(held(&store, "A"), Some(0));
    assert_eq!(held(&store, "B"), Some(100));
    assert_eq!(store.total_supply(), 100);
}

#[test]
fn transfer_to_oneself_changes_nothing() {
    let mut store = store_with("A", 100);
    assert_eq!(store.set_transaction(&"A".to_string(), &"A".to_string(), 100), Ok(()));
    assert_eq!(held(&store, "A"), Some(100));
    assert_eq!(store.total_supply(), 100);
}

#[test]
fn transfer_of_nothing_always_succeeds() {
    let mut store = store_with("A", 100);
    assert_eq!(store.set_transaction(&"ghost".to_string(), &"B".to_string(), 0), Ok(()));
    assert_eq!(held(&store, "ghost"), None);
    assert_eq!(held(&store, "B"), None);
    assert_eq!(held(&store, "A"), Some(100));
}

#[test]
fn transfer_from_an_unknown_address_is_invalid_input() {
    let mut store = store_with("A", 100);
    assert_eq!(
        store.set_transaction(&"ghost".to_string(), &"B".to_string(), 1),
        Err(BlockValidationError::InvalidInput)
    );
    assert_eq!(held(&store, "A"), Some(100));
    assert_eq!(held(&store, "B"), None);
    assert_eq!(held(&store, "ghost"), None);
    assert_eq!(store.total_supply(), 100);
}

#[test]
fn transfer_beyond_the_balance_is_insufficient() {
    let mut store = store_with("A", 100);
    assert_eq!(
        store.set_transaction(&"A".to_string(), &"B".to_string(), 101),
        Err(BlockValidationError::InsufficientInputVal)
    );
    assert_eq!(held(&store, "A"), Some(100));
    assert_eq!(held(&store, "B"), None);
    assert_eq!(store.total_supply(), 100);
}

#[test]
fn an_emptied_address_is_still_known() {
    let mut store = store_with("A", 100);
    assert_eq!(store.set_transaction(&"A".to_string(), &"B".to_string(), 100), Ok(()));
    assert_eq!(
        store.set_transaction(&"A".to_string(), &"B".to_string(), 1),
        Err(BlockValidationError::InsufficientInputVal)
    );
}

#[test]
fn genesis_balance_credits_the_first_transfer_only() {
    let mut store = ValueStore::new();
    let mut block = first_block(&[("", "G", 5000), ("", "H", 70)]);
    assert_eq!(store.insert_genesis_balance(&mut block), Ok(()));
    assert_eq!(held(&store, "G"), Some(5000));
    assert_eq!(held(&store, "H"), None);
    assert_eq!(store.total_supply(), 5000);
    assert_eq!(block.index(), 0);
    assert_eq!(block.transactions().values().len(), 2);
}

#[test]
fn genesis_balance_of_nothing_makes_the_address_known() {
    let store = store_with("G", 0);
    assert_eq!(held(&store, "G"), Some(0));
    assert_eq!(store.total_supply(), 0);
}

#[test]
fn genesis_balance_needs_a_transfer_and_index_zero() {
    let mut store = ValueStore::new();
    let mut empty = first_block(&[]);
    assert_eq!(
        store.insert_genesis_balance(&mut empty),
        Err(BlockValidationError::InvalidInput)
    );
    let mut later = Block::with_nonce(1, 1, 0, batch(&[("", "G", 5)]), "miner".to_string());
    assert_eq!(
        store.insert_genesis_balance(&mut later),
        Err(BlockValidationError::InvalidInput)
    );
    assert_eq!(held(&store, "G"), None);
    assert_eq!(store.total_supply(), 0);
}

#[test]
fn reward_goes_to_the_broadcaster_of_the_last_block() {
    let mut store = store_with("A", 100);
    let blocks = vec![
        Block::with_nonce(0, 1, 0, Transactions::empty(), "first".to_string()),
        Block::with_nonce(1, 2, 0, Transactions::empty(), "miner".to_string()),
    ];
    store.reward_miner(&blocks, "miner".to_string());
    assert_eq!(held(&store, "miner"), Some(MINING_REWARD));
    assert_eq!(MINING_REWARD, 1);
    store.reward_miner(&blocks, "miner".to_string());
    assert_eq!(held(&store, "miner"), Some(2));
    assert_eq!(store.total_supply(), 102);

    store.reward_miner(&blocks, "first".to_string());
    assert_eq!(held(&store, "first"), None);
    store.reward_miner(&Vec::new(), "miner".to_string());
    assert_eq!(held(&store, "miner"), Some(2));
    assert_eq!(store.total_supply(), 102);
}
