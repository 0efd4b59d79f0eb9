pub mod block;
pub mod clock;
pub mod digest;
pub mod enums;
pub mod functions;
pub mod laws;
pub mod traits;
pub mod transaction;

pub use enums::BlockValidationError;
pub use functions::{
    _i64_bytes, check_difficulty, difficulty_bytes_as_u128, get_genesis_hasher, get_hash,
    hash_array, u128_bytes, u32_bytes, u64_bytes,
};
pub use traits::hashable::Hashable;
pub use transaction::transaction::Transaction;
pub use transaction::transactions::Transactions;
pub use block::block::Block;
pub use transaction::valuestore::ValueStore;
pub use block::blockchain::BlockChain;
