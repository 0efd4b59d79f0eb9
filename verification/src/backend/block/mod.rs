pub mod block;
pub mod blockchain;
