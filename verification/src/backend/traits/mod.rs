pub mod hashable;
