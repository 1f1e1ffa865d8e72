pub mod index;
pub mod laws;
pub mod manager;
pub mod search;
pub mod trie;
