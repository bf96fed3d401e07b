//! Feed processing flows: typed node trees and their wire form, the slot
//! protocol between nodes, the flow runner, caching, content retrieval and
//! WebSub push verification.
pub mod cache;
pub mod feed;
pub mod filter;
pub mod flow;
pub mod retrieve;
pub mod slot;
pub mod text;
pub mod tree;
pub mod websub;
