//! Builds the RLP blob that the zig-evm benchmark guest reads, together with
//! the post-state sidecar that its results are compared against.

pub mod bench;
pub mod blob;
pub mod block;
pub mod bytes;
pub mod fork;
pub mod header;
pub mod report;
pub mod rlp;
pub mod state;
pub mod transaction;
pub mod trie;
pub mod uint;
