//! Core of a BitTorrent client: the per-piece block download state machine
//! and the pure logic of tracker announces (HTTP query construction, Bencode
//! response decoding, and the UDP tracker wire frames of BEP-15).
//!
//! Network I/O itself (sockets, HTTP transport) lives outside this crate; the
//! functions here compute requests from plain values and decode replies handed
//! in as bytes.

use vstd::prelude::*;

pub mod announce;
pub mod ascii;
pub mod bencode;
pub mod decimal;
pub mod download;
pub mod peers;
pub mod response;
pub mod udp;

verus! {

/// The standard BitTorrent block size: all blocks of a piece are this long,
/// except possibly the piece's last block.
pub const BLOCK_LEN: u32 = 16384;

/// Identifies a contiguous byte range within a piece.
#[derive(Clone, Copy, Debug, PartialEq, Eq, Hash, Structural)]
pub struct BlockInfo {
    /// The index of the piece the block belongs to.
    pub piece_index: u32,
    /// The byte offset of the block within the piece.
    pub offset: u32,
    /// The length of the block in bytes.
    pub length: u32,
}

/// The number of blocks a piece of `piece_len` bytes splits into:
/// `piece_len / BLOCK_LEN`, rounded up.
pub open spec fn num_blocks(piece_len: u32) -> int {
    (piece_len + BLOCK_LEN - 1) / (BLOCK_LEN as int)
}

impl BlockInfo {
    pub fn new(piece_index: u32, offset: u32, length: u32) -> (r: BlockInfo)
        ensures
            r == (BlockInfo { piece_index, offset, length }),
    {
        BlockInfo { piece_index, offset, length }
    }

    /// The index of this block within its piece.
    pub fn index(&self) -> (r: usize)
        ensures
            r == self.offset as int / BLOCK_LEN as int,
    {
        (self.offset / BLOCK_LEN) as usize
    }
}

/// Returns the number of blocks in a piece of the given length.
pub fn block_count(piece_len: u32) -> (r: usize)
    requires
        piece_len + BLOCK_LEN - 1 <= u32::MAX,
    ensures
        r == num_blocks(piece_len),
{
    ((piece_len + (BLOCK_LEN - 1)) / BLOCK_LEN) as usize
}

} // verus!
