//! Tracks the download of a single piece: which of its blocks are still free
//! to request, which have been requested from a peer, and which have arrived.

use vstd::prelude::*;
use crate::{BlockInfo, BLOCK_LEN, num_blocks};
use vstd::arithmetic::div_mod::{lemma_fundamental_div_mod_converse, lemma_div_is_ordered};
use vstd::arithmetic::mul::lemma_mul_inequality;

verus! {

/// The lifecycle of one block: free to request, requested from a peer, or
/// received. The only transitions are `Free -> Requested -> Received`.
#[derive(Clone, Copy, Debug, PartialEq, Eq, Structural)]
pub enum Block {
    Free,
    Requested,
    Received,
}

/// The number of `Free` entries in a block state sequence.
pub open spec fn count_free(bs: Seq<Block>) -> int
    decreases bs.len(),
{
    if bs.len() == 0 {
        0
    } else {
        (if bs[0] is Free {
            1int
        } else {
            0int
        }) + count_free(bs.drop_first())
    }
}

/// The indices of the first `count` blocks at or after position `i` that are
/// `Free`, in ascending order: exactly the blocks a pick starting at `i` hands
/// out.
pub open spec fn free_positions(bs: Seq<Block>, i: int, count: int) -> Seq<int>
    decreases bs.len() - i,
{
    if i < 0 || i >= bs.len() || count <= 0 {
        Seq::empty()
    } else if bs[i] is Free {
        seq![i] + free_positions(bs, i + 1, count - 1)
    } else {
        free_positions(bs, i + 1, count)
    }
}

/// The length of the block with index `bi` in a piece of `piece_len` bytes:
/// `BLOCK_LEN` for every block but possibly the last, which covers whatever
/// remains of the piece.
pub open spec fn spec_block_len(piece_len: u32, bi: int) -> u32 {
    if piece_len - bi * BLOCK_LEN >= BLOCK_LEN {
        BLOCK_LEN
    } else {
        (piece_len - bi * BLOCK_LEN) as u32
    }
}

/// The `BlockInfo` describing block `bi` of the piece.
pub open spec fn spec_block_info(piece_index: u32, piece_len: u32, bi: int) -> BlockInfo {
    BlockInfo {
        piece_index,
        offset: (bi * BLOCK_LEN) as u32,
        length: spec_block_len(piece_len, bi),
    }
}

/// Holds between two block state sequences when no block has gone back to
/// `Free`: the relation every mutation of a `PieceDownload` preserves.
pub open spec fn never_freed(a: Seq<Block>, b: Seq<Block>) -> bool {
    &&& a.len() == b.len()
    &&& forall|j: int| 0 <= j < a.len() && !(a[j] is Free) ==> !(#[trigger] b[j] is Free)
}

/// A piece download tracks the completion of an ongoing piece download and is
/// used to request the next blocks in the piece.
pub struct PieceDownload {
    /// The piece's index.
    pub index: u32,
    /// The piece's length in bytes.
    pub length: u32,
    /// The state of each block in the piece, in block index order.
    pub blocks: Vec<Block>,
}

proof fn lemma_count_free_push(bs: Seq<Block>, v: Block)
    ensures
        count_free(bs.push(v)) == count_free(bs) + (if v is Free {
            1int
        } else {
            0int
        }),
    decreases bs.len(),
{
    if bs.len() == 0 {
        assert(bs.push(v)[0] == v);
        assert(bs.push(v).drop_first() =~= Seq::<Block>::empty());
        assert(count_free(Seq::<Block>::empty()) == 0);
    } else {
        assert(bs.push(v)[0] == bs[0]);
        assert(bs.push(v).drop_first() =~= bs.drop_first().push(v));
        lemma_count_free_push(bs.drop_first(), v);
    }
}

proof fn lemma_count_free_update(bs: Seq<Block>, i: int, v: Block)
    requires
        0 <= i < bs.len(),
    ensures
        count_free(bs.update(i, v)) == count_free(bs) - (if bs[i] is Free {
            1int
        } else {
            0int
        }) + (if v is Free {
            1int
        } else {
            0int
        }),
    decreases bs.len(),
{
    if i == 0 {
        assert(bs.update(0, v).drop_first() =~= bs.drop_first());
    } else {
        assert(bs.update(i, v).drop_first() =~= bs.drop_first().update(i - 1, v));
        lemma_count_free_update(bs.drop_first(), i - 1, v);
    }
}

/// A pick of `count` blocks hands out `count` blocks or the number of free
/// blocks, whichever is smaller.
pub proof fn lemma_free_positions_len(bs: Seq<Block>, i: int, count: int)
    requires
        0 <= i <= bs.len(),
        0 <= count,
    ensures
        free_positions(bs, i, count).len() == vstd::math::min(count, count_free(bs.skip(i))),
    decreases bs.len() - i,
{
    if i < bs.len() {
        assert(bs.skip(i).drop_first() =~= bs.skip(i + 1));
        assert(bs.skip(i)[0] == bs[i]);
        if bs[i] is Free && count > 0 {
            lemma_free_positions_len(bs, i + 1, count - 1);
        } else {
            lemma_free_positions_len(bs, i + 1, count);
        }
    } else {
        assert(bs.skip(i) =~= Seq::empty());
    }
}

/// Every position a pick hands out lies within the piece, refers to a block
/// that was `Free`, and the positions come in strictly ascending order: one
/// pick never returns the same block twice.
pub proof fn lemma_free_positions_props(bs: Seq<Block>, i: int, count: int)
    ensures
        forall|k: int|
            0 <= k < free_positions(bs, i, count).len() ==> i <= #[trigger] free_positions(
                bs,
                i,
                count,
            )[k] < bs.len() && bs[free_positions(bs, i, count)[k]] is Free,
        forall|k1: int, k2: int|
            0 <= k1 < k2 < free_positions(bs, i, count).len() ==> #[trigger] free_positions(
                bs,
                i,
                count,
            )[k1] < #[trigger] free_positions(bs, i, count)[k2],
    decreases bs.len() - i,
{
    if 0 <= i < bs.len() && count > 0 {
        lemma_free_positions_props(bs, i + 1, count - 1);
        lemma_free_positions_props(bs, i + 1, count);
    }
}

/// A position handed out by some pick belongs to a block that was `Free` then.
pub proof fn lemma_free_positions_elem(bs: Seq<Block>, i: int, count: int, j: int)
    requires
        free_positions(bs, i, count).contains(j),
    ensures
        i <= j < bs.len(),
        bs[j] is Free,
    decreases bs.len() - i,
{
    if 0 <= i < bs.len() && count > 0 {
        if bs[i] is Free {
            if j != i {
                assert(free_positions(bs, i + 1, count - 1).contains(j)) by {
                    let k = choose|k: int|
                        0 <= k < free_positions(bs, i, count).len() && free_positions(
                            bs,
                            i,
                            count,
                        )[k] == j;
                    assert(free_positions(bs, i + 1, count - 1)[k - 1] == j);
                }
                lemma_free_positions_elem(bs, i + 1, count - 1, j);
            }
        } else {
            lemma_free_positions_elem(bs, i + 1, count, j);
        }
    }
}

/// Block offsets stay within the piece: block `bi` starts strictly before the
/// piece's end.
pub proof fn lemma_block_offset_in_piece(piece_len: u32, bi: int)
    requires
        1 <= piece_len,
        0 <= bi < num_blocks(piece_len),
    ensures
        bi * BLOCK_LEN < piece_len,
        bi * BLOCK_LEN + spec_block_len(piece_len, bi) <= piece_len,
{
    let b = BLOCK_LEN as int;
    let q = (piece_len + b - 1) / b;
    let r = (piece_len + b - 1) % b;
    vstd::arithmetic::div_mod::lemma_fundamental_div_mod(piece_len + b - 1, b);
    assert(piece_len + b - 1 == q * b + r);
    lemma_mul_inequality(bi, q - 1, b);
    assert(bi * b <= (q - 1) * b) by (nonlinear_arith)
        requires bi <= q - 1, b > 0;
    assert((q - 1) * b == q * b - b) by (nonlinear_arith);
}

/// The block a valid offset falls in is a valid block index.
pub proof fn lemma_offset_block_in_range(piece_len: u32, offset: u32)
    requires
        offset < piece_len,
    ensures
        0 <= offset as int / BLOCK_LEN as int,
        (offset as int / BLOCK_LEN as int) < num_blocks(piece_len),
{
    let b = BLOCK_LEN as int;
    lemma_div_is_ordered(offset as int, piece_len - 1, b);
    let q = (piece_len - 1) / b;
    let r = (piece_len - 1) % b;
    vstd::arithmetic::div_mod::lemma_fundamental_div_mod(piece_len - 1 as int, b);
    lemma_fundamental_div_mod_converse(piece_len + b - 1, b, q + 1, r);
}

/// The sizes of a piece's blocks when the piece length is an exact multiple
/// of `BLOCK_LEN`: exactly `k` blocks, each of full size.
pub proof fn lemma_block_sizes_exact(piece_len: u32, k: int)
    requires
        1 <= k,
        piece_len == k * BLOCK_LEN,
    ensures
        num_blocks(piece_len) == k,
        forall|bi: int| 0 <= bi < k ==> #[trigger] spec_block_len(piece_len, bi) == BLOCK_LEN,
{
    let b = BLOCK_LEN as int;
    lemma_fundamental_div_mod_converse(piece_len + b - 1, b, k, b - 1);
    assert forall|bi: int| 0 <= bi < k implies #[trigger] spec_block_len(piece_len, bi)
        == BLOCK_LEN by {
        assert(piece_len - bi * b == (k - bi) * b) by (nonlinear_arith)
            requires piece_len == k * b;
        lemma_mul_inequality(1, k - bi, b);
    }
}

/// The sizes of a piece's blocks when the piece length leaves a remainder
/// `rem`: `k` full blocks followed by one block of `rem` bytes.
pub proof fn lemma_block_sizes_ragged(piece_len: u32, k: int, rem: int)
    requires
        0 <= k,
        0 < rem < BLOCK_LEN,
        piece_len == k * BLOCK_LEN + rem,
    ensures
        num_blocks(piece_len) == k + 1,
        forall|bi: int| 0 <= bi < k ==> #[trigger] spec_block_len(piece_len, bi) == BLOCK_LEN,
        spec_block_len(piece_len, k) == rem,
{
    let b = BLOCK_LEN as int;
    lemma_fundamental_div_mod_converse(piece_len + b - 1, b, k + 1, rem - 1);
    assert forall|bi: int| 0 <= bi < k implies #[trigger] spec_block_len(piece_len, bi)
        == BLOCK_LEN by {
        assert(piece_len - bi * b == (k - bi) * b + rem) by (nonlinear_arith)
            requires piece_len == k * b + rem;
        lemma_mul_inequality(1, k - bi, b);
    }
    assert(k * b == piece_len - rem);
}

/// Blocks handed out by one pick are never handed out by a later pick: the
/// first pick leaves them `Requested`, no operation ever frees a block again,
/// and picks only ever hand out `Free` blocks.
pub proof fn lemma_picks_never_repeat(
    bs1: Seq<Block>,
    c1: int,
    mid: Seq<Block>,
    bs2: Seq<Block>,
    c2: int,
)
    requires
        bs1.len() == mid.len(),
        forall|j: int|
            0 <= j < bs1.len() ==> #[trigger] mid[j] == (if free_positions(bs1, 0, c1).contains(j) {
                Block::Requested
            } else {
                bs1[j]
            }),
        never_freed(mid, bs2),
    ensures
        forall|j: int|
            #[trigger] free_positions(bs1, 0, c1).contains(j) ==> !free_positions(
                bs2,
                0,
                c2,
            ).contains(j),
{
    assert forall|j: int|
        #[trigger] free_positions(bs1, 0, c1).contains(j) implies !free_positions(
        bs2,
        0,
        c2,
    ).contains(j) by {
        lemma_free_positions_elem(bs1, 0, c1, j);
        assert(mid[j] == Block::Requested);
        if free_positions(bs2, 0, c2).contains(j) {
            lemma_free_positions_elem(bs2, 0, c2, j);
        }
    }
}

/// The blocks one pick hands out are distinct and lie within the piece:
/// their offsets are distinct multiples of `BLOCK_LEN` below the piece's
/// length, so the `BlockInfo` values of all picks together never repeat an
/// offset and never leave the piece's own block offsets.
pub proof fn lemma_pick_offsets_valid_and_distinct(
    piece_index: u32,
    piece_len: u32,
    bs: Seq<Block>,
    count: int,
)
    requires
        1 <= piece_len,
        bs.len() == num_blocks(piece_len),
    ensures
        forall|k: int|
            0 <= k < free_positions(bs, 0, count).len() ==> 0 <= #[trigger] free_positions(
                bs,
                0,
                count,
            )[k] < num_blocks(piece_len) && spec_block_info(
                piece_index,
                piece_len,
                free_positions(bs, 0, count)[k],
            ).offset == free_positions(bs, 0, count)[k] * BLOCK_LEN && free_positions(
                bs,
                0,
                count,
            )[k] * BLOCK_LEN < piece_len,
        forall|k1: int, k2: int|
            0 <= k1 < k2 < free_positions(bs, 0, count).len() ==> #[trigger] spec_block_info(
                piece_index,
                piece_len,
                free_positions(bs, 0, count)[k1],
            ).offset != #[trigger] spec_block_info(
                piece_index,
                piece_len,
                free_positions(bs, 0, count)[k2],
            ).offset,
{
    let ps = free_positions(bs, 0, count);
    lemma_free_positions_props(bs, 0, count);
    assert forall|k: int| 0 <= k < ps.len() implies 0 <= #[trigger] ps[k] < num_blocks(piece_len)
        && spec_block_info(piece_index, piece_len, ps[k]).offset == ps[k] * BLOCK_LEN && ps[k]
        * BLOCK_LEN < piece_len by {
        lemma_block_offset_in_piece(piece_len, ps[k]);
    }
    assert forall|k1: int, k2: int|
        0 <= k1 < k2 < ps.len() implies #[trigger] spec_block_info(
        piece_index,
        piece_len,
        ps[k1],
    ).offset != #[trigger] spec_block_info(piece_index, piece_len, ps[k2]).offset by {
        lemma_block_offset_in_piece(piece_len, ps[k1]);
        lemma_block_offset_in_piece(piece_len, ps[k2]);
        lemma_mul_inequality(ps[k1] + 1, ps[k2], BLOCK_LEN as int);
        assert((ps[k1] + 1) * BLOCK_LEN == ps[k1] * BLOCK_LEN + BLOCK_LEN) by (nonlinear_arith);
    }
}

/// A piece with no free blocks left yields nothing from any further pick.
pub proof fn lemma_pick_from_drained_is_empty(bs: Seq<Block>, count: int)
    requires
        count_free(bs) == 0,
        0 <= count,
    ensures
        free_positions(bs, 0, count).len() == 0,
{
    assert(bs.skip(0) =~= bs);
    lemma_free_positions_len(bs, 0, count);
}

impl PieceDownload {
    /// The well-formedness of a piece download: a non-empty piece whose block
    /// state sequence covers the piece exactly.
    pub open spec fn inv(&self) -> bool {
        &&& 1 <= self.length
        &&& self.blocks@.len() == num_blocks(self.length)
    }

    /// Creates a new piece download instance for the given piece, with every
    /// block `Free`.
    pub fn new(index: u32, length: u32) -> (r: PieceDownload)
        requires
            1 <= length,
            length + BLOCK_LEN - 1 <= u32::MAX,
        ensures
            r.inv(),
            r.index == index,
            r.length == length,
            r.blocks@.len() == num_blocks(length),
            forall|j: int| 0 <= j < r.blocks@.len() ==> #[trigger] r.blocks@[j] is Free,
            count_free(r.blocks@) == num_blocks(length),
    {
        // all but the last block are a full BLOCK_LEN, but the last block may
        // be shorter, so round up before dividing to get the block count
        let blocks_count = (length + (BLOCK_LEN - 1)) / BLOCK_LEN;
        let mut blocks: Vec<Block> = Vec::new();
        let mut k: u32 = 0;
        while k < blocks_count
            invariant
                k <= blocks_count,
                blocks@.len() == k,
                forall|j: int| 0 <= j < blocks@.len() ==> #[trigger] blocks@[j] is Free,
                count_free(blocks@) == k,
            decreases blocks_count - k,
        {
            proof {
                lemma_count_free_push(blocks@, Block::Free);
            }
            blocks.push(Block::Free);
            k = k + 1;
        }
        PieceDownload { index, length, blocks }
    }

    /// Picks the requested number of blocks or fewer, if fewer are free:
    /// scans the blocks in ascending index order, turns each free one
    /// `Requested` and returns its `BlockInfo`, until `count` blocks are
    /// picked or the piece is exhausted.
    pub fn pick_blocks(&mut self, count: usize) -> (r: Vec<BlockInfo>)
        requires
            old(self).inv(),
        ensures
            final(self).inv(),
            final(self).index == old(self).index,
            final(self).length == old(self).length,
            final(self).blocks@.len() == old(self).blocks@.len(),
            r@.len() == free_positions(old(self).blocks@, 0, count as int).len(),
            r@.len() == vstd::math::min(count as int, count_free(old(self).blocks@)),
            forall|k: int|
                0 <= k < r@.len() ==> #[trigger] r@[k] == spec_block_info(
                    old(self).index,
                    old(self).length,
                    free_positions(old(self).blocks@, 0, count as int)[k],
                ),
            forall|j: int|
                0 <= j < final(self).blocks@.len() ==> #[trigger] final(self).blocks@[j] == (
            if free_positions(old(self).blocks@, 0, count as int).contains(j) {
                    Block::Requested
                } else {
                    old(self).blocks@[j]
                }),
            count_free(final(self).blocks@) == count_free(old(self).blocks@) - r@.len(),
            never_freed(old(self).blocks@, final(self).blocks@),
    {
        let ghost bs0 = self.blocks@;
        let ghost ps = free_positions(bs0, 0, count as int);
        let mut r: Vec<BlockInfo> = Vec::new();
        let mut i: usize = 0;
        while i < self.blocks.len() && r.len() < count
            invariant
                self.inv(),
                self.index == old(self).index,
                self.length == old(self).length,
                self.blocks@.len() == bs0.len(),
                bs0 == old(self).blocks@,
                ps == free_positions(bs0, 0, count as int),
                i <= bs0.len(),
                r@.len() <= count,
                r@.len() <= ps.len(),
                ps.skip(r@.len() as int) == free_positions(bs0, i as int, count - r@.len()),
                forall|k: int| 0 <= k < r@.len() ==> #[trigger] ps[k] < i,
                forall|k: int|
                    0 <= k < r@.len() ==> #[trigger] r@[k] == spec_block_info(
                        old(self).index,
                        old(self).length,
                        ps[k],
                    ),
                forall|j: int|
                    0 <= j < i ==> #[trigger] self.blocks@[j] == (if bs0[j] is Free {
                        Block::Requested
                    } else {
                        bs0[j]
                    }),
                forall|j: int| i <= j < bs0.len() ==> #[trigger] self.blocks@[j] == bs0[j],
                forall|j: int| 0 <= j < i && bs0[j] is Free ==> #[trigger] ps.contains(j),
                count_free(self.blocks@) == count_free(bs0) - r@.len(),
            decreases bs0.len() - i,
        {
            let picked = match self.blocks[i] {
                Block::Free => true,
                _ => false,
            };
            if picked {
                proof {
                    // the pick target list continues with exactly position i
                    assert(free_positions(bs0, i as int, count - r@.len()) == seq![i as int]
                        + free_positions(bs0, i + 1, count - r@.len() - 1));
                    assert(ps.skip(r@.len() as int)[0] == i as int);
                    assert(ps[r@.len() as int] == i as int);
                    assert(ps.skip(r@.len() as int).skip(1) =~= ps.skip(r@.len() as int + 1));
                    assert(ps.skip(r@.len() as int).skip(1) =~= free_positions(
                        bs0,
                        i + 1,
                        count - r@.len() - 1,
                    ));
                    lemma_block_offset_in_piece(self.length, i as int);
                }
                let offset: u32 = (i as u32) * BLOCK_LEN;
                let block_len: u32 = if self.length - offset >= BLOCK_LEN {
                    BLOCK_LEN
                } else {
                    self.length - offset
                };
                r.push(BlockInfo { piece_index: self.index, offset, length: block_len });
                proof {
                    lemma_count_free_update(self.blocks@, i as int, Block::Requested);
                }
                self.blocks.set(i, Block::Requested);
            } else {
                proof {
                    assert(free_positions(bs0, i as int, count - r@.len()) == free_positions(
                        bs0,
                        i + 1,
                        count - r@.len(),
                    ));
                }
            }
            i = i + 1;
        }
        proof {
            lemma_free_positions_len(bs0, 0, count as int);
            assert(bs0.skip(0) =~= bs0);
            if i < bs0.len() {
                // stopped because count was reached
                assert(r@.len() == count);
                assert(ps.len() <= count);
            } else {
                assert(free_positions(bs0, i as int, count - r@.len()) =~= Seq::empty());
            }
            assert(r@.len() == ps.len());
            lemma_free_positions_props(bs0, 0, count as int);
            assert forall|j: int|
                0 <= j < self.blocks@.len() implies #[trigger] self.blocks@[j] == (
            if ps.contains(j) {
                Block::Requested
            } else {
                bs0[j]
            }) by {
                if ps.contains(j) {
                    lemma_free_positions_elem(bs0, 0, count as int, j);
                    let k = choose|k: int| 0 <= k < ps.len() && ps[k] == j;
                    assert(ps[k] < i);
                }
            }
        }
        r
    }

    /// Marks the given block as received so that it is not picked again.
    pub fn received_block(&mut self, block: BlockInfo)
        requires
            old(self).inv(),
            block.piece_index == old(self).index,
            block.offset < old(self).length,
            block.length <= old(self).length,
            old(self).blocks@[block.offset as int / BLOCK_LEN as int] is Requested,
        ensures
            final(self).inv(),
            final(self).index == old(self).index,
            final(self).length == old(self).length,
            final(self).blocks@ == old(self).blocks@.update(
                block.offset as int / BLOCK_LEN as int,
                Block::Received,
            ),
            count_free(final(self).blocks@) == count_free(old(self).blocks@),
            never_freed(old(self).blocks@, final(self).blocks@),
    {
        proof {
            lemma_offset_block_in_range(self.length, block.offset);
            lemma_count_free_update(
                self.blocks@,
                block.offset as int / BLOCK_LEN as int,
                Block::Received,
            );
        }
        let bi = (block.offset / BLOCK_LEN) as usize;
        self.blocks.set(bi, Block::Received);
    }

    /// Returns the number of free (pickable) blocks.
    pub fn free_block_count(&self) -> (r: usize)
        ensures
            r == count_free(self.blocks@),
    {
        let mut c: usize = 0;
        let mut i: usize = 0;
        proof {
            assert(self.blocks@.skip(0) =~= self.blocks@);
        }
        while i < self.blocks.len()
            invariant
                i <= self.blocks@.len(),
                c <= i,
                c + count_free(self.blocks@.skip(i as int)) == count_free(self.blocks@),
            decreases self.blocks@.len() - i,
        {
            proof {
                assert(self.blocks@.skip(i as int).drop_first() =~= self.blocks@.skip(i + 1));
                assert(self.blocks@.skip(i as int)[0] == self.blocks@[i as int]);
            }
            let free = match self.blocks[i] {
                Block::Free => true,
                _ => false,
            };
            if free {
                c = c + 1;
            }
            i = i + 1;
        }
        proof {
            assert(self.blocks@.skip(self.blocks@.len() as int) =~= Seq::empty());
        }
        c
    }
}

} // verus!
