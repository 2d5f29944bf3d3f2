use cratetorrent::download::{Block, PieceDownload};
use cratetorrent::{block_count, BLOCK_LEN};
use std::collections::HashSet;

// Tests that repeatedly requesting as many blocks as are in the piece
// returns all blocks, none of them previously picked.
#[test]
fn test_pick_all_blocks_one_by_one() {
    let index = 0;
    let piece_len = 6 * BLOCK_LEN;

    let mut download = PieceDownload::new(index, piece_len);

    // save picked blocks
    let block_count = block_count(piece_len);
    let mut picked = HashSet::with_capacity(block_count);

    // pick all blocks one by one
    for _ in 0..block_count {
        let blocks = download.pick_blocks(1);
        assert_eq!(blocks.len(), 1);
        let block = *blocks.first().unwrap();
        // assert that this block hasn't been picked before
        assert!(!picked.contains(&block));
        // mark block as picked
        picked.insert(block);
    }

    // assert that we picked all blocks
    assert_eq!(picked.len(), block_count);
    for block in download.blocks.iter() {
        assert!(matches!(block, Block::Requested));
    }
}

// Tests that requesting as many blocks as are in the piece in one go
// returns all blocks.
#[test]
fn test_pick_all_blocks() {
    let piece_index = 0;
    let piece_len = 6 * BLOCK_LEN;

    let mut download = PieceDownload::new(piece_index, piece_len);

    // pick all blocks
    let block_count = block_count(piece_len);
    let blocks = download.pick_blocks(block_count);
    assert_eq!(blocks.len(), block_count);

    // assert that we picked all blocks
    for block in download.blocks.iter() {
        assert!(matches!(block, Block::Requested));
    }
}

// Tests that repeatedly requesting as many blocks as are in the piece
// returns all blocks, none of them previously picked.
#[test]
fn test_receive_all_blocks() {
    let piece_index = 0;
    let piece_len = 6 * BLOCK_LEN;

    let mut download = PieceDownload::new(piece_index, piece_len);

    let block_count = block_count(piece_len);
    let blocks = download.pick_blocks(block_count);
    assert_eq!(blocks.len(), block_count);

    // mark all blocks as requested
    for block in blocks.into_iter() {
        download.received_block(block);
    }

    let blocks = download.pick_blocks(block_count);
    assert!(blocks.is_empty());
}

// Tests that requesting as many blocks as are in the piece in one go
// returns only blocks not already requested or received.
#[test]
fn test_pick_free_blocks() {
    let piece_index = 0;
    let piece_len = 6 * BLOCK_LEN;

    let mut download = PieceDownload::new(piece_index, piece_len);

    // pick 4 blocks
    let picked_block_indices = [0, 1, 2, 3];
    let blocks = download.pick_blocks(picked_block_indices.len());
    assert_eq!(blocks.len(), picked_block_indices.len());

    // mark 3 of them as received
    let received_block_count = 3;
    for block in blocks.iter().take(received_block_count) {
        download.received_block(*block);
    }

    let block_count = block_count(piece_len);

    assert_eq!(
        download.free_block_count(),
        block_count - picked_block_indices.len()
    );

    // pick all remaining free blocks
    let blocks = download.pick_blocks(block_count);
    assert_eq!(blocks.len(), block_count - picked_block_indices.len());
}

// Six successive single picks return the six offsets in order; a seventh
// returns nothing.
#[test]
fn test_pick_order_one_by_one() {
    let mut download = PieceDownload::new(0, 6 * BLOCK_LEN);
    for i in 0..6u32 {
        let blocks = download.pick_blocks(1);
        assert_eq!(blocks.len(), 1);
        assert_eq!(blocks[0].offset, i * BLOCK_LEN);
        assert_eq!(blocks[0].piece_index, 0);
        assert_eq!(blocks[0].length, BLOCK_LEN);
    }
    assert!(download.pick_blocks(1).is_empty());
}

// One pick of six returns all six offsets in ascending order.
#[test]
fn test_pick_all_offsets_in_order() {
    let mut download = PieceDownload::new(0, 6 * BLOCK_LEN);
    let blocks = download.pick_blocks(6);
    let offsets: Vec<u32> = blocks.iter().map(|b| b.offset).collect();
    assert_eq!(
        offsets,
        vec![
            0,
            BLOCK_LEN,
            2 * BLOCK_LEN,
            3 * BLOCK_LEN,
            4 * BLOCK_LEN,
            5 * BLOCK_LEN
        ]
    );
}

// After receiving all picked blocks the free count is zero and nothing more
// can be picked.
#[test]
fn test_receive_all_then_free_count_zero() {
    let mut download = PieceDownload::new(0, 6 * BLOCK_LEN);
    let blocks = download.pick_blocks(6);
    for block in blocks.into_iter() {
        download.received_block(block);
    }
    assert!(download.pick_blocks(6).is_empty());
    assert_eq!(download.free_block_count(), 0);
}

// The free count starts at the block count and drops by exactly the number
// of blocks each pick returns; receiving a block does not change it.
#[test]
fn test_free_block_count_accounting() {
    let piece_len = 4 * BLOCK_LEN + 1000;
    let mut download = PieceDownload::new(7, piece_len);
    assert_eq!(download.free_block_count(), 5);
    let picked = download.pick_blocks(2);
    assert_eq!(picked.len(), 2);
    assert_eq!(download.free_block_count(), 3);
    download.received_block(picked[0]);
    assert_eq!(download.free_block_count(), 3);
    let picked = download.pick_blocks(100);
    assert_eq!(picked.len(), 3);
    assert_eq!(download.free_block_count(), 0);
}

// A piece of an exact multiple of the block size splits into full blocks; a
// remainder adds one short block at the end.
#[test]
fn test_block_lengths() {
    assert_eq!(block_count(3 * BLOCK_LEN), 3);
    let mut exact = PieceDownload::new(1, 3 * BLOCK_LEN);
    let blocks = exact.pick_blocks(3);
    assert!(blocks.iter().all(|b| b.length == BLOCK_LEN));

    assert_eq!(block_count(3 * BLOCK_LEN + 123), 4);
    let mut ragged = PieceDownload::new(1, 3 * BLOCK_LEN + 123);
    let blocks = ragged.pick_blocks(4);
    assert_eq!(blocks.len(), 4);
    assert!(blocks[..3].iter().all(|b| b.length == BLOCK_LEN));
    assert_eq!(blocks[3].length, 123);
    assert_eq!(blocks[3].offset, 3 * BLOCK_LEN);

    // a one-byte piece is a single one-byte block
    assert_eq!(block_count(1), 1);
    let mut tiny = PieceDownload::new(0, 1);
    let blocks = tiny.pick_blocks(1);
    assert_eq!(blocks.len(), 1);
    assert_eq!(blocks[0].length, 1);
}

// A pick of zero blocks returns nothing and changes nothing.
#[test]
fn test_pick_zero() {
    let mut download = PieceDownload::new(0, 2 * BLOCK_LEN);
    assert!(download.pick_blocks(0).is_empty());
    assert_eq!(download.free_block_count(), 2);
    for block in download.blocks.iter() {
        assert!(matches!(block, Block::Free));
    }
}
