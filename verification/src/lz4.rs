//! LZ4 block compression by the `lz4_flex` crate.

use vstd::prelude::*;

verus! {

/// What `lz4_flex::block::compress` makes of the input.
pub uninterp spec fn lz4_block(input: Seq<u8>) -> Seq<u8>;

/// What `lz4_flex::block::decompress` makes of a block and an output size: the
/// decompressed bytes, or the words of the error.
pub uninterp spec fn lz4_unblock(block: Seq<u8>, size: nat) -> Result<Seq<u8>, Seq<char>>;

/// The most plain bytes that go into or come out of one block.
pub const LZ4_MAX_PLAIN: usize = 0xFFF_FFFF;

/// Whether the block decompresses to `plain` with `size` bytes of output.
pub open spec fn unblocks_to(block: Seq<u8>, size: nat, plain: Seq<u8>) -> bool {
    lz4_unblock(block, size) == Ok::<Seq<u8>, Seq<char>>(plain)
}

/// The outcome of a decompression with its bytes or words as a sequence.
pub open spec fn outcome_view(outcome: Result<Vec<u8>, String>) -> Result<Seq<u8>, Seq<char>> {
    match outcome {
        Ok(bytes) => Ok(bytes@),
        Err(words) => Err(words@),
    }
}

/// `lz4_flex::block::compress`: the block is a function of the input, and
/// decompressing it with the input's length as output size gives the input back.
#[verifier::external_body]
pub(crate) fn lz4_compress(input: &[u8]) -> (block: Vec<u8>)
    requires
        input@.len() <= LZ4_MAX_PLAIN,
    ensures
        block@ == lz4_block(input@),
        unblocks_to(block@, input@.len(), input@),
{
    lz4_flex::block::compress(input)
}

/// `lz4_flex::block::decompress` with `size` bytes of output: the outcome is a
/// function of the block and the size.
#[verifier::external_body]
pub(crate) fn lz4_decompress(block: &[u8], size: usize) -> (outcome: Result<Vec<u8>, String>)
    requires
        block@.len() <= u32::MAX,
        size <= LZ4_MAX_PLAIN,
    ensures
        outcome_view(outcome) == lz4_unblock(block@, size as nat),
{
    lz4_flex::block::decompress(block, size).map_err(|e| e.to_string())
}

} // verus!
