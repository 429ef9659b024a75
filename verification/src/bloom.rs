//! Bloom filters of the `solana-bloom` crate, over 32-byte keys.
#![allow(deprecated)]

use solana_bloom::bloom::Bloom;
use vstd::prelude::*;

verus! {

/// The most bits that a filter is made with.
pub const MAX_BLOOM_BITS: usize = 1024 * 1024;

/// What a filter is made from: its size, and the seeds of its hash functions.
#[derive(Debug)]
pub struct BloomParams {
    pub num_bits: usize,
    pub hash_keys: Vec<u64>,
}

impl BloomParams {
    /// The filter has at least one bit, and not too many.
    pub open spec fn valid(self) -> bool {
        0 < self.num_bits <= MAX_BLOOM_BITS
    }
}

/// A `solana_bloom::bloom::Bloom` over 32-byte keys.
#[verifier::external_body]
#[derive(Debug)]
pub struct KeyBloom {
    inner: Bloom<[u8; 32]>,
}

/// The keys that a filter takes to be in it.
pub uninterp spec fn bloom_hits(bloom: KeyBloom) -> Set<Seq<u8>>;

/// How many bits a filter has, and the seeds of its hash functions.
pub uninterp spec fn bloom_shape(bloom: KeyBloom) -> (nat, Seq<u64>);

/// `Bloom::new`: a filter with the given number of bits, all clear, and the
/// given seeds. Of a filter with seeds nothing is in it.
#[verifier::external_body]
pub(crate) fn bloom_new(params: BloomParams) -> (bloom: KeyBloom)
    requires
        params.valid(),
    ensures
        bloom_shape(bloom) == (params.num_bits as nat, params.hash_keys@),
        params.hash_keys@.len() > 0 ==> bloom_hits(bloom) == Set::<Seq<u8>>::empty(),
{
    KeyBloom { inner: Bloom::new(params.num_bits, params.hash_keys) }
}

/// `Bloom::add`: the key becomes one that the filter takes to be in it, and all
/// others that were stay so; bits and seeds stay. It panics only on a filter without bits, which
/// [`bloom_new`] does not make.
#[verifier::external_body]
pub(crate) fn bloom_add(bloom: &mut KeyBloom, key: &[u8; 32])
    ensures
        bloom_shape(*final(bloom)) == bloom_shape(*old(bloom)),
        bloom_hits(*old(bloom)).insert(key@).subset_of(bloom_hits(*final(bloom))),
{
    bloom.inner.add(key)
}

/// `Bloom::contains`: whether the filter takes the key to be in it. It panics
/// only on a filter without bits, which [`bloom_new`] does not make.
#[verifier::external_body]
pub(crate) fn bloom_contains(bloom: &KeyBloom, key: &[u8; 32]) -> (r: bool)
    ensures
        r == bloom_hits(*bloom).contains(key@),
{
    bloom.inner.contains(key)
}

} // verus!
