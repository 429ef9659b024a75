//! Field tuples in the binary form of the `wincode` crate: fields in order,
//! integers little-endian, a length as a `u64` before keys and text.

use crate::le::{le_u64, le_u64_at};
use vstd::prelude::*;
use vstd::utf8::{decode_utf8, encode_utf8, valid_utf8};

verus! {

/// The most bytes that `wincode` writes or reads for one list or text.
pub const WINCODE_LIST_BYTES: usize = 4 * 1024 * 1024;

/// The most keys that `wincode` writes or reads in one list.
pub const WINCODE_LIST_KEYS: usize = 128 * 1024;

/// Version, tag, slot index and generation.
pub type TokenFields = (u8, u8, u8, u64);

/// Version, tag, slot index, generation, ring path and ring capacity.
pub type ShmReadyFields = (u8, u8, u8, u64, String, u64);

/// Version, tag, slot index, generation, account keys, owner keys and whether
/// transactions are asked for.
pub type SubscriptionFields = (u8, u8, u8, u64, Vec<[u8; 32]>, Vec<[u8; 32]>, bool);

/// The bytes of the fields.
pub open spec fn token_bytes(version: u8, tag: u8, index: u8, generation: u64) -> Seq<u8> {
    seq![version, tag, index] + le_u64(generation)
}

/// The fields that the bytes begin with, if there are enough bytes.
pub open spec fn token_fields(b: Seq<u8>) -> Option<TokenFields> {
    if b.len() < 11 {
        None
    } else {
        Some((b[0], b[1], b[2], le_u64_at(b, 3)))
    }
}

/// The words of `wincode`'s error on bytes that do not begin with the fields.
pub uninterp spec fn token_fault(b: Seq<u8>) -> Seq<char>;

/// `wincode::serialize` of the fields, which always succeeds.
#[verifier::external_body]
pub(crate) fn write_token(version: u8, tag: u8, index: u8, generation: u64) -> (out: Vec<u8>)
    ensures
        out@ == token_bytes(version, tag, index, generation),
{
    wincode::serialize(&(version, tag, index, generation)).expect("fixed-size fields")
}

/// `wincode::deserialize` of the fields: it fails only for want of bytes, and
/// bytes behind the fields are left alone.
#[verifier::external_body]
pub(crate) fn read_token(bytes: &[u8]) -> (r: Result<TokenFields, String>)
    ensures
        r is Ok == token_fields(bytes@) is Some,
        r matches Ok(fields) ==> token_fields(bytes@) == Some(fields),
        r matches Err(words) ==> words@ == token_fault(bytes@),
{
    wincode::deserialize::<TokenFields>(bytes).map_err(|e| e.to_string())
}

/// The bytes of the fields.
pub open spec fn shm_ready_bytes(
    version: u8,
    tag: u8,
    index: u8,
    generation: u64,
    path: Seq<char>,
    capacity: u64,
) -> Seq<u8> {
    seq![version, tag, index] + le_u64(generation) + le_u64(encode_utf8(path).len() as u64)
        + encode_utf8(path) + le_u64(capacity)
}

/// The fields that the bytes begin with, the path as characters, if the bytes
/// are enough, and the path is not too long and in UTF-8.
pub open spec fn shm_ready_fields(b: Seq<u8>) -> Option<(u8, u8, u8, u64, Seq<char>, u64)> {
    let n = le_u64_at(b, 11) as int;
    if b.len() < 19 || n > WINCODE_LIST_BYTES || b.len() < 27 + n || !valid_utf8(
        b.subrange(19, 19 + n),
    ) {
        None
    } else {
        Some(
            (
                b[0],
                b[1],
                b[2],
                le_u64_at(b, 3),
                decode_utf8(b.subrange(19, 19 + n)),
                le_u64_at(b, 19 + n),
            ),
        )
    }
}

/// The words of `wincode`'s error on bytes that do not begin with the fields.
pub uninterp spec fn shm_ready_fault(b: Seq<u8>) -> Seq<char>;

/// The fields with the path as characters.
pub open spec fn shm_ready_view(fields: ShmReadyFields) -> (u8, u8, u8, u64, Seq<char>, u64) {
    (fields.0, fields.1, fields.2, fields.3, fields.4@, fields.5)
}

/// `wincode::serialize` of the fields, which succeeds unless the path is longer
/// than [`WINCODE_LIST_BYTES`].
#[verifier::external_body]
pub(crate) fn write_shm_ready(fields: &ShmReadyFields) -> (out: Vec<u8>)
    requires
        encode_utf8(fields.4@).len() <= WINCODE_LIST_BYTES,
    ensures
        out@ == shm_ready_bytes(
            fields.0,
            fields.1,
            fields.2,
            fields.3,
            fields.4@,
            fields.5,
        ),
{
    wincode::serialize(fields).expect("path within the limit")
}

/// `wincode::deserialize` of the fields: it fails for want of bytes, on a path
/// longer than [`WINCODE_LIST_BYTES`] and on one that is not in UTF-8. Bytes
/// behind the fields are left alone.
#[verifier::external_body]
pub(crate) fn read_shm_ready(bytes: &[u8]) -> (r: Result<ShmReadyFields, String>)
    ensures
        r is Ok == shm_ready_fields(bytes@) is Some,
        r matches Ok(fields) ==> shm_ready_fields(bytes@) == Some(shm_ready_view(fields)),
        r matches Err(words) ==> words@ == shm_ready_fault(bytes@),
{
    wincode::deserialize::<ShmReadyFields>(bytes).map_err(|e| e.to_string())
}

/// The keys one behind the other.
pub open spec fn flat_keys(keys: Seq<Seq<u8>>) -> Seq<u8>
    decreases keys.len(),
{
    if keys.len() == 0 {
        Seq::empty()
    } else {
        flat_keys(keys.drop_last()) + keys.last()
    }
}

/// The `n` keys of 32 bytes from `at` on.
pub open spec fn keys_at(b: Seq<u8>, at: int, n: int) -> Seq<Seq<u8>> {
    Seq::new(n as nat, |k: int| b.subrange(at + 32 * k, at + 32 * k + 32))
}

/// The byte arrays as sequences.
pub open spec fn arrays_view(arrays: Seq<[u8; 32]>) -> Seq<Seq<u8>> {
    Seq::new(arrays.len(), |k: int| arrays[k]@)
}

/// The bytes of the fields.
pub open spec fn subscription_bytes(
    version: u8,
    tag: u8,
    index: u8,
    generation: u64,
    pubkeys: Seq<Seq<u8>>,
    owners: Seq<Seq<u8>>,
    include_transactions: bool,
) -> Seq<u8> {
    seq![version, tag, index] + le_u64(generation) + le_u64(pubkeys.len() as u64) + flat_keys(
        pubkeys,
    ) + le_u64(owners.len() as u64) + flat_keys(owners) + seq![
        if include_transactions { 1u8 } else { 0u8 },
    ]
}

/// The fields that the bytes begin with, the keys as sequences, if the bytes
/// are enough, the lists are not too long, and the last byte is 0 or 1.
pub open spec fn subscription_fields(b: Seq<u8>) -> Option<
    (u8, u8, u8, u64, Seq<Seq<u8>>, Seq<Seq<u8>>, bool),
> {
    let n = le_u64_at(b, 11) as int;
    let p = 19 + 32 * n;
    let m = le_u64_at(b, p) as int;
    let q = p + 8 + 32 * m;
    if b.len() < 19 || n > WINCODE_LIST_KEYS || b.len() < p + 8 || m > WINCODE_LIST_KEYS || b.len()
        < q + 1 || b[q] > 1 {
        None
    } else {
        Some(
            (
                b[0],
                b[1],
                b[2],
                le_u64_at(b, 3),
                keys_at(b, 19, n),
                keys_at(b, p + 8, m),
                b[q] == 1,
            ),
        )
    }
}

/// The words of `wincode`'s error on bytes that do not begin with the fields.
pub uninterp spec fn subscription_fault(b: Seq<u8>) -> Seq<char>;

/// The fields with the keys as sequences.
pub open spec fn subscription_view(fields: SubscriptionFields) -> (
    u8,
    u8,
    u8,
    u64,
    Seq<Seq<u8>>,
    Seq<Seq<u8>>,
    bool,
) {
    (
        fields.0,
        fields.1,
        fields.2,
        fields.3,
        arrays_view(fields.4@),
        arrays_view(fields.5@),
        fields.6,
    )
}

/// `wincode::serialize` of the fields, which succeeds unless a list has more
/// than [`WINCODE_LIST_KEYS`] keys.
#[verifier::external_body]
pub(crate) fn write_subscription(fields: &SubscriptionFields) -> (out: Vec<u8>)
    requires
        fields.4@.len() <= WINCODE_LIST_KEYS,
        fields.5@.len() <= WINCODE_LIST_KEYS,
    ensures
        out@ == subscription_bytes(
            fields.0,
            fields.1,
            fields.2,
            fields.3,
            arrays_view(fields.4@),
            arrays_view(fields.5@),
            fields.6,
        ),
{
    wincode::serialize(fields).expect("lists within the limit")
}

/// `wincode::deserialize` of the fields: it fails for want of bytes, on a list
/// of more than [`WINCODE_LIST_KEYS`] keys, and on a last byte other than 0
/// and 1. Bytes behind the fields are left alone.
#[verifier::external_body]
pub(crate) fn read_subscription(bytes: &[u8]) -> (r: Result<SubscriptionFields, String>)
    ensures
        r is Ok == subscription_fields(bytes@) is Some,
        r matches Ok(fields) ==> subscription_fields(bytes@) == Some(subscription_view(fields)),
        r matches Err(words) ==> words@ == subscription_fault(bytes@),
{
    wincode::deserialize::<SubscriptionFields>(bytes).map_err(|e| e.to_string())
}

} // verus!
