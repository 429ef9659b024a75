//! Control frames: subscriptions, pings and the sender's replies.

use crate::error::{ErrorModel, QlasterError};
use crate::le::{le_u64, lemma_u64_read_back};
use crate::pubkey::{lemma_pubkey_len, Pubkey};
use crate::schema::{
    arrays_view, flat_keys, keys_at, read_shm_ready, read_subscription, read_token, shm_ready_bytes,
    shm_ready_fault, shm_ready_fields, shm_ready_view, subscription_bytes, subscription_fault,
    subscription_fields, subscription_view, token_bytes, token_fault, token_fields, write_shm_ready,
    write_subscription, write_token, ShmReadyFields, SubscriptionFields, TokenFields,
    WINCODE_LIST_BYTES, WINCODE_LIST_KEYS,
};
use crate::types::header::{
    ensure_wire, wire_error, READY_SHM_TAG, READY_TAG, REQUEST_PING_TAG, REQUEST_SUBSCRIBE_TAG,
    UNSET_SLOT_INDEX, WIRE_VERSION,
};
use vstd::prelude::*;
use vstd::string::*;
use vstd::utf8::{encode_utf8, encode_utf8_decode_utf8, encode_utf8_valid_utf8};

verus! {

/// A slot of the sender and which of its successive tenants is meant.
#[derive(Clone, Copy, Debug, PartialEq, Eq, Structural)]
pub struct SlotToken {
    pub slot_index: u8,
    pub generation: u64,
}

impl SlotToken {
    /// The token of a slot and a generation.
    pub fn new(slot_index: u8, generation: u64) -> (r: SlotToken)
        ensures
            r == (SlotToken { slot_index, generation }),
    {
        SlotToken { slot_index, generation }
    }
}

/// The words of the outside decoder behind those of the caller.
fn decode_error(context: &str, words: &str) -> (e: QlasterError)
    ensures
        e@ == ErrorModel::DecodeError(context@ + words@),
{
    QlasterError::DecodeError(String::from_str(context).concat(words))
}

/// The token in the fields of a frame that must carry one, or what is wrong.
pub open spec fn accept_token(
    version: u8,
    tag: u8,
    index: u8,
    generation: u64,
    expected_tag: u8,
    missing: Seq<char>,
) -> Result<SlotToken, ErrorModel> {
    if wire_error(version, tag, expected_tag) is Some {
        Err(wire_error(version, tag, expected_tag)->0)
    } else if index == UNSET_SLOT_INDEX {
        Err(ErrorModel::MalformedPayload(missing))
    } else {
        Ok(SlotToken { slot_index: index, generation })
    }
}

/// The token in the fields of a frame that must carry one.
fn checked_token(
    version: u8,
    tag: u8,
    index: u8,
    generation: u64,
    expected_tag: u8,
    missing: &'static str,
) -> (r: Result<SlotToken, QlasterError>)
    ensures
        match r {
            Ok(token) => accept_token(version, tag, index, generation, expected_tag, missing@)
                == Ok::<_, ErrorModel>(token),
            Err(e) => accept_token(version, tag, index, generation, expected_tag, missing@)
                == Err::<SlotToken, _>(e@),
        },
{
    match ensure_wire(version, tag, expected_tag) {
        Ok(_) => {},
        Err(e) => {
            return Err(e);
        },
    }
    if index == UNSET_SLOT_INDEX {
        return Err(QlasterError::MalformedPayload(missing));
    }
    Ok(SlotToken::new(index, generation))
}

/// A keepalive for a slot.
#[derive(Debug, PartialEq, Eq)]
pub struct PingRequest {
    pub slot_token: SlotToken,
}

impl Clone for PingRequest {
    fn clone(&self) -> (r: PingRequest)
        ensures
            r == *self,
    {
        PingRequest { slot_token: self.slot_token }
    }
}

/// The frame of a ping.
pub open spec fn ping_frame(token: SlotToken) -> Seq<u8> {
    token_bytes(WIRE_VERSION, REQUEST_PING_TAG, token.slot_index, token.generation)
}

/// The token of a ping frame, or what is wrong with it.
pub open spec fn decode_ping(b: Seq<u8>) -> Result<SlotToken, ErrorModel> {
    match token_fields(b) {
        None => Err(ErrorModel::DecodeError("ping request: "@ + token_fault(b))),
        Some(f) => accept_token(
            f.0,
            f.1,
            f.2,
            f.3,
            REQUEST_PING_TAG,
            "ping request missing slot token"@,
        ),
    }
}

impl PingRequest {
    /// The ping for a slot.
    pub fn new(slot_token: SlotToken) -> (r: PingRequest)
        ensures
            r.slot_token == slot_token,
    {
        PingRequest { slot_token }
    }

    /// The frame of the ping.
    pub fn encode(&self) -> (frame: Vec<u8>)
        ensures
            frame@ == ping_frame(self.slot_token),
            self.slot_token.slot_index != UNSET_SLOT_INDEX ==> decode_ping(frame@) == Ok::<
                _,
                ErrorModel,
            >(self.slot_token),
    {
        proof {
            if self.slot_token.slot_index != UNSET_SLOT_INDEX {
                law_ping_read_back(self.slot_token);
            }
        }
        write_token(
            WIRE_VERSION,
            REQUEST_PING_TAG,
            self.slot_token.slot_index,
            self.slot_token.generation,
        )
    }

    /// The ping with the given fields, once they are read.
    pub fn from_fields(fields: TokenFields) -> (r: Result<PingRequest, QlasterError>)
        ensures
            ({
                let expected = accept_token(
                    fields.0,
                    fields.1,
                    fields.2,
                    fields.3,
                    REQUEST_PING_TAG,
                    "ping request missing slot token"@,
                );
                match r {
                    Ok(ping) => expected == Ok::<_, ErrorModel>(ping.slot_token),
                    Err(e) => expected == Err::<SlotToken, _>(e@),
                }
            }),
    {
        match checked_token(
            fields.0,
            fields.1,
            fields.2,
            fields.3,
            REQUEST_PING_TAG,
            "ping request missing slot token",
        ) {
            Ok(slot_token) => Ok(PingRequest { slot_token }),
            Err(e) => Err(e),
        }
    }

    /// The ping of a frame.
    pub fn decode(bytes: &[u8]) -> (r: Result<PingRequest, QlasterError>)
        ensures
            match r {
                Ok(ping) => decode_ping(bytes@) == Ok::<_, ErrorModel>(ping.slot_token),
                Err(e) => decode_ping(bytes@) == Err::<SlotToken, _>(e@),
            },
    {
        match read_token(bytes) {
            Ok(fields) => PingRequest::from_fields(fields),
            Err(words) => Err(decode_error("ping request: ", words.as_str())),
        }
    }
}

/// The sender's reply to a subscription of a slot that there is already.
#[derive(Debug, PartialEq, Eq)]
pub struct ConnectionReady {
    pub slot_token: SlotToken,
}

impl Clone for ConnectionReady {
    fn clone(&self) -> (r: ConnectionReady)
        ensures
            r == *self,
    {
        ConnectionReady { slot_token: self.slot_token }
    }
}

/// The frame of the reply.
pub open spec fn ready_frame(token: SlotToken) -> Seq<u8> {
    token_bytes(WIRE_VERSION, READY_TAG, token.slot_index, token.generation)
}

/// The token of a reply's frame, or what is wrong with it.
pub open spec fn decode_ready(b: Seq<u8>) -> Result<SlotToken, ErrorModel> {
    match token_fields(b) {
        None => Err(ErrorModel::DecodeError("connection ready: "@ + token_fault(b))),
        Some(f) => accept_token(
            f.0,
            f.1,
            f.2,
            f.3,
            READY_TAG,
            "connection ready missing slot token"@,
        ),
    }
}

impl ConnectionReady {
    /// The reply with a slot's token.
    pub fn new(slot_token: SlotToken) -> (r: ConnectionReady)
        ensures
            r.slot_token == slot_token,
    {
        ConnectionReady { slot_token }
    }

    /// The frame of the reply.
    pub fn encode(&self) -> (frame: Vec<u8>)
        ensures
            frame@ == ready_frame(self.slot_token),
            self.slot_token.slot_index != UNSET_SLOT_INDEX ==> decode_ready(frame@) == Ok::<
                _,
                ErrorModel,
            >(self.slot_token),
    {
        proof {
            if self.slot_token.slot_index != UNSET_SLOT_INDEX {
                law_ready_read_back(self.slot_token);
            }
        }
        write_token(
            WIRE_VERSION,
            READY_TAG,
            self.slot_token.slot_index,
            self.slot_token.generation,
        )
    }

    /// The reply with the given fields, once they are read.
    pub fn from_fields(fields: TokenFields) -> (r: Result<ConnectionReady, QlasterError>)
        ensures
            ({
                let expected = accept_token(
                    fields.0,
                    fields.1,
                    fields.2,
                    fields.3,
                    READY_TAG,
                    "connection ready missing slot token"@,
                );
                match r {
                    Ok(ready) => expected == Ok::<_, ErrorModel>(ready.slot_token),
                    Err(e) => expected == Err::<SlotToken, _>(e@),
                }
            }),
    {
        match checked_token(
            fields.0,
            fields.1,
            fields.2,
            fields.3,
            READY_TAG,
            "connection ready missing slot token",
        ) {
            Ok(slot_token) => Ok(ConnectionReady { slot_token }),
            Err(e) => Err(e),
        }
    }

    /// The reply of a frame.
    pub fn decode(bytes: &[u8]) -> (r: Result<ConnectionReady, QlasterError>)
        ensures
            match r {
                Ok(ready) => decode_ready(bytes@) == Ok::<_, ErrorModel>(ready.slot_token),
                Err(e) => decode_ready(bytes@) == Err::<SlotToken, _>(e@),
            },
    {
        match read_token(bytes) {
            Ok(fields) => ConnectionReady::from_fields(fields),
            Err(words) => Err(decode_error("connection ready: ", words.as_str())),
        }
    }
}

/// The fields of a token frame are read back from its bytes.
proof fn lemma_token_read_back(version: u8, tag: u8, index: u8, generation: u64)
    ensures
        token_fields(token_bytes(version, tag, index, generation)) == Some(
            (version, tag, index, generation),
        ),
{
    let b = token_bytes(version, tag, index, generation);
    assert(b.subrange(3, 11) =~= le_u64(generation));
    lemma_u64_read_back(b, 3, generation);
}

/// A ping is decoded to the token that it was encoded from, unless that has the
/// index that stands for no slot.
pub proof fn law_ping_read_back(token: SlotToken)
    requires
        token.slot_index != UNSET_SLOT_INDEX,
    ensures
        decode_ping(ping_frame(token)) == Ok::<_, ErrorModel>(token),
{
    lemma_token_read_back(WIRE_VERSION, REQUEST_PING_TAG, token.slot_index, token.generation);
}

/// A reply is decoded to the token that it was encoded from, unless that has
/// the index that stands for no slot.
pub proof fn law_ready_read_back(token: SlotToken)
    requires
        token.slot_index != UNSET_SLOT_INDEX,
    ensures
        decode_ready(ready_frame(token)) == Ok::<_, ErrorModel>(token),
{
    lemma_token_read_back(WIRE_VERSION, READY_TAG, token.slot_index, token.generation);
}

/// The sender's reply to a first subscription: the slot and the file of its
/// ring. The wakeup descriptor comes beside the frame, out of band.
#[derive(Debug, PartialEq, Eq)]
pub struct ConnectionReadyShm {
    pub slot_token: SlotToken,
    pub ring_path: String,
    pub ring_capacity: u64,
}

/// A [`ConnectionReadyShm`] with its path as characters.
pub struct ReadyShmModel {
    pub slot_token: SlotToken,
    pub ring_path: Seq<char>,
    pub ring_capacity: u64,
}

impl ReadyShmModel {
    /// A slot, a path and a capacity are named.
    pub open spec fn complete(self) -> bool {
        &&& self.slot_token.slot_index != UNSET_SLOT_INDEX
        &&& self.ring_path.len() > 0
        &&& self.ring_capacity > 0
    }
}

impl View for ConnectionReadyShm {
    type V = ReadyShmModel;

    open spec fn view(&self) -> ReadyShmModel {
        ReadyShmModel {
            slot_token: self.slot_token,
            ring_path: self.ring_path@,
            ring_capacity: self.ring_capacity,
        }
    }
}

impl Clone for ConnectionReadyShm {
    fn clone(&self) -> (r: ConnectionReadyShm)
        ensures
            r@ == self@,
    {
        ConnectionReadyShm {
            slot_token: self.slot_token,
            ring_path: self.ring_path.clone(),
            ring_capacity: self.ring_capacity,
        }
    }
}

/// The frame of the reply.
pub open spec fn ready_shm_frame(m: ReadyShmModel) -> Seq<u8> {
    shm_ready_bytes(
        WIRE_VERSION,
        READY_SHM_TAG,
        m.slot_token.slot_index,
        m.slot_token.generation,
        m.ring_path,
        m.ring_capacity,
    )
}

/// The reply with the given fields, or what is wrong with them. The first of
/// several faults is the one that is reported.
pub open spec fn accept_ready_shm(f: (u8, u8, u8, u64, Seq<char>, u64)) -> Result<
    ReadyShmModel,
    ErrorModel,
> {
    match accept_token(
        f.0,
        f.1,
        f.2,
        f.3,
        READY_SHM_TAG,
        "connection ready shm missing slot token"@,
    ) {
        Err(e) => Err(e),
        Ok(slot_token) => if f.4.len() == 0 {
            Err(ErrorModel::MalformedPayload("connection ready shm missing ring path"@))
        } else if f.5 == 0 {
            Err(ErrorModel::MalformedPayload("connection ready shm has zero ring capacity"@))
        } else {
            Ok(ReadyShmModel { slot_token, ring_path: f.4, ring_capacity: f.5 })
        },
    }
}

/// The reply of a frame, or what is wrong with it.
pub open spec fn decode_ready_shm(b: Seq<u8>) -> Result<ReadyShmModel, ErrorModel> {
    match shm_ready_fields(b) {
        None => Err(ErrorModel::DecodeError("connection ready shm: "@ + shm_ready_fault(b))),
        Some(f) => accept_ready_shm(f),
    }
}

impl ConnectionReadyShm {
    /// The reply for a slot and its ring.
    pub fn new(slot_token: SlotToken, ring_path: String, ring_capacity: u64) -> (r:
        ConnectionReadyShm)
        ensures
            r@ == (ReadyShmModel { slot_token, ring_path: ring_path@, ring_capacity }),
    {
        ConnectionReadyShm { slot_token, ring_path, ring_capacity }
    }

    /// The frame of the reply.
    pub fn encode(&self) -> (frame: Vec<u8>)
        requires
            encode_utf8(self.ring_path@).len() <= WINCODE_LIST_BYTES,
        ensures
            frame@ == ready_shm_frame(self@),
            self@.complete() ==> decode_ready_shm(frame@) == Ok::<_, ErrorModel>(self@),
    {
        proof {
            if self@.complete() {
                law_ready_shm_read_back(self@);
            }
        }
        write_shm_ready(
            &(
                WIRE_VERSION,
                READY_SHM_TAG,
                self.slot_token.slot_index,
                self.slot_token.generation,
                self.ring_path.clone(),
                self.ring_capacity,
            ),
        )
    }

    /// The reply with the given fields, once they are read.
    pub fn from_fields(fields: ShmReadyFields) -> (r: Result<ConnectionReadyShm, QlasterError>)
        ensures
            match r {
                Ok(ready) => accept_ready_shm(shm_ready_view(fields)) == Ok::<_, ErrorModel>(
                    ready@,
                ),
                Err(e) => accept_ready_shm(shm_ready_view(fields)) == Err::<ReadyShmModel, _>(e@),
            },
    {
        let (version, tag, index, generation, ring_path, ring_capacity) = fields;
        let slot_token = match checked_token(
            version,
            tag,
            index,
            generation,
            READY_SHM_TAG,
            "connection ready shm missing slot token",
        ) {
            Ok(slot_token) => slot_token,
            Err(e) => {
                return Err(e);
            },
        };
        if ring_path.as_str().is_empty() {
            return Err(QlasterError::MalformedPayload("connection ready shm missing ring path"));
        }
        if ring_capacity == 0 {
            return Err(
                QlasterError::MalformedPayload("connection ready shm has zero ring capacity"),
            );
        }
        Ok(ConnectionReadyShm { slot_token, ring_path, ring_capacity })
    }

    /// The reply of a frame.
    pub fn decode(bytes: &[u8]) -> (r: Result<ConnectionReadyShm, QlasterError>)
        ensures
            match r {
                Ok(ready) => decode_ready_shm(bytes@) == Ok::<_, ErrorModel>(ready@),
                Err(e) => decode_ready_shm(bytes@) == Err::<ReadyShmModel, _>(e@),
            },
    {
        match read_shm_ready(bytes) {
            Ok(fields) => ConnectionReadyShm::from_fields(fields),
            Err(words) => Err(decode_error("connection ready shm: ", words.as_str())),
        }
    }
}

/// A reply is decoded to what it was encoded from, if it names a slot, a path
/// and a capacity.
pub proof fn law_ready_shm_read_back(m: ReadyShmModel)
    requires
        m.complete(),
        encode_utf8(m.ring_path).len() <= WINCODE_LIST_BYTES,
    ensures
        decode_ready_shm(ready_shm_frame(m)) == Ok::<_, ErrorModel>(m),
{
    let b = ready_shm_frame(m);
    let path = encode_utf8(m.ring_path);
    let n = path.len() as int;
    assert(b.len() == 27 + n);
    assert(b.subrange(3, 11) =~= le_u64(m.slot_token.generation));
    assert(b.subrange(11, 19) =~= le_u64(n as u64));
    assert(b.subrange(19, 19 + n) =~= path);
    assert(b.subrange(19 + n, 27 + n) =~= le_u64(m.ring_capacity));
    lemma_u64_read_back(b, 3, m.slot_token.generation);
    lemma_u64_read_back(b, 11, n as u64);
    lemma_u64_read_back(b, 19 + n, m.ring_capacity);
    encode_utf8_valid_utf8(m.ring_path);
    encode_utf8_decode_utf8(m.ring_path);
}

/// A client's wish: which accounts, by key or by owner, and whether
/// transactions. With a token it adds to the filter of that slot.
#[derive(Debug, PartialEq, Eq)]
pub struct SubscriptionRequest {
    pub slot_token: Option<SlotToken>,
    pub account_pubkeys: Vec<Pubkey>,
    pub account_owners: Vec<Pubkey>,
    pub include_transactions: bool,
}

/// The keys as byte sequences.
pub open spec fn keys_view(keys: Seq<Pubkey>) -> Seq<Seq<u8>> {
    Seq::new(keys.len(), |k: int| keys[k]@)
}

/// A [`SubscriptionRequest`] with its keys as byte sequences.
pub struct SubscriptionModel {
    pub slot_token: Option<SlotToken>,
    pub account_pubkeys: Seq<Seq<u8>>,
    pub account_owners: Seq<Seq<u8>>,
    pub include_transactions: bool,
}

impl SubscriptionModel {
    /// The lists are not too long for a frame.
    pub open spec fn fits(self) -> bool {
        &&& self.account_pubkeys.len() <= WINCODE_LIST_KEYS
        &&& self.account_owners.len() <= WINCODE_LIST_KEYS
    }

    /// The token, if there is one, names a slot.
    pub open spec fn token_set(self) -> bool {
        self.slot_token matches Some(token) ==> token.slot_index != UNSET_SLOT_INDEX
    }

    /// All keys have the size of a key.
    pub open spec fn valid(self) -> bool {
        &&& forall|k: int|
            0 <= k < self.account_pubkeys.len() ==> (#[trigger] self.account_pubkeys[k]).len() == 32
        &&& forall|k: int|
            0 <= k < self.account_owners.len() ==> (#[trigger] self.account_owners[k]).len() == 32
    }
}

impl View for SubscriptionRequest {
    type V = SubscriptionModel;

    open spec fn view(&self) -> SubscriptionModel {
        SubscriptionModel {
            slot_token: self.slot_token,
            account_pubkeys: keys_view(self.account_pubkeys@),
            account_owners: keys_view(self.account_owners@),
            include_transactions: self.include_transactions,
        }
    }
}

/// A copy of the keys.
fn copy_keys(keys: &Vec<Pubkey>) -> (r: Vec<Pubkey>)
    ensures
        r@ == keys@,
{
    let mut r: Vec<Pubkey> = Vec::with_capacity(keys.len());
    let mut k: usize = 0;
    while k < keys.len()
        invariant
            k <= keys@.len(),
            r@ == keys@.take(k as int),
        decreases keys@.len() - k,
    {
        r.push(keys[k]);
        k += 1;
        assert(r@ =~= keys@.take(k as int));
    }
    assert(r@ =~= keys@);
    r
}

impl Clone for SubscriptionRequest {
    fn clone(&self) -> (r: SubscriptionRequest)
        ensures
            r@ == self@,
    {
        SubscriptionRequest {
            slot_token: self.slot_token,
            account_pubkeys: copy_keys(&self.account_pubkeys),
            account_owners: copy_keys(&self.account_owners),
            include_transactions: self.include_transactions,
        }
    }
}

/// The frame of the request. Without a token it carries the index that stands
/// for no slot, and generation 0.
pub open spec fn subscription_frame(m: SubscriptionModel) -> Seq<u8> {
    let (index, generation) = match m.slot_token {
        Some(token) => (token.slot_index, token.generation),
        None => (UNSET_SLOT_INDEX, 0u64),
    };
    subscription_bytes(
        WIRE_VERSION,
        REQUEST_SUBSCRIBE_TAG,
        index,
        generation,
        m.account_pubkeys,
        m.account_owners,
        m.include_transactions,
    )
}

/// The request with the given fields, or what is wrong with them.
pub open spec fn accept_subscription(
    f: (u8, u8, u8, u64, Seq<Seq<u8>>, Seq<Seq<u8>>, bool),
) -> Result<SubscriptionModel, ErrorModel> {
    if wire_error(f.0, f.1, REQUEST_SUBSCRIBE_TAG) is Some {
        Err(wire_error(f.0, f.1, REQUEST_SUBSCRIBE_TAG)->0)
    } else {
        Ok(
            SubscriptionModel {
                slot_token: if f.2 == UNSET_SLOT_INDEX {
                    None
                } else {
                    Some(SlotToken { slot_index: f.2, generation: f.3 })
                },
                account_pubkeys: f.4,
                account_owners: f.5,
                include_transactions: f.6,
            },
        )
    }
}

/// The request of a frame, or what is wrong with it.
pub open spec fn decode_subscription(b: Seq<u8>) -> Result<SubscriptionModel, ErrorModel> {
    match subscription_fields(b) {
        None => Err(ErrorModel::DecodeError("subscription request: "@ + subscription_fault(b))),
        Some(f) => accept_subscription(f),
    }
}

/// The byte arrays of the keys.
fn keys_to_arrays(keys: &Vec<Pubkey>) -> (arrays: Vec<[u8; 32]>)
    ensures
        arrays_view(arrays@) == keys_view(keys@),
        arrays@.len() == keys@.len(),
{
    let mut arrays: Vec<[u8; 32]> = Vec::with_capacity(keys.len());
    let mut k: usize = 0;
    while k < keys.len()
        invariant
            k <= keys@.len(),
            arrays@.len() == k,
            forall|j: int| 0 <= j < k ==> (#[trigger] arrays@[j])@ == keys@[j]@,
        decreases keys@.len() - k,
    {
        arrays.push(keys[k].to_bytes());
        k += 1;
    }
    assert(arrays_view(arrays@) =~= keys_view(keys@));
    arrays
}

/// The keys of the byte arrays.
fn arrays_to_keys(arrays: &Vec<[u8; 32]>) -> (keys: Vec<Pubkey>)
    ensures
        keys_view(keys@) == arrays_view(arrays@),
{
    let mut keys: Vec<Pubkey> = Vec::with_capacity(arrays.len());
    let mut k: usize = 0;
    while k < arrays.len()
        invariant
            k <= arrays@.len(),
            keys@.len() == k,
            forall|j: int| 0 <= j < k ==> (#[trigger] keys@[j])@ == arrays@[j]@,
        decreases arrays@.len() - k,
    {
        keys.push(Pubkey::new_from_array(arrays[k]));
        k += 1;
    }
    assert(keys_view(keys@) =~= arrays_view(arrays@));
    keys
}

impl SubscriptionRequest {
    /// The request for accounts by key and by owner, without a token.
    pub fn new(account_pubkeys: Vec<Pubkey>, account_owners: Vec<Pubkey>) -> (r:
        SubscriptionRequest)
        ensures
            r.slot_token is None,
            r.account_pubkeys@ == account_pubkeys@,
            r.account_owners@ == account_owners@,
            !r.include_transactions,
    {
        SubscriptionRequest {
            slot_token: None,
            account_pubkeys,
            account_owners,
            include_transactions: false,
        }
    }

    /// The request for transactions alone, without a token.
    pub fn transactions() -> (r: SubscriptionRequest)
        ensures
            r.slot_token is None,
            r.account_pubkeys@.len() == 0,
            r.account_owners@.len() == 0,
            r.include_transactions,
    {
        SubscriptionRequest {
            slot_token: None,
            account_pubkeys: Vec::new(),
            account_owners: Vec::new(),
            include_transactions: true,
        }
    }

    /// The same request with this token, or without one.
    pub fn with_slot_token(self, slot_token: Option<SlotToken>) -> (r: SubscriptionRequest)
        ensures
            r.slot_token == slot_token,
            r.account_pubkeys@ == self.account_pubkeys@,
            r.account_owners@ == self.account_owners@,
            r.include_transactions == self.include_transactions,
    {
        SubscriptionRequest { slot_token, ..self }
    }

    /// The same request, for transactions too.
    pub fn with_transactions(self) -> (r: SubscriptionRequest)
        ensures
            r.slot_token == self.slot_token,
            r.account_pubkeys@ == self.account_pubkeys@,
            r.account_owners@ == self.account_owners@,
            r.include_transactions,
    {
        SubscriptionRequest { include_transactions: true, ..self }
    }

    /// The frame of the request.
    pub fn encode(&self) -> (frame: Vec<u8>)
        requires
            self@.fits(),
        ensures
            frame@ == subscription_frame(self@),
            self@.token_set() ==> decode_subscription(frame@) == Ok::<_, ErrorModel>(self@),
    {
        proof {
            lemma_request_valid(*self);
            if self@.token_set() {
                law_subscription_read_back(self@);
            }
        }
        let (slot_index, slot_generation) = match self.slot_token {
            Some(token) => (token.slot_index, token.generation),
            None => (UNSET_SLOT_INDEX, 0),
        };
        write_subscription(
            &(
                WIRE_VERSION,
                REQUEST_SUBSCRIBE_TAG,
                slot_index,
                slot_generation,
                keys_to_arrays(&self.account_pubkeys),
                keys_to_arrays(&self.account_owners),
                self.include_transactions,
            ),
        )
    }

    /// The request with the given fields, once they are read.
    pub fn from_fields(fields: SubscriptionFields) -> (r: Result<SubscriptionRequest, QlasterError>)
        ensures
            match r {
                Ok(request) => accept_subscription(subscription_view(fields)) == Ok::<
                    _,
                    ErrorModel,
                >(request@),
                Err(e) => accept_subscription(subscription_view(fields)) == Err::<
                    SubscriptionModel,
                    _,
                >(e@),
            },
    {
        let (version, tag, index, generation, pubkeys, owners, include_transactions) = fields;
        match ensure_wire(version, tag, REQUEST_SUBSCRIBE_TAG) {
            Ok(_) => {},
            Err(e) => {
                return Err(e);
            },
        }
        let slot_token = if index == UNSET_SLOT_INDEX {
            None
        } else {
            Some(SlotToken::new(index, generation))
        };
        Ok(
            SubscriptionRequest {
                slot_token,
                account_pubkeys: arrays_to_keys(&pubkeys),
                account_owners: arrays_to_keys(&owners),
                include_transactions,
            },
        )
    }

    /// The request of a frame.
    pub fn decode(bytes: &[u8]) -> (r: Result<SubscriptionRequest, QlasterError>)
        ensures
            match r {
                Ok(request) => decode_subscription(bytes@) == Ok::<_, ErrorModel>(request@),
                Err(e) => decode_subscription(bytes@) == Err::<SubscriptionModel, _>(e@),
            },
    {
        match read_subscription(bytes) {
            Ok(fields) => SubscriptionRequest::from_fields(fields),
            Err(words) => Err(decode_error("subscription request: ", words.as_str())),
        }
    }
}

/// Keys written one behind the other are read back one by one.
proof fn lemma_keys_read_back(b: Seq<u8>, at: int, keys: Seq<Seq<u8>>)
    requires
        forall|k: int| 0 <= k < keys.len() ==> (#[trigger] keys[k]).len() == 32,
        0 <= at,
        at + 32 * keys.len() <= b.len(),
        b.subrange(at, at + 32 * keys.len()) == flat_keys(keys),
    ensures
        keys_at(b, at, keys.len() as int) == keys,
    decreases keys.len(),
{
    if keys.len() > 0 {
        let init = keys.drop_last();
        let n = keys.len() as int;
        lemma_flat_len(init);
        lemma_flat_len(keys);
        let whole = b.subrange(at, at + 32 * n);
        assert(whole =~= flat_keys(init) + keys.last());
        assert(b.subrange(at, at + 32 * (n - 1)) =~= whole.subrange(0, 32 * (n - 1)));
        assert(whole.subrange(0, 32 * (n - 1)) =~= flat_keys(init));
        assert forall|k: int| 0 <= k < init.len() implies (#[trigger] init[k]).len() == 32 by {
            assert(init[k] == keys[k]);
        }
        lemma_keys_read_back(b, at, init);
        assert(b.subrange(at + 32 * (n - 1), at + 32 * (n - 1) + 32) =~= whole.subrange(
            32 * (n - 1),
            32 * n,
        ));
        assert(whole.subrange(32 * (n - 1), 32 * n) =~= keys.last());
        assert forall|k: int| 0 <= k < n implies keys_at(b, at, n)[k] == keys[k] by {
            if k < n - 1 {
                assert(keys_at(b, at, n - 1)[k] == init[k]);
            }
        }
    }
    assert(keys_at(b, at, keys.len() as int) =~= keys);
}

/// The keys take 32 bytes each.
proof fn lemma_flat_len(keys: Seq<Seq<u8>>)
    requires
        forall|k: int| 0 <= k < keys.len() ==> (#[trigger] keys[k]).len() == 32,
    ensures
        flat_keys(keys).len() == 32 * keys.len(),
    decreases keys.len(),
{
    if keys.len() > 0 {
        assert forall|k: int| 0 <= k < keys.len() - 1 implies (#[trigger] keys.drop_last()[k]).len()
            == 32 by {
            assert(keys.drop_last()[k] == keys[k]);
        }
        lemma_flat_len(keys.drop_last());
    }
}

/// A request is decoded to what it was encoded from, unless its token has the
/// index that stands for no slot.
pub proof fn law_subscription_read_back(m: SubscriptionModel)
    requires
        m.fits(),
        m.valid(),
        m.token_set(),
    ensures
        decode_subscription(subscription_frame(m)) == Ok::<_, ErrorModel>(m),
{
    let b = subscription_frame(m);
    let (index, generation) = match m.slot_token {
        Some(token) => (token.slot_index, token.generation),
        None => (UNSET_SLOT_INDEX, 0u64),
    };
    let n = m.account_pubkeys.len() as int;
    let k = m.account_owners.len() as int;
    let p = 19 + 32 * n;
    let q = p + 8 + 32 * k;
    lemma_flat_len(m.account_pubkeys);
    lemma_flat_len(m.account_owners);
    assert(b.len() == q + 1);
    assert(b.subrange(3, 11) =~= le_u64(generation));
    assert(b.subrange(11, 19) =~= le_u64(n as u64));
    assert(b.subrange(19, p) =~= flat_keys(m.account_pubkeys));
    assert(b.subrange(p, p + 8) =~= le_u64(k as u64));
    assert(b.subrange(p + 8, q) =~= flat_keys(m.account_owners));
    lemma_u64_read_back(b, 3, generation);
    lemma_u64_read_back(b, 11, n as u64);
    lemma_u64_read_back(b, p, k as u64);
    lemma_keys_read_back(b, 19, m.account_pubkeys);
    lemma_keys_read_back(b, p + 8, m.account_owners);
}

/// The keys of every request have the size of a key.
proof fn lemma_request_valid(request: SubscriptionRequest)
    ensures
        request@.valid(),
{
    assert forall|k: int| 0 <= k < request@.account_pubkeys.len() implies (
    #[trigger] request@.account_pubkeys[k]).len() == 32 by {
        lemma_pubkey_len(request.account_pubkeys@[k]);
    }
    assert forall|k: int| 0 <= k < request@.account_owners.len() implies (
    #[trigger] request@.account_owners[k]).len() == 32 by {
        lemma_pubkey_len(request.account_owners@[k]);
    }
}

} // verus!
