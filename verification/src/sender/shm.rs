//! The sender's side of the control socket.

use crate::bloom::BloomParams;
use crate::error::{text_with_number, ErrorModel, QlasterError};
use crate::schema::WINCODE_LIST_BYTES;
use crate::sender::filter::{FilterModel, SubscriptionFilter};
use crate::sender::manager::{ConnectionManager, ManagerModel, ShmSlotPlan};
use crate::shm::ring::{is_pow2, is_power_of_two};
use crate::text::{decimal, put_decimal};
use crate::types::control::{
    ready_frame, ready_shm_frame, ConnectionReady, ConnectionReadyShm, ReadyShmModel, SlotToken,
    SubscriptionRequest,
};
use crate::types::frame::{decode_client, decode_client_frame, ClientFrame, ClientModel};
use std::path::PathBuf;
use std::time::Instant;
use vstd::prelude::*;
use vstd::string::*;
use vstd::utf8::encode_utf8;

verus! {

/// `std::path::PathBuf`, carried through as it came.
#[verifier::external_type_specification]
#[verifier::external_body]
pub struct ExPathBuf(std::path::PathBuf);

/// `<PathBuf as Clone>::clone`: the same path.
pub assume_specification[ <PathBuf as Clone>::clone ](path: &PathBuf) -> (r: PathBuf)
    ensures
        r == *path,
;

/// How many bytes a ring holds, unless the configuration says otherwise.
pub const DEFAULT_SHM_RING_CAPACITY: usize = 64 * 1024 * 1024;

/// A subscription request and when it came, for those who want to know what
/// subscribers ask for.
pub type SubscriptionRequestForward = (SubscriptionRequest, Instant);

/// How a sender is set up.
#[derive(Debug)]
pub struct SenderConfig {
    pub shm: ShmTransportConfig,
}

/// How a sender's transport is set up.
#[derive(Debug)]
pub struct ShmTransportConfig {
    /// The control socket. A file that is there already is removed.
    pub uds_path: PathBuf,
    /// The directory of the ring files. It is created if it is missing.
    pub shm_dir: PathBuf,
    /// How many bytes each ring holds, a power of two.
    pub ring_capacity_bytes: usize,
}

impl Clone for SenderConfig {
    fn clone(&self) -> (r: SenderConfig)
        ensures
            r == *self,
    {
        SenderConfig { shm: self.shm.clone() }
    }
}

impl Clone for ShmTransportConfig {
    fn clone(&self) -> (r: ShmTransportConfig)
        ensures
            r == *self,
    {
        ShmTransportConfig {
            uds_path: self.uds_path.clone(),
            shm_dir: self.shm_dir.clone(),
            ring_capacity_bytes: self.ring_capacity_bytes,
        }
    }
}

/// The name of the directory of a process's ring files, unless the
/// configuration says otherwise.
pub fn default_shm_dir_name(pid: u32) -> (name: String)
    ensures
        name@ == "qlaster-"@ + decimal(pid as nat),
{
    let mut name = String::from_str("qlaster-");
    put_decimal(&mut name, pid as u64);
    name
}

impl ShmTransportConfig {
    /// The configuration with these paths and rings of the usual size.
    pub fn defaults(uds_path: PathBuf, shm_dir: PathBuf) -> (r: ShmTransportConfig)
        ensures
            r.uds_path == uds_path,
            r.shm_dir == shm_dir,
            r.ring_capacity_bytes == DEFAULT_SHM_RING_CAPACITY,
    {
        ShmTransportConfig { uds_path, shm_dir, ring_capacity_bytes: DEFAULT_SHM_RING_CAPACITY }
    }

    /// Whether rings of the configured size can be made.
    pub fn check(&self) -> (r: Result<(), QlasterError>)
        ensures
            match r {
                Ok(_) => is_pow2(self.ring_capacity_bytes as nat),
                Err(e) => {
                    &&& !is_pow2(self.ring_capacity_bytes as nat)
                    &&& e@ == ErrorModel::ConfigError(
                        "ring_capacity_bytes "@ + decimal(self.ring_capacity_bytes as nat)
                            + " must be a power of two"@,
                    )
                },
            },
    {
        if !is_power_of_two(self.ring_capacity_bytes) {
            return Err(
                QlasterError::ConfigError(
                    text_with_number(
                        "ring_capacity_bytes ",
                        self.ring_capacity_bytes,
                        " must be a power of two",
                    ),
                ),
            );
        }
        Ok(())
    }
}

/// What the sender does about a frame of a client.
pub enum ClientAction {
    /// A ring is to be made for this free slot; the answer then is the
    /// handshake, with the ring's wakeup descriptor attached.
    Provision {
        request: SubscriptionRequest,
        slot_index: usize,
        connection_id: u64,
        filter: SubscriptionFilter,
    },
    /// The slot is there, and this is the answer.
    Reply { request: SubscriptionRequest, frame: Vec<u8> },
    /// The tenant of a slot was heard of.
    Pinged,
    /// A ping came for a slot with another tenant, or with none.
    UnknownPing(SlotToken),
    /// The connection ends with this error.
    Fail(QlasterError),
}

/// Whether the action is the one for this client frame.
pub open spec fn answers<W>(
    frame: Seq<u8>,
    now_ms: u64,
    before: ManagerModel<W>,
    after: ManagerModel<W>,
    action: ClientAction,
) -> bool {
    match decode_client(frame) {
        Err(fault) => {
            &&& action matches ClientAction::Fail(e) && e@ == fault
            &&& after == before
        },
        Ok(ClientModel::Ping(token)) => if before.holds(token, now_ms) {
            action is Pinged && after == before.heard(token.slot_index as int, now_ms)
        } else {
            action == ClientAction::UnknownPing(token) && after == before.after_lookup(
                token,
                now_ms,
            )
        },
        Ok(ClientModel::Subscription(m)) => {
            let good = m.slot_token matches Some(token) && before.holds(token, now_ms);
            let numbered = before.before_provision(m, now_ms);
            match action {
                ClientAction::Reply { request, frame: reply } => {
                    &&& good
                    &&& request@ == m
                    &&& reply@ == ready_frame(m.slot_token->0)
                    &&& after == before.resubscribed(m.slot_token->0.slot_index as int, now_ms, m)
                },
                ClientAction::Provision { request, slot_index, connection_id, filter } => {
                    &&& !good
                    &&& request@ == m
                    &&& numbered.first_takable(slot_index as int, now_ms)
                    &&& connection_id == before.next_connection_id
                    &&& filter.wf()
                    &&& filter@ == FilterModel::of_request(m)
                    &&& after == numbered.sweep(slot_index as int, now_ms)
                    &&& after.slots[slot_index as int] is None
                },
                ClientAction::Fail(e) => {
                    &&& !good
                    &&& numbered.exhausted(now_ms)
                    &&& e@ == ErrorModel::ConfigError("connection slots exhausted (max 10)"@)
                    &&& after == numbered
                },
                _ => false,
            }
        },
    }
}

impl<W> ConnectionManager<W> {
    /// Decides what to do about a frame of a client, and does what concerns
    /// the slots. A frame that cannot be read ends the connection.
    pub fn on_client_frame<F: FnOnce(usize) -> BloomParams>(
        &mut self,
        frame: &[u8],
        now_ms: u64,
        make_bloom: F,
    ) -> (action: ClientAction)
        requires
            old(self).wf(),
            forall|n: usize| n > 0 ==> call_requires(make_bloom, (n,)),
            forall|n: usize, p: BloomParams| #[trigger]
                call_ensures(make_bloom, (n,), p) ==> p.valid(),
        ensures
            final(self).wf(),
            answers(frame@, now_ms, old(self)@, final(self)@, action),
    {
        match decode_client_frame(frame) {
            Err(e) => ClientAction::Fail(e),
            Ok(ClientFrame::Ping(ping)) => if self.touch_ping_at(&ping, now_ms) {
                ClientAction::Pinged
            } else {
                ClientAction::UnknownPing(ping.slot_token)
            },
            Ok(ClientFrame::Subscription(request)) => {
                match self.plan_subscription(&request, now_ms, make_bloom) {
                    Ok(ShmSlotPlan::Existing(token)) => ClientAction::Reply {
                        request,
                        frame: ConnectionReady::new(token).encode(),
                    },
                    Ok(ShmSlotPlan::Provision { slot_index, connection_id, filter }) => {
                        ClientAction::Provision { request, slot_index, connection_id, filter }
                    },
                    Err(e) => ClientAction::Fail(e),
                }
            },
        }
    }
}

/// The answer to a first subscription, once the ring is made.
pub fn handshake_frame(slot_token: SlotToken, ring_path: String, ring_capacity: u64) -> (frame: Vec<
    u8,
>)
    requires
        encode_utf8(ring_path@).len() <= WINCODE_LIST_BYTES,
    ensures
        frame@ == ready_shm_frame(
            ReadyShmModel { slot_token, ring_path: ring_path@, ring_capacity },
        ),
{
    ConnectionReadyShm::new(slot_token, ring_path, ring_capacity).encode()
}

} // verus!
