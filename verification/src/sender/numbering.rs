//! The numbers of connections over all that happens to the slots.

use crate::sender::dispatch::fanned_out;
use crate::sender::manager::{ConnModel, ManagerModel, MAX_CONNECTION_SLOTS};
use crate::transport::OutboundFrame;
use crate::types::control::SubscriptionModel;
use crate::types::frame::ServerModel;
use vstd::prelude::*;

verus! {

/// What one call does to the slots.
pub enum SlotStep<W> {
    /// Nothing.
    Nothing,
    /// The tenant of the slot is put out.
    PutOut { slot: int },
    /// The tenant of the slot is heard of.
    Heard { slot: int, now_ms: u64 },
    /// The tenant of the slot is heard of and asks for more.
    Resubscribed { slot: int, now_ms: u64, request: SubscriptionModel },
    /// A number is given out for a request without a good token, and a slot is
    /// found for it or not.
    Numbered { now_ms: u64, request: SubscriptionModel, found: Option<int> },
    /// The slot gets a tenant.
    Installed { slot: int, tenant: ConnModel<W> },
    /// A frame is offered to the ring of the slot's tenant.
    Pushed { slot: int, frame: Seq<u8>, accepted: bool },
    /// An update is fanned out.
    Dispatched {
        update: ServerModel,
        now_ms: u64,
        sent: Option<OutboundFrame>,
        woken: Seq<usize>,
    },
    /// The tenants that were put out are handed over.
    TakenAway,
}

/// The step leads from the one state to the other.
pub open spec fn moves<W>(
    before: ManagerModel<W>,
    step: SlotStep<W>,
    after: ManagerModel<W>,
) -> bool {
    match step {
        SlotStep::Nothing => after == before,
        SlotStep::PutOut { slot } => after == before.retire(slot),
        SlotStep::Heard { slot, now_ms } => after == before.heard(slot, now_ms),
        SlotStep::Resubscribed { slot, now_ms, request } => after == before.resubscribed(
            slot,
            now_ms,
            request,
        ),
        SlotStep::Numbered { now_ms, request, found } => {
            let numbered = before.before_provision(request, now_ms);
            after == (match found {
                Some(slot) => numbered.sweep(slot, now_ms),
                None => numbered,
            })
        },
        SlotStep::Installed { slot, tenant } => after == before.installed(slot, tenant),
        SlotStep::Pushed { slot, frame, accepted } => after == before.pushed_to(
            slot,
            frame,
            accepted,
        ),
        SlotStep::Dispatched { update, now_ms, sent, woken } => fanned_out(
            before,
            after,
            update,
            now_ms,
            sent,
            woken,
            MAX_CONNECTION_SLOTS as int,
        ),
        SlotStep::TakenAway => after == (ManagerModel { retired: Seq::empty(), ..before }),
    }
}

/// The steps lead from each state to the next.
pub open spec fn is_history<W>(states: Seq<ManagerModel<W>>, steps: Seq<SlotStep<W>>) -> bool {
    &&& states.len() == steps.len() + 1
    &&& forall|k: int|
        0 <= k < steps.len() ==> moves(states[k], #[trigger] steps[k], states[k + 1])
}

/// The numbers do not wrap around.
pub open spec fn numbers_last<W>(states: Seq<ManagerModel<W>>, steps: Seq<SlotStep<W>>) -> bool {
    forall|k: int|
        0 <= k < steps.len() && (#[trigger] steps[k]) is Numbered ==> states[k].next_connection_id
            < u64::MAX
}

/// How many numbers the steps give out.
pub open spec fn given_out<W>(steps: Seq<SlotStep<W>>) -> nat
    decreases steps.len(),
{
    if steps.len() == 0 {
        0
    } else if steps.last() is Numbered {
        given_out(steps.drop_last()) + 1
    } else {
        given_out(steps.drop_last())
    }
}

/// The next number is the first one and as many more as were given out.
proof fn lemma_next_number<W>(states: Seq<ManagerModel<W>>, steps: Seq<SlotStep<W>>, k: int)
    requires
        is_history(states, steps),
        numbers_last(states, steps),
        0 <= k <= steps.len(),
    ensures
        states[k].next_connection_id == states[0].next_connection_id + given_out(steps.take(k)),
    decreases k,
{
    if k > 0 {
        lemma_next_number(states, steps, k - 1);
        assert(steps.take(k).drop_last() =~= steps.take(k - 1));
        assert(steps.take(k).last() == steps[k - 1]);
        assert(moves(states[k - 1], steps[k - 1], states[k - 1 + 1]));
    }
}

/// More steps give out no fewer numbers.
proof fn lemma_given_out_grows<W>(steps: Seq<SlotStep<W>>, j: int, k: int)
    requires
        0 <= j <= k <= steps.len(),
    ensures
        given_out(steps.take(j)) <= given_out(steps.take(k)),
    decreases k - j,
{
    if j < k {
        lemma_given_out_grows(steps, j, k - 1);
        assert(steps.take(k).drop_last() =~= steps.take(k - 1));
    }
}

/// Whatever happens to the slots, a connection gets a number above all that were
/// given out before it, as long as the numbers do not wrap around: the first number
/// is the one that the manager began with, and each further one is one more.
pub proof fn law_new_number_exceeds_all_before<W>(
    states: Seq<ManagerModel<W>>,
    steps: Seq<SlotStep<W>>,
    k: int,
)
    requires
        is_history(states, steps),
        numbers_last(states, steps),
        0 <= k < steps.len(),
        steps[k] is Numbered,
    ensures
        states[k].next_connection_id == states[0].next_connection_id + given_out(steps.take(k)),
        forall|j: int|
            0 <= j < k && (#[trigger] steps[j]) is Numbered ==> states[j].next_connection_id
                < states[k].next_connection_id,
{
    lemma_next_number(states, steps, k);
    assert forall|j: int|
        0 <= j < k && (#[trigger] steps[j]) is Numbered implies states[j].next_connection_id
        < states[k].next_connection_id by {
        lemma_next_number(states, steps, j);
        lemma_given_out_grows(steps, j + 1, k);
        assert(steps.take(j + 1).drop_last() =~= steps.take(j));
        assert(steps.take(j + 1).last() == steps[j]);
    }
}

} // verus!
