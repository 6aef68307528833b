//! Broker-side handling: classify each event, fold it into the statistics
//! and decide whether it is forwarded to the clients.
use vstd::prelude::*;

use crate::codec::{decode, event_wire, wire_at};
use crate::error::Error;
use crate::events::{Event, EventView, LLMP_TAG_EVENT_TO_BOTH};
use crate::stats::{record_of, ClientStats, Stats};

verus! {

/// What the broker does with an event it inspected.
#[derive(Debug, Clone, Copy, PartialEq, Eq, Structural)]
pub enum BrokerEventResult {
    /// Re-broadcast the original bytes to every client, the one that sent
    /// them included.
    Forward,
    /// The broker consumed the event.
    Handled,
}

/// What the broker's message hook hands back to the transport.
#[derive(Debug, Clone, Copy, PartialEq, Eq, Structural)]
pub enum LlmpMsgHookResult {
    Handled,
    ForwardToClients,
}

/// Only new testcases travel on to the clients.
pub open spec fn broker_result(e: EventView) -> BrokerEventResult {
    match e {
        EventView::NewTestcase { .. } => BrokerEventResult::Forward,
        _ => BrokerEventResult::Handled,
    }
}

/// The registry after the broker handled `e` from `id`.
pub open spec fn stats_after(m: Map<u32, ClientStats>, id: u32, e: EventView) -> Map<
    u32,
    ClientStats,
> {
    let c = record_of(m, id);
    match e {
        EventView::NewTestcase { corpus_size, time, executions, .. } => m.insert(
            id,
            ClientStats { corpus_size, executions, last_update_time: time, ..c },
        ),
        EventView::UpdateStats { time, executions } => m.insert(
            id,
            ClientStats { executions, last_update_time: time, ..c },
        ),
        EventView::Objective { objective_size } => m.insert(id, ClientStats { objective_size, ..c }),
        EventView::Log { .. } => m,
    }
}

/// The hook result that stands for a broker decision.
pub open spec fn hook_result(r: BrokerEventResult) -> LlmpMsgHookResult {
    match r {
        BrokerEventResult::Forward => LlmpMsgHookResult::ForwardToClients,
        BrokerEventResult::Handled => LlmpMsgHookResult::Handled,
    }
}

/// Handles an event that arrived at the broker from `sender_id`.
pub fn handle_in_broker(stats: &mut Stats, sender_id: u32, event: &Event) -> (r: BrokerEventResult)
    ensures
        r == broker_result(event@),
        final(stats)@ == stats_after(old(stats)@, sender_id, event@),
{
    match event {
        Event::NewTestcase { corpus_size, time, executions, .. } => {
            stats.update_corpus_size(sender_id, *corpus_size);
            stats.update_executions(sender_id, *executions, *time);
            proof {
                assert(final(stats)@ =~= stats_after(old(stats)@, sender_id, event@));
            }
            BrokerEventResult::Forward
        },
        Event::UpdateStats { time, executions } => {
            stats.update_executions(sender_id, *executions, *time);
            BrokerEventResult::Handled
        },
        Event::Objective { objective_size } => {
            stats.update_objective_size(sender_id, *objective_size);
            BrokerEventResult::Handled
        },
        Event::Log { .. } => BrokerEventResult::Handled,
    }
}

/// The broker's hook for one message: a message tagged for both sides is
/// decoded and handled; any other tag is forwarded untouched.
pub fn on_broker_message(stats: &mut Stats, sender_id: u32, tag: u32, msg: &[u8]) -> (r: Result<
    LlmpMsgHookResult,
    Error,
>)
    ensures
        tag != LLMP_TAG_EVENT_TO_BOTH ==> r == Ok::<LlmpMsgHookResult, Error>(
            LlmpMsgHookResult::ForwardToClients,
        ) && final(stats)@ == old(stats)@,
        tag == LLMP_TAG_EVENT_TO_BOTH ==> forall|e: EventView| #[trigger]
            wire_at(msg@, 0, event_wire(e)) ==> r == Ok::<LlmpMsgHookResult, Error>(
                hook_result(broker_result(e)),
            ) && final(stats)@ == stats_after(old(stats)@, sender_id, e),
        r is Err ==> final(stats)@ == old(stats)@ && (r == Err::<LlmpMsgHookResult, Error>(
            Error::MalformedFrame,
        ) || r == Err::<LlmpMsgHookResult, Error>(Error::UnknownVariant)),
{
    if tag == LLMP_TAG_EVENT_TO_BOTH {
        match decode(msg) {
            Ok(event) => match handle_in_broker(stats, sender_id, &event) {
                BrokerEventResult::Forward => Ok(LlmpMsgHookResult::ForwardToClients),
                BrokerEventResult::Handled => Ok(LlmpMsgHookResult::Handled),
            },
            Err(e) => Err(e),
        }
    } else {
        Ok(LlmpMsgHookResult::ForwardToClients)
    }
}

/// The counters that an event reports do not fall below what the broker
/// holds for its sender.
pub open spec fn reports_no_less(c: ClientStats, e: EventView) -> bool {
    match e {
        EventView::NewTestcase { corpus_size, executions, .. } => c.corpus_size <= corpus_size
            && c.executions <= executions,
        EventView::UpdateStats { executions, .. } => c.executions <= executions,
        _ => true,
    }
}

/// While each client reports counters that do not fall (a run without
/// restarts), the executions and the corpus size that the broker holds for
/// every sender never decrease.
pub proof fn lemma_stats_monotone(m: Map<u32, ClientStats>, id: u32, e: EventView, s: u32)
    requires
        reports_no_less(record_of(m, id), e),
    ensures
        record_of(m, s).executions <= record_of(stats_after(m, id, e), s).executions,
        record_of(m, s).corpus_size <= record_of(stats_after(m, id, e), s).corpus_size,
{
}

} // verus!
