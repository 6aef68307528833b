//! Restarting a crashed worker: the state snapshot that a worker leaves on
//! its single page, and the supervisor's decisions around each generation.
use vstd::prelude::*;

use crate::codec::{bytes_wire, push_bytes, push_varint, take_bytes, take_u64, varint, wire_at};
use crate::error::Error;
use crate::events::{Event, LLMP_TAG_RESTART};
use crate::llmp::{LlmpClientDescription, LlmpMsg, LlmpMsgView, LlmpSender};
use crate::manager::{IfInteresting, LlmpConnection, LlmpEventManager};

verus! {

/// A snapshot on the wire: the serialised state, then the description of
/// the worker's client endpoint.
pub open spec fn snapshot_wire(state: Seq<u8>, d: LlmpClientDescription) -> Seq<u8> {
    bytes_wire(state) + varint(d.client_id as u64) + varint(d.sender_map_id) + varint(
        d.receiver_map_id,
    )
}

/// Frames a serialised state together with the description of the
/// manager's client endpoint; a broker cannot be described.
pub fn serialize_state_mgr(state: &Vec<u8>, mgr: &LlmpEventManager) -> (r: Result<Vec<u8>, Error>)
    ensures
        mgr.is_broker_spec() ==> r == Err::<Vec<u8>, Error>(Error::IllegalState),
        mgr.connection() matches LlmpConnection::IsClient { description } ==> r is Ok
            && r->Ok_0@ == snapshot_wire(state@, description),
{
    let d = match mgr.describe() {
        Ok(d) => d,
        Err(e) => {
            return Err(e);
        },
    };
    let mut out: Vec<u8> = Vec::new();
    push_bytes(&mut out, state);
    push_varint(&mut out, d.client_id as u64);
    push_varint(&mut out, d.sender_map_id);
    push_varint(&mut out, d.receiver_map_id);
    assert(out@ =~= snapshot_wire(state@, d));
    Ok(out)
}

proof fn lemma_snapshot_split(b: Seq<u8>, s: Seq<u8>, d: LlmpClientDescription)
    requires
        wire_at(b, 0, snapshot_wire(s, d)),
    ensures
        wire_at(b, 0, bytes_wire(s)),
        wire_at(b, bytes_wire(s).len() as int, varint(d.client_id as u64)),
        wire_at(
            b,
            (bytes_wire(s).len() + varint(d.client_id as u64).len()) as int,
            varint(d.sender_map_id),
        ),
        wire_at(
            b,
            (bytes_wire(s).len() + varint(d.client_id as u64).len() + varint(
                d.sender_map_id,
            ).len()) as int,
            varint(d.receiver_map_id),
        ),
{
    let a = bytes_wire(s);
    let c = varint(d.client_id as u64);
    let e = varint(d.sender_map_id);
    let f = varint(d.receiver_map_id);
    assert(a + c + e + f =~= a + (c + (e + f)));
    crate::codec::lemma_wire_split(b, 0, a, c + (e + f));
    crate::codec::lemma_wire_split(b, a.len() as int, c, e + f);
    crate::codec::lemma_wire_split(b, (a.len() + c.len()) as int, e, f);
}

/// Reads a snapshot back: the serialised state, and a client manager
/// reattached from the description that follows it.
pub fn deserialize_state_mgr(bytes: &[u8]) -> (r: Result<(Vec<u8>, LlmpEventManager), Error>)
    ensures
        forall|s: Seq<u8>, d: LlmpClientDescription| #[trigger]
            wire_at(bytes@, 0, snapshot_wire(s, d)) ==> r is Ok && r->Ok_0.0@ == s
                && r->Ok_0.1.connection() == (LlmpConnection::IsClient { description: d })
                && r->Ok_0.1.stats_spec() is None && r->Ok_0.1.outgoing() == Seq::<
                LlmpMsgView,
            >::empty(),
        r matches Ok((_, m)) ==> !m.is_broker_spec() && m.stats_spec() is None && m.outgoing()
            == Seq::<LlmpMsgView>::empty(),
        r is Err ==> r->Err_0 == Error::MalformedFrame,
        bytes@.len() == 0 ==> r is Err,
        forall|n: u64| #[trigger]
            wire_at(bytes@, 0, varint(n)) && varint(n).len() + n > bytes@.len() ==> r is Err,
{
    let (state, p1) = match take_bytes(bytes, 0) {
        Some(x) => x,
        None => {
            proof {
                assert forall|s: Seq<u8>, d: LlmpClientDescription| #[trigger]
                    wire_at(bytes@, 0, snapshot_wire(s, d)) implies false by {
                    lemma_snapshot_split(bytes@, s, d);
                }
            }
            return Err(Error::MalformedFrame);
        },
    };
    let (client_id, p2) = match take_u64(bytes, p1) {
        Some(x) => x,
        None => {
            proof {
                assert forall|s: Seq<u8>, d: LlmpClientDescription| #[trigger]
                    wire_at(bytes@, 0, snapshot_wire(s, d)) implies false by {
                    lemma_snapshot_split(bytes@, s, d);
                }
            }
            return Err(Error::MalformedFrame);
        },
    };
    if client_id > u32::MAX as u64 {
        proof {
            assert forall|s: Seq<u8>, d: LlmpClientDescription| #[trigger]
                wire_at(bytes@, 0, snapshot_wire(s, d)) implies false by {
                lemma_snapshot_split(bytes@, s, d);
            }
        }
        return Err(Error::MalformedFrame);
    }
    let (sender_map_id, p3) = match take_u64(bytes, p2) {
        Some(x) => x,
        None => {
            proof {
                assert forall|s: Seq<u8>, d: LlmpClientDescription| #[trigger]
                    wire_at(bytes@, 0, snapshot_wire(s, d)) implies false by {
                    lemma_snapshot_split(bytes@, s, d);
                }
            }
            return Err(Error::MalformedFrame);
        },
    };
    let (receiver_map_id, _p4) = match take_u64(bytes, p3) {
        Some(x) => x,
        None => {
            proof {
                assert forall|s: Seq<u8>, d: LlmpClientDescription| #[trigger]
                    wire_at(bytes@, 0, snapshot_wire(s, d)) implies false by {
                    lemma_snapshot_split(bytes@, s, d);
                }
            }
            return Err(Error::MalformedFrame);
        },
    };
    let d = LlmpClientDescription { client_id: client_id as u32, sender_map_id, receiver_map_id };
    let mgr = LlmpEventManager::existing_client_from_description(&d);
    proof {
        assert forall|s: Seq<u8>, d2: LlmpClientDescription| #[trigger]
            wire_at(bytes@, 0, snapshot_wire(s, d2)) implies state@ == s && d == d2 by {
            lemma_snapshot_split(bytes@, s, d2);
        }
    }
    Ok((state, mgr))
}

/// A snapshot framed by [`serialize_state_mgr`] stands whole at the front
/// of its own bytes, so [`deserialize_state_mgr`] gives back the state and
/// the description that went in.
pub proof fn lemma_snapshot_round_trip(state: Seq<u8>, d: LlmpClientDescription)
    ensures
        wire_at(snapshot_wire(state, d), 0, snapshot_wire(state, d)),
{
    let w = snapshot_wire(state, d);
    assert(w.subrange(0, w.len() as int) =~= w);
}

/// A worker's manager together with the single page on which it leaves its
/// state for the next generation.
pub struct LlmpRestartingEventManager {
    llmp_mgr: LlmpEventManager,
    sender: LlmpSender,
}

impl LlmpRestartingEventManager {
    /// The embedded event manager.
    pub closed spec fn mgr_spec(&self) -> LlmpEventManager {
        self.llmp_mgr
    }

    /// The snapshot page.
    pub closed spec fn sender_spec(&self) -> LlmpSender {
        self.sender
    }

    /// A worker's manager and its snapshot page.
    pub fn new(llmp_mgr: LlmpEventManager, sender: LlmpSender) -> (r: Self)
        ensures
            r.mgr_spec() == llmp_mgr,
            r.sender_spec() == sender,
    {
        LlmpRestartingEventManager { llmp_mgr, sender }
    }

    /// The snapshot page.
    pub fn sender(&self) -> (r: &LlmpSender)
        ensures
            *r == self.sender_spec(),
    {
        &self.sender
    }

    /// The snapshot page, to reset it.
    pub fn sender_mut(&mut self) -> (r: &mut LlmpSender)
        ensures
            *r == old(self).sender_spec(),
    {
        &mut self.sender
    }

    /// The embedded event manager.
    pub fn llmp_mgr(&self) -> (r: &LlmpEventManager)
        ensures
            *r == self.mgr_spec(),
    {
        &self.llmp_mgr
    }

    /// Leaves the state for the next generation: the page is emptied, then
    /// takes one snapshot message of the state and of this client's
    /// description. A broker cannot be described, and leaves the page empty.
    pub fn on_restart(&mut self, state: &Vec<u8>) -> (r: Result<(), Error>)
        ensures
            final(self).mgr_spec() == old(self).mgr_spec(),
            final(self).sender_spec().id_spec() == old(self).sender_spec().id_spec(),
            final(self).sender_spec().map_id_spec() == old(self).sender_spec().map_id_spec(),
            old(self).mgr_spec().is_broker_spec() ==> r == Err::<(), Error>(Error::IllegalState)
                && final(self).sender_spec().msgs() == Seq::<LlmpMsgView>::empty(),
            old(self).mgr_spec().connection() matches LlmpConnection::IsClient { description }
                ==> r is Ok && final(self).sender_spec().msgs() == seq![
                LlmpMsgView {
                    sender: old(self).sender_spec().id_spec(),
                    tag: LLMP_TAG_RESTART,
                    buf: snapshot_wire(state@, description),
                },
            ],
    {
        self.sender.reset();
        match serialize_state_mgr(state, &self.llmp_mgr) {
            Ok(buf) => {
                self.sender.send_buf(LLMP_TAG_RESTART, buf);
                Ok(())
            },
            Err(e) => Err(e),
        }
    }

    /// Fires an event through the embedded manager.
    pub fn fire(&mut self, event: &Event) -> (r: Result<(), Error>)
        ensures
            final(self).sender_spec() == old(self).sender_spec(),
            final(self).mgr_spec().connection() == old(self).mgr_spec().connection(),
            final(self).mgr_spec().stats_spec() == old(self).mgr_spec().stats_spec(),
            crate::codec::event_wire(event@).len() <= crate::manager::MAX_MESSAGE_SIZE ==> r is Ok
                && final(self).mgr_spec().outgoing() == old(self).mgr_spec().outgoing().push(
                LlmpMsgView {
                    sender: crate::manager::sender_id_of(old(self).mgr_spec().connection()),
                    tag: crate::events::LLMP_TAG_EVENT_TO_BOTH,
                    buf: crate::codec::event_wire(event@),
                },
            ),
            crate::codec::event_wire(event@).len() > crate::manager::MAX_MESSAGE_SIZE ==> r
                == Err::<(), Error>(Error::MessageTooLarge) && final(self).mgr_spec().outgoing()
                == old(self).mgr_spec().outgoing(),
    {
        self.llmp_mgr.fire(event)
    }

    /// Processes delivered messages through the embedded manager.
    pub fn process<S: IfInteresting>(&mut self, state: &mut S, msgs: &Vec<LlmpMsg>) -> (r: Result<
        usize,
        Error,
    >)
        ensures
            final(self).sender_spec() == old(self).sender_spec(),
            final(self).mgr_spec().connection() == old(self).mgr_spec().connection(),
            old(self).mgr_spec().is_broker_spec() ==> r == Ok::<usize, Error>(0) && *final(state)
                == *old(state),
            !old(self).mgr_spec().is_broker_spec() && crate::manager::has_broker_only(msgs@) ==> r
                == Err::<usize, Error>(Error::IllegalState) && *final(state) == *old(state),
            !old(self).mgr_spec().is_broker_spec() && !crate::manager::has_broker_only(msgs@)
                && crate::manager::all_events(msgs@) ==> r == Ok::<usize, Error>(
                msgs@.len() as usize,
            ),
    {
        self.llmp_mgr.process(state, msgs)
    }
}

/// What the supervisor reports once its broker loop has returned: a loop
/// that ended cleanly means the bus is shutting down; a failure is passed on.
pub fn broker_loop_ended(result: Result<(), Error>) -> (r: Error)
    ensures
        result is Ok ==> r == Error::ShuttingDown,
        result matches Err(e) ==> r == e,
{
    match result {
        Ok(()) => Error::ShuttingDown,
        Err(e) => e,
    }
}

/// The supervisor's decision once a worker generation has ended: with an
/// empty snapshot page the state is lost and respawning is pointless;
/// otherwise the next generation (counted with wrap-around) is spawned.
pub fn respawn_after_exit(size_used: usize, generation: u64) -> (r: Result<u64, Error>)
    ensures
        size_used == 0 ==> r == Err::<u64, Error>(Error::SnapshotMissing),
        size_used != 0 ==> r == Ok::<u64, Error>(((generation + 1) % 0x1_0000_0000_0000_0000) as u64),
{
    if size_used == 0 {
        Err(Error::SnapshotMissing)
    } else if generation == u64::MAX {
        Ok(0)
    } else {
        Ok(generation + 1)
    }
}

/// A new worker generation takes up what the last one left on the page:
/// nothing on a first run, in which case it reattaches to the initial
/// client; otherwise the state it saved and the client it described. The
/// page is emptied so that the next snapshot starts at its beginning.
pub fn resume_worker(
    received: Option<LlmpMsg>,
    initial: &LlmpClientDescription,
    sender: LlmpSender,
) -> (r: Result<(Option<Vec<u8>>, LlmpRestartingEventManager), Error>)
    ensures
        received is None ==> r is Ok && r->Ok_0.0 is None && r->Ok_0.1.mgr_spec().connection() == (
        LlmpConnection::IsClient { description: *initial }),
        received matches Some(m) ==> forall|s: Seq<u8>, d: LlmpClientDescription| #[trigger]
            wire_at(m.buf@, 0, snapshot_wire(s, d)) ==> r is Ok && r->Ok_0.0 is Some && r->Ok_0.0->Some_0@
                == s && r->Ok_0.1.mgr_spec().connection() == (LlmpConnection::IsClient {
                description: d,
            }),
        r matches Ok((_, mgr)) ==> !mgr.mgr_spec().is_broker_spec()
            && mgr.sender_spec().msgs() == Seq::<LlmpMsgView>::empty()
            && mgr.sender_spec().id_spec() == sender.id_spec() && mgr.sender_spec().map_id_spec()
            == sender.map_id_spec() && mgr.mgr_spec().stats_spec() is None
            && mgr.mgr_spec().outgoing() == Seq::<LlmpMsgView>::empty(),
        r is Err ==> r->Err_0 == Error::MalformedFrame,
{
    let (state, llmp_mgr) = match received {
        None => (None, LlmpEventManager::existing_client_from_description(initial)),
        Some(m) => match deserialize_state_mgr(m.buf.as_slice()) {
            Ok((state, mgr)) => (Some(state), mgr),
            Err(e) => {
                return Err(e);
            },
        },
    };
    let mut mgr = LlmpRestartingEventManager::new(llmp_mgr, sender);
    mgr.sender.reset();
    Ok((state, mgr))
}

} // verus!
