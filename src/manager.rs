//! The event manager: one endpoint of the bus, broker or client, fixed at
//! construction.
use vstd::prelude::*;

use crate::broker::{broker_result, hook_result, on_broker_message, stats_after, LlmpMsgHookResult};
use crate::codec::{decode, encode, event_wire, wire_at};
use crate::error::Error;
use crate::events::{Event, EventView, LLMP_TAG_EVENT_TO_BOTH, LLMP_TAG_EVENT_TO_BROKER};
use crate::executors::ExitKind;
use crate::llmp::{copy_bytes, LlmpClientDescription, LlmpMsg, LlmpMsgView};
use crate::stats::{ClientStats, Stats};

verus! {

/// The state of a fuzzer as the client side needs it: its feedback judges
/// a received testcase, and its corpus may take it in.
pub trait IfInteresting {
    /// The fitness of an input, judged from the observers that its sender
    /// recorded; above zero means worth adopting.
    fn is_interesting(
        &mut self,
        input: &Vec<u8>,
        observers_buf: &Vec<u8>,
        exit_kind: ExitKind,
    ) -> Result<u32, Error>;

    /// Adds the input to the corpus if it is interesting enough; returns its
    /// corpus id when it was added.
    fn add_if_interesting(&mut self, input: &Vec<u8>, fitness: u32) -> Result<Option<usize>, Error>;
}

/// What the rendezvous on a port gave: the port was free and this process
/// became the broker, or it connected as a client with these pages.
#[derive(Debug, Clone, Copy, PartialEq, Eq, Structural)]
pub enum PortOutcome {
    Bound,
    Connected(LlmpClientDescription),
}

/// The endpoint that a manager owns.
#[derive(Debug, Clone, Copy, PartialEq, Eq, Structural)]
pub enum LlmpConnection {
    IsBroker { port: u16 },
    IsClient { description: LlmpClientDescription },
}

/// The largest message, in bytes, that an event may take on the bus.
pub const MAX_MESSAGE_SIZE: usize = 0x100000;

/// The sender id that the broker writes into its own messages.
pub const BROKER_ID: u32 = 0;

/// An event manager on the bus.
pub struct LlmpEventManager {
    stats: Option<Stats>,
    llmp: LlmpConnection,
    outgoing: Vec<LlmpMsg>,
}

/// The sender id of an endpoint.
pub open spec fn sender_id_of(c: LlmpConnection) -> u32 {
    match c {
        LlmpConnection::IsBroker { .. } => BROKER_ID,
        LlmpConnection::IsClient { description } => description.client_id,
    }
}

/// Some message is tagged for the broker alone.
pub open spec fn has_broker_only(msgs: Seq<LlmpMsg>) -> bool {
    exists|i: int| 0 <= i < msgs.len() && (#[trigger] msgs[i]).tag == LLMP_TAG_EVENT_TO_BROKER
}

/// The bytes begin with an encoded event.
pub open spec fn is_event(b: Seq<u8>) -> bool {
    exists|e: EventView| #[trigger] wire_at(b, 0, event_wire(e))
}

/// Every message holds an encoded event.
pub open spec fn all_events(msgs: Seq<LlmpMsg>) -> bool {
    forall|i: int| 0 <= i < msgs.len() ==> is_event(#[trigger] msgs[i].buf@)
}

/// What a new testcase hands to the feedback: its input, the observers
/// that its sender recorded, and a normal exit (the input is not run again).
/// Any other event does not belong on the client path.
pub fn judge_args(event: &Event) -> (r: Result<(Vec<u8>, Vec<u8>, ExitKind), Error>)
    ensures
        event@ matches EventView::NewTestcase { input, observers_buf, .. } ==> r is Ok
            && r->Ok_0.0@ == input && r->Ok_0.1@ == observers_buf && r->Ok_0.2
            == ExitKind::Success,
        !(event@ is NewTestcase) ==> r == Err::<(Vec<u8>, Vec<u8>, ExitKind), Error>(
            Error::UnexpectedEvent,
        ),
{
    match event {
        Event::NewTestcase { input, observers_buf, .. } => Ok(
            (copy_bytes(input), copy_bytes(observers_buf), ExitKind::Success),
        ),
        _ => Err(Error::UnexpectedEvent),
    }
}

/// What the corpus's answer to an offer means: adopted when it gave an id.
pub fn adoption_outcome(added: Result<Option<usize>, Error>) -> (r: Result<bool, Error>)
    ensures
        r == match added {
            Ok(Some(_)) => Ok::<bool, Error>(true),
            Ok(None) => Ok::<bool, Error>(false),
            Err(e) => Err::<bool, Error>(e),
        },
{
    match added {
        Ok(Some(_)) => Ok(true),
        Ok(None) => Ok(false),
        Err(e) => Err(e),
    }
}

/// Offers an input to the corpus, once, when its fitness is above zero;
/// with a fitness of zero the state is left alone.
pub fn offer_if_fit<S: IfInteresting>(state: &mut S, input: &Vec<u8>, fitness: u32) -> (r: Result<
    bool,
    Error,
>)
    ensures
        fitness == 0 ==> r == Ok::<bool, Error>(false) && *final(state) == *old(state),
{
    if fitness > 0 {
        adoption_outcome(state.add_if_interesting(input, fitness))
    } else {
        Ok(false)
    }
}

/// The events that the delivered messages hold, with their senders, in the
/// order received; a message that does not decode is skipped. A message
/// tagged for the broker alone is a protocol violation.
pub fn received_events(msgs: &Vec<LlmpMsg>) -> (r: Result<Vec<(u32, Event)>, Error>)
    ensures
        has_broker_only(msgs@) ==> r == Err::<Vec<(u32, Event)>, Error>(Error::IllegalState),
        !has_broker_only(msgs@) ==> r is Ok && r->Ok_0@.len() <= msgs@.len(),
        !has_broker_only(msgs@) && all_events(msgs@) ==> r is Ok && r->Ok_0@.len()
            == msgs@.len() && forall|i: int, e: EventView|
            0 <= i < msgs@.len() && #[trigger] wire_at(msgs@[i].buf@, 0, event_wire(e))
                ==> r->Ok_0@[i].0 == msgs@[i].sender && r->Ok_0@[i].1@ == e,
{
    let mut i: usize = 0;
    while i < msgs.len()
        invariant
            i <= msgs@.len(),
            forall|j: int| 0 <= j < i ==> (#[trigger] msgs@[j]).tag != LLMP_TAG_EVENT_TO_BROKER,
        decreases msgs@.len() - i,
    {
        if msgs[i].tag == LLMP_TAG_EVENT_TO_BROKER {
            return Err(Error::IllegalState);
        }
        i = i + 1;
    }
    let mut out: Vec<(u32, Event)> = Vec::new();
    let mut k: usize = 0;
    while k < msgs.len()
        invariant
            k <= msgs@.len(),
            out@.len() <= k,
            all_events(msgs@) ==> out@.len() == k && forall|j: int, e: EventView|
                0 <= j < k && #[trigger] wire_at(msgs@[j].buf@, 0, event_wire(e))
                    ==> out@[j].0 == msgs@[j].sender && out@[j].1@ == e,
        decreases msgs@.len() - k,
    {
        let m = &msgs[k];
        match decode(m.buf.as_slice()) {
            Ok(event) => {
                out.push((m.sender, event));
            },
            Err(_) => {
                proof {
                    if all_events(msgs@) {
                        assert(is_event(msgs@[k as int].buf@));
                    }
                }
            },
        }
        k = k + 1;
    }
    Ok(out)
}

impl LlmpEventManager {
    /// The endpoint; it never changes after construction.
    pub closed spec fn connection(&self) -> LlmpConnection {
        self.llmp
    }

    pub open spec fn is_broker_spec(&self) -> bool {
        self.connection() is IsBroker
    }

    /// The statistics registry, which only a broker built on a port has.
    pub closed spec fn stats_spec(&self) -> Option<Map<u32, ClientStats>> {
        match self.stats {
            Some(s) => Some(s@),
            None => None,
        }
    }

    /// The messages fired and not yet handed to the transport.
    pub closed spec fn outgoing(&self) -> Seq<LlmpMsgView> {
        self.outgoing@.map_values(|m: LlmpMsg| m@)
    }

    fn with(stats: Option<Stats>, llmp: LlmpConnection) -> (r: Self)
        ensures
            r.connection() == llmp,
            r.outgoing() == Seq::<LlmpMsgView>::empty(),
            r.stats_spec() == (match stats {
                Some(s) => Some(s@),
                None => None::<Map<u32, ClientStats>>,
            }),
    {
        let r = LlmpEventManager { stats, llmp, outgoing: Vec::new() };
        assert(r.outgoing() =~= Seq::<LlmpMsgView>::empty());
        r
    }

    /// A manager on a port: the broker if the port was free, otherwise a
    /// client on the pages the rendezvous gave.
    pub fn new_on_port(stats: Stats, port: u16, outcome: PortOutcome) -> (r: Self)
        ensures
            r.is_broker_spec() <==> outcome is Bound,
            outcome is Bound ==> r.connection() == (LlmpConnection::IsBroker { port }),
            outcome matches PortOutcome::Connected(d) ==> r.connection() == (
            LlmpConnection::IsClient { description: d }),
            r.stats_spec() == Some(stats@),
            r.outgoing() == Seq::<LlmpMsgView>::empty(),
    {
        let llmp = match outcome {
            PortOutcome::Bound => LlmpConnection::IsBroker { port },
            PortOutcome::Connected(description) => LlmpConnection::IsClient { description },
        };
        Self::with(Some(stats), llmp)
    }

    /// A manager on a port over the standard shared-memory provider; the
    /// same as [`Self::new_on_port`].
    pub fn new_on_port_std(stats: Stats, port: u16, outcome: PortOutcome) -> (r: Self)
        ensures
            r.is_broker_spec() <==> outcome is Bound,
            outcome is Bound ==> r.connection() == (LlmpConnection::IsBroker { port }),
            outcome matches PortOutcome::Connected(d) ==> r.connection() == (
            LlmpConnection::IsClient { description: d }),
            r.stats_spec() == Some(stats@),
            r.outgoing() == Seq::<LlmpMsgView>::empty(),
    {
        Self::new_on_port(stats, port, outcome)
    }

    /// Reattaches to a client that an earlier process described.
    pub fn existing_client_from_description(description: &LlmpClientDescription) -> (r: Self)
        ensures
            r.connection() == (LlmpConnection::IsClient { description: *description }),
            r.stats_spec() is None,
            r.outgoing() == Seq::<LlmpMsgView>::empty(),
    {
        Self::with(None, LlmpConnection::IsClient { description: *description })
    }

    /// Reattaches to a client whose description was stored under an
    /// environment prefix; `stored` is what was found there.
    pub fn existing_client_from_env(stored: Option<LlmpClientDescription>) -> (r: Result<
        Self,
        Error,
    >)
        ensures
            stored is None ==> r is Err && r->Err_0 == Error::IllegalState,
            stored matches Some(d) ==> r is Ok && r->Ok_0.connection() == (LlmpConnection::IsClient {
                description: d,
            }) && r->Ok_0.stats_spec() is None && r->Ok_0.outgoing() == Seq::<LlmpMsgView>::empty(),
    {
        match stored {
            Some(d) => Ok(Self::existing_client_from_description(&d)),
            None => Err(Error::IllegalState),
        }
    }

    /// [`Self::existing_client_from_env`] over the standard shared-memory
    /// provider.
    pub fn existing_client_from_env_std(stored: Option<LlmpClientDescription>) -> (r: Result<
        Self,
        Error,
    >)
        ensures
            stored is None ==> r is Err && r->Err_0 == Error::IllegalState,
            stored matches Some(d) ==> r is Ok && r->Ok_0.connection() == (LlmpConnection::IsClient {
                description: d,
            }) && r->Ok_0.stats_spec() is None && r->Ok_0.outgoing() == Seq::<LlmpMsgView>::empty(),
    {
        Self::existing_client_from_env(stored)
    }

    /// Describes the client's pages so that another process can reattach;
    /// a broker cannot be described.
    pub fn describe(&self) -> (r: Result<LlmpClientDescription, Error>)
        ensures
            self.is_broker_spec() ==> r == Err::<LlmpClientDescription, Error>(Error::IllegalState),
            self.connection() matches LlmpConnection::IsClient { description } ==> r == Ok::<
                LlmpClientDescription,
                Error,
            >(description),
    {
        match &self.llmp {
            LlmpConnection::IsBroker { .. } => Err(Error::IllegalState),
            LlmpConnection::IsClient { description } => Ok(*description),
        }
    }

    /// What to store under an environment prefix so that a new process can
    /// reattach with [`Self::existing_client_from_env`]; only a client can
    /// be stored.
    pub fn to_env(&self) -> (r: Result<LlmpClientDescription, Error>)
        ensures
            self.is_broker_spec() ==> r == Err::<LlmpClientDescription, Error>(Error::IllegalState),
            self.connection() matches LlmpConnection::IsClient { description } ==> r == Ok::<
                LlmpClientDescription,
                Error,
            >(description),
    {
        self.describe()
    }

    /// Whether this manager is the broker.
    pub fn is_broker(&self) -> (r: bool)
        ensures
            r == self.is_broker_spec(),
    {
        match self.llmp {
            LlmpConnection::IsBroker { .. } => true,
            LlmpConnection::IsClient { .. } => false,
        }
    }

    /// The broker's statistics of one client.
    pub fn client_stats_for(&self, id: u32) -> (r: Option<ClientStats>)
        ensures
            match self.stats_spec() {
                Some(m) => r == Some(crate::stats::record_of(m, id)),
                None => r is None,
            },
    {
        match &self.stats {
            Some(s) => Some(s.client_stats_for(id)),
            None => None,
        }
    }

    /// One turn of the broker loop: the broker's hook on one message that
    /// arrived from a client. A client, or a broker without statistics,
    /// cannot run it.
    pub fn broker_on_message(&mut self, msg: &LlmpMsg) -> (r: Result<LlmpMsgHookResult, Error>)
        ensures
            final(self).connection() == old(self).connection(),
            final(self).outgoing() == old(self).outgoing(),
            !old(self).is_broker_spec() || old(self).stats_spec() is None ==> r == Err::<
                LlmpMsgHookResult,
                Error,
            >(Error::IllegalState) && final(self).stats_spec() == old(self).stats_spec(),
            old(self).is_broker_spec() && old(self).stats_spec() is Some && msg.tag
                != LLMP_TAG_EVENT_TO_BOTH ==> r == Ok::<LlmpMsgHookResult, Error>(
                LlmpMsgHookResult::ForwardToClients,
            ) && final(self).stats_spec() == old(self).stats_spec(),
            old(self).is_broker_spec() && old(self).stats_spec() is Some && msg.tag
                == LLMP_TAG_EVENT_TO_BOTH ==> forall|e: EventView| #[trigger]
                wire_at(msg.buf@, 0, event_wire(e)) ==> r == Ok::<LlmpMsgHookResult, Error>(
                hook_result(broker_result(e)),
            ) && final(self).stats_spec() == Some(
                stats_after(old(self).stats_spec()->Some_0, msg.sender, e),
            ),
    {
        if !self.is_broker() {
            return Err(Error::IllegalState);
        }
        match &mut self.stats {
            Some(stats) => on_broker_message(stats, msg.sender, msg.tag, msg.buf.as_slice()),
            None => Err(Error::IllegalState),
        }
    }

    /// Encodes an event and queues it for the transport as one message,
    /// tagged for both the broker and the clients. An event whose encoding
    /// exceeds [`MAX_MESSAGE_SIZE`] is refused and nothing is queued.
    pub fn fire(&mut self, event: &Event) -> (r: Result<(), Error>)
        ensures
            final(self).connection() == old(self).connection(),
            final(self).stats_spec() == old(self).stats_spec(),
            event_wire(event@).len() <= MAX_MESSAGE_SIZE ==> r is Ok && final(self).outgoing()
                == old(self).outgoing().push(
                LlmpMsgView {
                    sender: sender_id_of(old(self).connection()),
                    tag: LLMP_TAG_EVENT_TO_BOTH,
                    buf: event_wire(event@),
                },
            ),
            event_wire(event@).len() > MAX_MESSAGE_SIZE ==> r == Err::<(), Error>(
                Error::MessageTooLarge,
            ) && final(self).outgoing() == old(self).outgoing(),
    {
        let buf = encode(event);
        if buf.len() > MAX_MESSAGE_SIZE {
            return Err(Error::MessageTooLarge);
        }
        let sender = match &self.llmp {
            LlmpConnection::IsBroker { .. } => BROKER_ID,
            LlmpConnection::IsClient { description } => description.client_id,
        };
        let m = LlmpMsg { sender, tag: LLMP_TAG_EVENT_TO_BOTH, buf };
        self.outgoing.push(m);
        assert(self.outgoing() =~= old(self).outgoing().push(m@));
        Ok(())
    }

    /// Hands the queued messages to the transport, oldest first.
    pub fn take_outgoing(&mut self) -> (r: Vec<LlmpMsg>)
        ensures
            final(self).connection() == old(self).connection(),
            final(self).stats_spec() == old(self).stats_spec(),
            r@.map_values(|m: LlmpMsg| m@) == old(self).outgoing(),
            final(self).outgoing() == Seq::<LlmpMsgView>::empty(),
    {
        let mut out: Vec<LlmpMsg> = Vec::new();
        std::mem::swap(&mut out, &mut self.outgoing);
        assert(self.outgoing() =~= Seq::<LlmpMsgView>::empty());
        out
    }

    /// Handles an event that arrived at a client: a new testcase is judged
    /// by the local feedback from the observers its sender recorded (the
    /// arguments are those of [`judge_args`]), and is offered to the corpus
    /// through [`offer_if_fit`]. Returns whether the corpus took it. Any
    /// other event does not belong on this path and leaves the state alone.
    pub fn handle_in_client<S: IfInteresting>(state: &mut S, sender_id: u32, event: &Event) -> (r:
        Result<bool, Error>)
        ensures
            !(event@ is NewTestcase) ==> r == Err::<bool, Error>(Error::UnexpectedEvent)
                && *final(state) == *old(state),
            r == Ok::<bool, Error>(true) ==> event@ is NewTestcase,
    {
        let (input, observers_buf, exit_kind) = match judge_args(event) {
            Ok(args) => args,
            Err(e) => {
                return Err(e);
            },
        };
        let fitness = match state.is_interesting(&input, &observers_buf, exit_kind) {
            Ok(f) => f,
            Err(e) => {
                return Err(e);
            },
        };
        offer_if_fit(state, &input, fitness)
    }

    /// Handles the messages that the transport delivered to a client: the
    /// events of [`received_events`] go to [`Self::handle_in_client`] one
    /// by one, in the order received, and their number is returned. A
    /// message tagged for the broker alone is a protocol violation and stops
    /// everything before any event is handled; a message that does not
    /// decode, and an event that fails on the client path, are skipped. A
    /// broker handles nothing here.
    pub fn process<S: IfInteresting>(&mut self, state: &mut S, msgs: &Vec<LlmpMsg>) -> (r: Result<
        usize,
        Error,
    >)
        ensures
            final(self).connection() == old(self).connection(),
            final(self).stats_spec() == old(self).stats_spec(),
            final(self).outgoing() == old(self).outgoing(),
            old(self).is_broker_spec() ==> r == Ok::<usize, Error>(0) && *final(state) == *old(state),
            !old(self).is_broker_spec() && has_broker_only(msgs@) ==> r == Err::<usize, Error>(
                Error::IllegalState,
            ) && *final(state) == *old(state),
            !old(self).is_broker_spec() && !has_broker_only(msgs@) ==> r is Ok && r->Ok_0
                <= msgs@.len(),
            !old(self).is_broker_spec() && !has_broker_only(msgs@) && all_events(msgs@) ==> r
                == Ok::<usize, Error>(msgs@.len() as usize),
    {
        if self.is_broker() {
            return Ok(0);
        }
        let events = match received_events(msgs) {
            Ok(v) => v,
            Err(e) => {
                return Err(e);
            },
        };
        let mut k: usize = 0;
        while k < events.len()
            invariant
                k <= events@.len(),
            decreases events@.len() - k,
        {
            let _ = Self::handle_in_client(state, events[k].0, &events[k].1);
            k = k + 1;
        }
        Ok(events.len())
    }

    /// Whether the pages of this endpoint can be unmapped: a broker always,
    /// a client once the transport took everything it fired.
    pub fn is_restart_safe(&self) -> (r: bool)
        ensures
            r == (self.is_broker_spec() || self.outgoing().len() == 0),
    {
        self.is_broker() || self.outgoing.len() == 0
    }
}

} // verus!
