//! The events exchanged between fuzzer processes, and the message tags of
//! the transport.
use vstd::prelude::*;

verus! {

/// Tag of a message that the broker only forwards.
pub const LLMP_TAG_EVENT_TO_CLIENT: u32 = 0x2C11E471;

/// Tag of a message that only the broker handles.
pub const LLMP_TAG_EVENT_TO_BROKER: u32 = 0x2B80438;

/// Tag of a message that the broker inspects and then forwards.
pub const LLMP_TAG_EVENT_TO_BOTH: u32 = 0x2B0741;

/// Tag of a snapshot message that carries a viable state.
pub const LLMP_TAG_RESTART: u32 = 0x8357A87;

/// Tag reserved for a snapshot page that carries no viable state.
pub const LLMP_TAG_NO_RESTART: u32 = 0x57A7EE71;

/// A fuzzing event.
#[derive(Debug, Clone)]
pub enum Event {
    /// A peer found an interesting input.
    NewTestcase {
        input: Vec<u8>,
        client_config: String,
        corpus_size: u64,
        observers_buf: Vec<u8>,
        time: u64,
        executions: u64,
    },
    /// Periodic statistics of a peer.
    UpdateStats { time: u64, executions: u64 },
    /// A peer found an objective (a crash or a timeout).
    Objective { objective_size: u64 },
    /// A log line of a peer.
    Log { severity_level: u64, message: String },
}

/// The mathematical value of an [`Event`].
pub ghost enum EventView {
    NewTestcase {
        input: Seq<u8>,
        client_config: Seq<char>,
        corpus_size: u64,
        observers_buf: Seq<u8>,
        time: u64,
        executions: u64,
    },
    UpdateStats { time: u64, executions: u64 },
    Objective { objective_size: u64 },
    Log { severity_level: u64, message: Seq<char> },
}

impl View for Event {
    type V = EventView;

    open spec fn view(&self) -> EventView {
        match self {
            Event::NewTestcase {
                input,
                client_config,
                corpus_size,
                observers_buf,
                time,
                executions,
            } => EventView::NewTestcase {
                input: input@,
                client_config: client_config@,
                corpus_size: *corpus_size,
                observers_buf: observers_buf@,
                time: *time,
                executions: *executions,
            },
            Event::UpdateStats { time, executions } => EventView::UpdateStats {
                time: *time,
                executions: *executions,
            },
            Event::Objective { objective_size } => EventView::Objective {
                objective_size: *objective_size,
            },
            Event::Log { severity_level, message } => EventView::Log {
                severity_level: *severity_level,
                message: message@,
            },
        }
    }
}

impl Event {
    /// The name of the event's variant.
    pub fn name(&self) -> (r: &'static str)
        ensures
            r@ == event_name(self@),
    {
        match self {
            Event::NewTestcase { .. } => "New Testcase",
            Event::UpdateStats { .. } => "Stats",
            Event::Objective { .. } => "Objective",
            Event::Log { .. } => "Log",
        }
    }
}

/// The name of each variant.
pub open spec fn event_name(e: EventView) -> Seq<char> {
    match e {
        EventView::NewTestcase { .. } => "New Testcase"@,
        EventView::UpdateStats { .. } => "Stats"@,
        EventView::Objective { .. } => "Objective"@,
        EventView::Log { .. } => "Log"@,
    }
}

} // verus!
