//! Multi-process fuzzing event bus: event framing, broker and client
//! handling, the restart snapshot channel and a queue scheduler.

pub mod broker;
pub mod codec;
mod error;
pub mod events;
pub mod executors;
pub mod llmp;
pub mod manager;
pub mod restart;
pub mod schedulers;
pub mod stats;

pub use broker::{handle_in_broker, on_broker_message, BrokerEventResult, LlmpMsgHookResult};
pub use codec::{decode, encode, MAX_EVENT_OVERHEAD};
pub use error::Error;
pub use events::Event;
pub use executors::{Executor, ExitKind, HasObservers, NopExecutor, ObserversTuple};
pub use llmp::{LlmpClientDescription, LlmpMsg, LlmpSender};
pub use manager::{
    adoption_outcome, judge_args, offer_if_fit, received_events, IfInteresting, LlmpConnection,
    LlmpEventManager, PortOutcome, MAX_MESSAGE_SIZE,
};
pub use restart::{
    broker_loop_ended, deserialize_state_mgr, respawn_after_exit, resume_worker, serialize_state_mgr,
    LlmpRestartingEventManager,
};
pub use schedulers::QueueScheduler;
pub use stats::{ClientStats, Stats};
