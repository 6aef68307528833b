//! Executors run the target on an input and report how the run ended.
use vstd::prelude::*;

use crate::error::Error;

verus! {

/// How an execution finished.
#[derive(Debug, Clone, Copy, PartialEq, Eq, Structural)]
pub enum ExitKind {
    /// The run ended normally.
    Success,
    Crash,
    OOM,
    Timeout,
}

/// A set of observers that watch each run of the target.
pub trait ObserversTuple {
    /// Resets every observer before a run.
    fn reset_all(&mut self) -> Result<(), Error>;

    /// Tells every observer that a run ended.
    fn post_exec_all(&mut self) -> Result<(), Error>;
}

/// An executor that owns the observers of its runs.
pub trait HasObservers<OT: ObserversTuple> {
    /// The linked observers.
    fn observers(&self) -> &OT;

    /// The linked observers, to change them.
    fn observers_mut(&mut self) -> &mut OT;

    /// Resets the state of all the observers of this executor.
    fn reset_observers(&mut self) -> Result<(), Error> {
        self.observers_mut().reset_all()
    }

    /// Runs the post-execution hook of all the observers of this executor.
    fn post_exec_observers(&mut self) -> Result<(), Error> {
        self.observers_mut().post_exec_all()
    }
}

/// Runs the target on an input.
pub trait Executor {
    /// Instructs the target about the input and runs it.
    fn run_target(&mut self, input: &Vec<u8>) -> Result<ExitKind, Error>;
}

/// An executor that runs nothing: an empty input is an error, any other
/// input ends normally.
pub struct NopExecutor {}

impl NopExecutor {
    pub fn new() -> (r: NopExecutor) {
        NopExecutor {  }
    }

    /// The executor's name.
    pub fn name(&self) -> (r: &'static str)
        ensures
            r@ == "NopExecutor"@,
    {
        "NopExecutor"
    }

    /// Runs nothing; fails on an empty input.
    pub fn run(&mut self, input: &Vec<u8>) -> (r: Result<ExitKind, Error>)
        ensures
            input@.len() == 0 ==> r == Err::<ExitKind, Error>(Error::Empty),
            input@.len() > 0 ==> r == Ok::<ExitKind, Error>(ExitKind::Success),
    {
        if input.len() == 0 {
            Err(Error::Empty)
        } else {
            Ok(ExitKind::Success)
        }
    }
}

impl Executor for NopExecutor {
    fn run_target(&mut self, input: &Vec<u8>) -> (r: Result<ExitKind, Error>)
        ensures
            input@.len() == 0 ==> r == Err::<ExitKind, Error>(Error::Empty),
            input@.len() > 0 ==> r == Ok::<ExitKind, Error>(ExitKind::Success),
    {
        self.run(input)
    }
}

} // verus!
