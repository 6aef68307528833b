use libafl::{Error, Executor, ExitKind, HasObservers, NopExecutor};

#[test]
fn nop_executor() {
    let empty_input: Vec<u8> = vec![];
    let nonempty_input: Vec<u8> = vec![1u8];
    let mut executor = NopExecutor::new();
    assert!(executor.run_target(&empty_input).is_err());
    assert!(executor.run_target(&nonempty_input).is_ok());
}

#[test]
fn nop_executor_reports_empty_and_success() {
    let mut executor = NopExecutor::new();
    assert_eq!(executor.run_target(&vec![]), Err(Error::Empty));
    assert_eq!(executor.run_target(&vec![7, 8]), Ok(ExitKind::Success));
    assert_eq!(executor.name(), "NopExecutor");
}

struct Counters {
    resets: u32,
    ends: u32,
}

impl libafl::ObserversTuple for Counters {
    fn reset_all(&mut self) -> Result<(), Error> {
        self.resets += 1;
        Ok(())
    }

    fn post_exec_all(&mut self) -> Result<(), Error> {
        self.ends += 1;
        Ok(())
    }
}

struct Observed {
    observers: Counters,
}

impl libafl::HasObservers<Counters> for Observed {
    fn observers(&self) -> &Counters {
        &self.observers
    }

    fn observers_mut(&mut self) -> &mut Counters {
        &mut self.observers
    }
}

#[test]
fn has_observers_defaults_reach_the_observers() {
    let mut e = Observed { observers: Counters { resets: 0, ends: 0 } };
    e.reset_observers().unwrap();
    e.post_exec_observers().unwrap();
    e.post_exec_observers().unwrap();
    assert_eq!(e.observers().resets, 1);
    assert_eq!(e.observers().ends, 2);
}
