//! A scheduler that walks the corpus in a queue-like fashion.
use vstd::prelude::*;

use crate::error::Error;

verus! {

/// Walks the corpus entries in order of their ids, starting over after the
/// last, and counts the cycles through the queue.
#[derive(Debug, Clone, Copy, PartialEq, Eq, Structural)]
pub struct QueueScheduler {
    queue_cycles: u64,
    runs_in_current_cycle: u64,
}

/// One more, held at the largest value.
pub open spec fn saturating_inc(x: u64) -> u64 {
    if x < u64::MAX {
        (x + 1) as u64
    } else {
        x
    }
}

/// The entry after `current` in a corpus of `count` entries: the next id
/// if there is one, else the first.
pub open spec fn next_id(count: usize, current: Option<usize>) -> usize {
    match current {
        Some(c) => if c + 1 < count {
            (c + 1) as usize
        } else {
            0
        },
        None => 0,
    }
}

impl QueueScheduler {
    pub closed spec fn queue_cycles_spec(&self) -> u64 {
        self.queue_cycles
    }

    pub closed spec fn runs_spec(&self) -> u64 {
        self.runs_in_current_cycle
    }

    /// A scheduler that has run nothing.
    pub fn new() -> (r: Self)
        ensures
            r.queue_cycles_spec() == 0,
            r.runs_spec() == 0,
    {
        QueueScheduler { queue_cycles: 0, runs_in_current_cycle: 0 }
    }

    /// Records a newly added entry's parent: the entry that was current
    /// when it was found. `parents` holds the parent of each entry by id; an
    /// id outside the corpus is an error and changes nothing.
    pub fn on_add(&mut self, parents: &mut Vec<Option<usize>>, current: Option<usize>, id: usize) -> (r:
        Result<(), Error>)
        ensures
            *final(self) == *old(self),
            id >= old(parents)@.len() ==> r == Err::<(), Error>(Error::KeyNotFound) && final(parents)@
                == old(parents)@,
            id < old(parents)@.len() ==> r == Ok::<(), Error>(()) && final(parents)@ == old(
                parents,
            )@.update(id as int, current),
    {
        if id >= parents.len() {
            return Err(Error::KeyNotFound);
        }
        parents.set(id, current);
        Ok(())
    }

    /// How many times the walk reached the end of the corpus.
    pub fn queue_cycles(&self) -> (r: u64)
        ensures
            r == self.queue_cycles_spec(),
    {
        self.queue_cycles
    }

    /// The next entry to fuzz in a corpus of `corpus_count` entries whose
    /// current entry is `current`; it becomes the current entry. An empty
    /// corpus has none.
    pub fn next(&mut self, corpus_count: usize, current: &mut Option<usize>) -> (r: Result<
        usize,
        Error,
    >)
        ensures
            corpus_count == 0 ==> r == Err::<usize, Error>(Error::Empty) && *final(self)
                == *old(self) && *final(current) == *old(current),
            corpus_count > 0 ==> r == Ok::<usize, Error>(next_id(corpus_count, *old(current)))
                && *final(current) == Some(next_id(corpus_count, *old(current)))
                && final(self).runs_spec() == saturating_inc(old(self).runs_spec())
                && final(self).queue_cycles_spec() == if final(self).runs_spec()
                >= corpus_count as u64 {
                saturating_inc(old(self).queue_cycles_spec())
            } else {
                old(self).queue_cycles_spec()
            },
    {
        if corpus_count == 0 {
            return Err(Error::Empty);
        }
        let id = match *current {
            Some(c) => if c < corpus_count - 1 {
                c + 1
            } else {
                0
            },
            None => 0,
        };
        if self.runs_in_current_cycle < u64::MAX {
            self.runs_in_current_cycle = self.runs_in_current_cycle + 1;
        }
        if self.runs_in_current_cycle >= corpus_count as u64 && self.queue_cycles < u64::MAX {
            self.queue_cycles = self.queue_cycles + 1;
        }
        *current = Some(id);
        Ok(id)
    }
}

impl Default for QueueScheduler {
    fn default() -> (r: Self)
        ensures
            r.queue_cycles_spec() == 0,
            r.runs_spec() == 0,
    {
        Self::new()
    }
}

} // verus!
