//! Copying dirty runs into the file while writers go on.

use crate::action::{Action, IoFailure, Reply};
use crate::map::MooMap;
use crate::page::PageOp;
use crate::stats::IoStats;
use crate::transfer::{RangeStatus, RangeWrite};
use vstd::prelude::*;

verus! {

/// What a write-back is doing.
#[derive(Debug, Clone, Copy, PartialEq, Eq)]
pub enum WriteBackPhase {
    /// Looking for a dirty page at `page`.
    Probe,
    /// The pages `start..page` were seen dirty; looking at `page`.
    Extend,
    /// Copying the run `start..page`.
    Copy(RangeWrite),
    /// Ended, with the work done or with the failure that stopped it.
    Done(Result<IoStats, IoFailure>),
}

/// A best-effort copy of the dirty pages into the file.
///
/// It scans the pages in address order, takes no gate, leaves every dirty flag
/// as it is, and copies each contiguous run in one go.
#[derive(Debug, Clone, Copy, PartialEq, Eq)]
pub struct WriteBack {
    /// The mapping.
    pub map: MooMap,
    /// The runs copied so far.
    pub stats: IoStats,
    /// The first page of the run at hand.
    pub start: usize,
    /// The page that the scan has reached.
    pub page: usize,
    /// What is being done.
    pub phase: WriteBackPhase,
}

impl WriteBack {
    /// The scan lies within the mapping, and the counters within what it has
    /// left behind.
    pub open spec fn wf(self) -> bool {
        let behind = match self.phase {
            WriteBackPhase::Extend | WriteBackPhase::Copy(_) => self.start,
            _ => self.page,
        };
        &&& self.map.wf()
        &&& self.page <= self.map.page_count
        &&& self.stats.pages <= behind
        &&& self.stats.runs <= self.stats.pages
        &&& self.stats.bytes <= self.map.boundary(behind as int)
        &&& match self.phase {
            WriteBackPhase::Probe => self.page < self.map.page_count,
            WriteBackPhase::Extend => self.start < self.page < self.map.page_count,
            WriteBackPhase::Copy(range) => {
                &&& self.start < self.page
                &&& range.wf()
                &&& range.offset == self.map.boundary(self.start as int)
                &&& range.offset + range.len == self.map.boundary(self.page as int)
            },
            WriteBackPhase::Done(result) => match result {
                Ok(stats) => stats == self.stats && self.page == self.map.page_count,
                Err(_) => true,
            },
        }
    }

    /// A write-back of `map` that has not begun.
    pub open spec fn started(map: MooMap) -> WriteBack {
        WriteBack {
            map,
            stats: IoStats::zero(),
            start: 0,
            page: 0,
            phase: WriteBackPhase::Probe,
        }
    }

    /// The result, once the write-back has ended.
    pub open spec fn outcome(self) -> Option<Result<IoStats, IoFailure>> {
        match self.phase {
            WriteBackPhase::Done(result) => Some(result),
            _ => None,
        }
    }

    /// What the write-back needs done next.
    pub open spec fn pending(self) -> Action {
        match self.phase {
            WriteBackPhase::Probe | WriteBackPhase::Extend => Action::Page {
                page: self.page,
                op: PageOp::IsDirty,
            },
            WriteBackPhase::Copy(range) => range.pending(),
            WriteBackPhase::Done(_) => Action::Finish,
        }
    }

    /// The same write-back in another phase.
    pub open spec fn entering(self, phase: WriteBackPhase) -> WriteBack {
        WriteBack { phase, ..self }
    }

    /// Goes on looking at `page`, or ends when every page has been looked at.
    pub open spec fn scanning(self) -> WriteBack {
        if self.page < self.map.page_count {
            self.entering(WriteBackPhase::Probe)
        } else {
            self.entering(WriteBackPhase::Done(Ok(self.stats)))
        }
    }

    /// Starts to copy the run `start..page`.
    pub open spec fn copying(self) -> WriteBack {
        let from = self.map.boundary(self.start as int);
        let to = self.map.boundary(self.page as int);
        self.entering(WriteBackPhase::Copy(RangeWrite::fresh(from as usize, (to - from) as usize)))
    }

    /// Takes `page` into the run.
    pub open spec fn including(self) -> WriteBack {
        let taken = WriteBack { page: (self.page + 1) as usize, ..self };
        if taken.page < self.map.page_count {
            taken.entering(WriteBackPhase::Extend)
        } else {
            taken.copying()
        }
    }

    /// The write-back after `reply`.
    pub open spec fn after(self, reply: Reply) -> WriteBack {
        match (self.phase, reply) {
            (WriteBackPhase::Probe, Reply::Flag(dirty)) => if dirty {
                WriteBack { start: self.page, ..self }.including()
            } else {
                WriteBack { page: (self.page + 1) as usize, ..self }.scanning()
            },
            (WriteBackPhase::Extend, Reply::Flag(dirty)) => if dirty {
                self.including()
            } else {
                self.copying()
            },
            (WriteBackPhase::Copy(range), reply) => match range.after(reply) {
                RangeStatus::More(range) => self.entering(WriteBackPhase::Copy(range)),
                RangeStatus::Complete => WriteBack {
                    stats: self.stats.plus_run(self.page - self.start, range.len as int),
                    ..self
                }.scanning(),
                RangeStatus::Failed(failure) => self.entering(
                    WriteBackPhase::Done(Err(failure)),
                ),
            },
            _ => self,
        }
    }

    fn scan(&mut self)
        requires
            old(self).map.wf(),
            old(self).page <= old(self).map.page_count,
            old(self).stats.pages <= old(self).page,
            old(self).stats.runs <= old(self).stats.pages,
            old(self).stats.bytes <= old(self).map.boundary(old(self).page as int),
        ensures
            *final(self) == old(self).scanning(),
            final(self).wf(),
    {
        self.phase = if self.page < self.map.page_count {
            WriteBackPhase::Probe
        } else {
            WriteBackPhase::Done(Ok(self.stats))
        };
    }

    fn copy_run(&mut self)
        requires
            old(self).map.wf(),
            old(self).start < old(self).page <= old(self).map.page_count,
            old(self).stats.pages <= old(self).start,
            old(self).stats.runs <= old(self).stats.pages,
            old(self).stats.bytes <= old(self).map.boundary(old(self).start as int),
        ensures
            *final(self) == old(self).copying(),
            final(self).wf(),
    {
        let (offset, len) = self.map.run_bytes(self.start, self.page);
        proof {
            self.map.boundary_is_ordered(self.start as int, self.page as int);
        }
        if let RangeStatus::More(range) = RangeWrite::pwrite_range(offset, len) {
            self.phase = WriteBackPhase::Copy(range);
        }
    }

    fn take_in(&mut self)
        requires
            old(self).map.wf(),
            old(self).start <= old(self).page < old(self).map.page_count,
            old(self).stats.pages <= old(self).start,
            old(self).stats.runs <= old(self).stats.pages,
            old(self).stats.bytes <= old(self).map.boundary(old(self).start as int),
        ensures
            *final(self) == old(self).including(),
            final(self).wf(),
    {
        self.page = self.page + 1;
        if self.page < self.map.page_count {
            self.phase = WriteBackPhase::Extend;
        } else {
            self.copy_run();
        }
    }

    /// Asks for the next action.
    pub fn action(&self) -> (action: Action)
        requires
            self.wf(),
        ensures
            action == self.pending(),
    {
        match self.phase {
            WriteBackPhase::Probe => Action::Page { page: self.page, op: PageOp::IsDirty },
            WriteBackPhase::Extend => Action::Page { page: self.page, op: PageOp::IsDirty },
            WriteBackPhase::Copy(range) => range.action(),
            WriteBackPhase::Done(_) => Action::Finish,
        }
    }

    /// Returns the result once the write-back has ended.
    pub fn result(&self) -> (result: Option<Result<IoStats, IoFailure>>)
        ensures
            result == self.outcome(),
    {
        match self.phase {
            WriteBackPhase::Done(result) => Some(result),
            _ => None,
        }
    }

    /// Takes the reply to the pending action.
    pub fn step(&mut self, reply: Reply)
        requires
            old(self).wf(),
            reply.answers(old(self).pending()),
        ensures
            *final(self) == old(self).after(reply),
            final(self).wf(),
    {
        match (self.phase, reply) {
            (WriteBackPhase::Probe, Reply::Flag(dirty)) => {
                if dirty {
                    self.start = self.page;
                    self.take_in();
                } else {
                    proof {
                        self.map.boundary_is_ordered(self.page as int, self.page + 1);
                    }
                    self.page = self.page + 1;
                    self.scan();
                }
            },
            (WriteBackPhase::Extend, Reply::Flag(dirty)) => {
                if dirty {
                    self.take_in();
                } else {
                    self.copy_run();
                }
            },
            (WriteBackPhase::Copy(range), reply) => {
                match range.step(reply) {
                    RangeStatus::More(range) => {
                        self.phase = WriteBackPhase::Copy(range);
                    },
                    RangeStatus::Complete => {
                        self.stats.count_run(self.page - self.start, range.len);
                        self.scan();
                    },
                    RangeStatus::Failed(failure) => {
                        proof {
                            self.map.boundary_is_ordered(self.start as int, self.page as int);
                        }
                        self.phase = WriteBackPhase::Done(Err(failure));
                    },
                }
            },
            _ => {},
        }
    }
}

impl MooMap {
    /// Starts to copy the dirty runs into the file without gating writers.
    ///
    /// The copy is a best-effort snapshot. A concurrent writer may be seen
    /// partly, and dirty flags stay set so that a later call can refresh the
    /// file. Durable flushes remain the caller's responsibility.
    ///
    /// # Errors
    ///
    /// The write-back ends with the first failure to write the file.
    pub fn write_back(&self) -> (operation: WriteBack)
        requires
            self.wf(),
        ensures
            operation == WriteBack::started(*self),
            operation.wf(),
    {
        proof {
            self.boundary_ends();
        }
        WriteBack {
            map: *self,
            stats: IoStats::default(),
            start: 0,
            page: 0,
            phase: WriteBackPhase::Probe,
        }
    }
}

} // verus!
