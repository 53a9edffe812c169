//! Writing dirty runs to the file and returning them to the kernel, with only
//! the run at hand closed to writers.

use crate::action::{Action, IoFailure, Reply};
use crate::map::MooMap;
use crate::page::PageOp;
use crate::stats::IoStats;
use crate::transfer::{RangeStatus, RangeWrite};
use vstd::prelude::*;

verus! {

/// What a reclaim is doing.
#[derive(Debug, Clone, Copy, PartialEq, Eq)]
pub enum ReclaimPhase {
    /// Claiming `page`, with no run at hand.
    Claim,
    /// Looking whether `page`, which is held, is dirty.
    Probe,
    /// Opening `page`, which is held and turned out clean.
    Skip,
    /// Opening `page`, which is held and dirty but exceeds the budget; the
    /// reclaim ends with it.
    Leave,
    /// The run `start..page` is held; looking whether `page` is dirty.
    ExtendProbe,
    /// The run `start..page` is held; claiming `page`, which was seen dirty.
    ExtendClaim,
    /// Writing the run `start..page` to the file.
    Copy(RangeWrite),
    /// Returning the run `start..page` to the kernel.
    Discard,
    /// Marking page `at` of the run clean; those before it are marked.
    Clean {
        /// The page to mark.
        at: usize,
    },
    /// Opening page `at` of the run; those before it are open.
    Open {
        /// The page to open.
        at: usize,
        /// The failure that stopped the reclaim, if one did.
        failure: Option<IoFailure>,
    },
    /// Ended, with the work done or with the failure that stopped it.
    Done(Result<IoStats, IoFailure>),
}

/// A pass over the pages that writes dirty ones to the file and returns them
/// to the kernel, at most `max_bytes` of them.
#[derive(Debug, Clone, Copy, PartialEq, Eq)]
pub struct Reclaim {
    /// The mapping.
    pub map: MooMap,
    /// The most bytes to process.
    pub max_bytes: usize,
    /// The runs processed so far.
    pub stats: IoStats,
    /// The first page of the run at hand.
    pub start: usize,
    /// The page that the pass has reached.
    pub page: usize,
    /// What is being done.
    pub phase: ReclaimPhase,
}

impl Reclaim {
    /// Whether the run `start..page` is at hand.
    pub open spec fn has_run(self) -> bool {
        match self.phase {
            ReclaimPhase::ExtendProbe
            | ReclaimPhase::ExtendClaim
            | ReclaimPhase::Copy(_)
            | ReclaimPhase::Discard
            | ReclaimPhase::Clean { .. }
            | ReclaimPhase::Open { .. } => true,
            _ => false,
        }
    }

    /// The pages that the pass has dealt with: those before the run at hand,
    /// or before `page` if there is none.
    pub open spec fn behind(self) -> usize {
        if self.has_run() {
            self.start
        } else {
            self.page
        }
    }

    /// Whether the bytes processed so far, with all those from page `from` to
    /// the end of `page`, keep to the budget.
    pub open spec fn affords(self, from: int) -> bool {
        self.stats.bytes + self.map.boundary(self.page + 1) - self.map.boundary(from)
            <= self.max_bytes
    }

    /// The counters lie within what the pass has left behind, and within the budget.
    pub open spec fn counters_fit(self, behind: int) -> bool {
        &&& self.map.wf()
        &&& self.page <= self.map.page_count
        &&& self.stats.pages <= behind
        &&& self.stats.runs <= self.stats.pages
        &&& self.stats.bytes <= self.map.boundary(behind)
        &&& self.stats.bytes <= self.max_bytes
    }

    /// A run is at hand, and it fits the budget.
    pub open spec fn run_fits(self) -> bool {
        &&& self.start < self.page
        &&& self.stats.bytes + self.map.boundary(self.page as int) - self.map.boundary(
            self.start as int,
        ) <= self.max_bytes
    }

    /// The pass lies within the mapping and within its budget. It ends well only
    /// behind the last page, or at a page that exceeds the budget.
    pub open spec fn wf(self) -> bool {
        &&& self.counters_fit(self.behind() as int)
        &&& self.has_run() ==> self.run_fits()
        &&& match self.phase {
            ReclaimPhase::Claim | ReclaimPhase::Probe | ReclaimPhase::Skip => {
                &&& self.page < self.map.page_count
                &&& self.stats.bytes < self.max_bytes
            },
            ReclaimPhase::Leave => {
                &&& self.page < self.map.page_count
                &&& !self.affords(self.page as int)
            },
            ReclaimPhase::ExtendProbe | ReclaimPhase::ExtendClaim => {
                &&& self.page < self.map.page_count
                &&& self.affords(self.start as int)
            },
            ReclaimPhase::Copy(range) => {
                &&& range.wf()
                &&& range.offset == self.map.boundary(self.start as int)
                &&& range.offset + range.len == self.map.boundary(self.page as int)
            },
            ReclaimPhase::Discard => true,
            ReclaimPhase::Clean { at } => self.start <= at < self.page,
            ReclaimPhase::Open { at, .. } => self.start <= at < self.page,
            ReclaimPhase::Done(result) => match result {
                Ok(stats) => {
                    &&& stats == self.stats
                    &&& self.page == self.map.page_count || !self.affords(self.page as int)
                },
                Err(_) => true,
            },
        }
    }

    /// Whether the reclaim holds `page`, that is, its gate.
    pub open spec fn holds(self, page: int) -> bool {
        match self.phase {
            ReclaimPhase::Claim | ReclaimPhase::Done(_) => false,
            ReclaimPhase::Probe | ReclaimPhase::Skip | ReclaimPhase::Leave => page == self.page,
            ReclaimPhase::Open { at, .. } => at <= page < self.page,
            _ => self.start <= page < self.page,
        }
    }

    /// A reclaim of at most `max_bytes` bytes of `map` that has not begun.
    pub open spec fn started(map: MooMap, max_bytes: usize) -> Reclaim {
        Reclaim {
            map,
            max_bytes,
            stats: IoStats::zero(),
            start: 0,
            page: 0,
            phase: ReclaimPhase::Claim,
        }.scanning()
    }

    /// The result, once the reclaim has ended.
    pub open spec fn outcome(self) -> Option<Result<IoStats, IoFailure>> {
        match self.phase {
            ReclaimPhase::Done(result) => Some(result),
            _ => None,
        }
    }

    /// What the reclaim needs done next.
    pub open spec fn pending(self) -> Action {
        match self.phase {
            ReclaimPhase::Claim | ReclaimPhase::ExtendClaim => Action::Page {
                page: self.page,
                op: PageOp::ClaimForReclaim,
            },
            ReclaimPhase::Probe | ReclaimPhase::ExtendProbe => Action::Page {
                page: self.page,
                op: PageOp::IsDirty,
            },
            ReclaimPhase::Skip | ReclaimPhase::Leave => Action::Page {
                page: self.page,
                op: PageOp::Release,
            },
            ReclaimPhase::Copy(range) => range.pending(),
            ReclaimPhase::Discard => {
                let from = self.map.boundary(self.start as int);
                let to = self.map.boundary(self.page as int);
                Action::Discard { offset: from as usize, len: (to - from) as usize }
            },
            ReclaimPhase::Clean { at } => Action::Page { page: at, op: PageOp::ClearDirty },
            ReclaimPhase::Open { at, .. } => Action::Page { page: at, op: PageOp::Release },
            ReclaimPhase::Done(_) => Action::Finish,
        }
    }

    /// The same reclaim in another phase.
    pub open spec fn entering(self, phase: ReclaimPhase) -> Reclaim {
        Reclaim { phase, ..self }
    }

    /// The same reclaim one page further.
    pub open spec fn past_page(self) -> Reclaim {
        Reclaim { page: (self.page + 1) as usize, ..self }
    }

    /// Goes on with `page`, or ends when every page has been dealt with or the
    /// budget is used up.
    pub open spec fn scanning(self) -> Reclaim {
        if self.page < self.map.page_count && self.stats.bytes < self.max_bytes {
            self.entering(ReclaimPhase::Claim)
        } else {
            self.entering(ReclaimPhase::Done(Ok(self.stats)))
        }
    }

    /// Starts to write the run `start..page`.
    pub open spec fn copying(self) -> Reclaim {
        let from = self.map.boundary(self.start as int);
        let to = self.map.boundary(self.page as int);
        self.entering(ReclaimPhase::Copy(RangeWrite::fresh(from as usize, (to - from) as usize)))
    }

    /// Tries to lengthen the run, or writes it when it reached the end or the
    /// next page exceeds the budget.
    pub open spec fn extending(self) -> Reclaim {
        if self.page < self.map.page_count && self.affords(self.start as int) {
            self.entering(ReclaimPhase::ExtendProbe)
        } else {
            self.copying()
        }
    }

    /// Starts to open the run, because of `failure` or because it is done.
    pub open spec fn opening(self, failure: Option<IoFailure>) -> Reclaim {
        self.entering(ReclaimPhase::Open { at: self.start, failure })
    }

    /// Counts the run and goes on behind it.
    pub open spec fn counting(self) -> Reclaim {
        let bytes = self.map.boundary(self.page as int) - self.map.boundary(self.start as int);
        Reclaim { stats: self.stats.plus_run(self.page - self.start, bytes), ..self }.scanning()
    }

    /// The reclaim after `reply`.
    pub open spec fn after(self, reply: Reply) -> Reclaim {
        match (self.phase, reply) {
            (ReclaimPhase::Claim, Reply::Flag(claimed)) => if claimed {
                self.entering(ReclaimPhase::Probe)
            } else {
                self.past_page().scanning()
            },
            (ReclaimPhase::Probe, Reply::Flag(dirty)) => if !dirty {
                self.entering(ReclaimPhase::Skip)
            } else if self.affords(self.page as int) {
                Reclaim { start: self.page, ..self }.past_page().extending()
            } else {
                self.entering(ReclaimPhase::Leave)
            },
            (ReclaimPhase::Skip, _) => self.past_page().scanning(),
            (ReclaimPhase::Leave, _) => self.entering(ReclaimPhase::Done(Ok(self.stats))),
            (ReclaimPhase::ExtendProbe, Reply::Flag(dirty)) => if dirty {
                self.entering(ReclaimPhase::ExtendClaim)
            } else {
                self.copying()
            },
            (ReclaimPhase::ExtendClaim, Reply::Flag(claimed)) => if claimed {
                self.past_page().extending()
            } else {
                self.copying()
            },
            (ReclaimPhase::Copy(range), reply) => match range.after(reply) {
                RangeStatus::More(range) => self.entering(ReclaimPhase::Copy(range)),
                RangeStatus::Complete => self.entering(ReclaimPhase::Discard),
                RangeStatus::Failed(failure) => self.opening(Some(failure)),
            },
            (ReclaimPhase::Discard, Reply::Done) => self.entering(
                ReclaimPhase::Clean { at: self.start },
            ),
            (ReclaimPhase::Discard, Reply::Failed(errno)) => self.opening(
                Some(IoFailure::Os(errno)),
            ),
            (ReclaimPhase::Clean { at }, _) => if at + 1 < self.page {
                self.entering(ReclaimPhase::Clean { at: (at + 1) as usize })
            } else {
                self.opening(None)
            },
            (ReclaimPhase::Open { at, failure }, _) => if at + 1 < self.page {
                self.entering(ReclaimPhase::Open { at: (at + 1) as usize, failure })
            } else {
                match failure {
                    Some(failure) => self.entering(ReclaimPhase::Done(Err(failure))),
                    None => self.counting(),
                }
            },
            _ => self,
        }
    }

    fn scan(&mut self)
        requires
            old(self).counters_fit(old(self).page as int),
        ensures
            *final(self) == old(self).scanning(),
            final(self).wf(),
    {
        proof {
            self.map.boundary_is_ordered(self.page as int, self.page + 1);
        }
        self.phase = if self.page < self.map.page_count && self.stats.bytes < self.max_bytes {
            ReclaimPhase::Claim
        } else {
            ReclaimPhase::Done(Ok(self.stats))
        };
    }

    fn copy_run(&mut self)
        requires
            old(self).counters_fit(old(self).start as int),
            old(self).run_fits(),
        ensures
            *final(self) == old(self).copying(),
            final(self).wf(),
    {
        let (offset, len) = self.map.run_bytes(self.start, self.page);
        proof {
            self.map.boundary_is_ordered(self.start as int, self.page as int);
        }
        if let RangeStatus::More(range) = RangeWrite::pwrite_range(offset, len) {
            self.phase = ReclaimPhase::Copy(range);
        }
    }

    fn extend(&mut self)
        requires
            old(self).counters_fit(old(self).start as int),
            old(self).run_fits(),
        ensures
            *final(self) == old(self).extending(),
            final(self).wf(),
    {
        if self.page < self.map.page_count && self.has_budget(self.start) {
            self.phase = ReclaimPhase::ExtendProbe;
        } else {
            self.copy_run();
        }
    }

    fn has_budget(&self, from: usize) -> (enough: bool)
        requires
            self.map.wf(),
            from <= self.page < self.map.page_count,
            self.stats.bytes <= self.max_bytes,
        ensures
            enough == self.affords(from as int),
    {
        let (_, len) = self.map.run_bytes(from, self.page + 1);
        len <= self.max_bytes - self.stats.bytes
    }

    fn count_run(&mut self)
        requires
            old(self).counters_fit(old(self).start as int),
            old(self).run_fits(),
        ensures
            *final(self) == old(self).counting(),
            final(self).wf(),
    {
        let (_, len) = self.map.run_bytes(self.start, self.page);
        proof {
            self.map.boundary_is_ordered(self.start as int, self.page as int);
        }
        self.stats.count_run(self.page - self.start, len);
        self.scan();
    }

    /// Asks for the next action.
    pub fn action(&self) -> (action: Action)
        requires
            self.wf(),
        ensures
            action == self.pending(),
    {
        match self.phase {
            ReclaimPhase::Claim => Action::Page { page: self.page, op: PageOp::ClaimForReclaim },
            ReclaimPhase::Probe => Action::Page { page: self.page, op: PageOp::IsDirty },
            ReclaimPhase::Skip => Action::Page { page: self.page, op: PageOp::Release },
            ReclaimPhase::Leave => Action::Page { page: self.page, op: PageOp::Release },
            ReclaimPhase::ExtendProbe => Action::Page { page: self.page, op: PageOp::IsDirty },
            ReclaimPhase::ExtendClaim => Action::Page {
                page: self.page,
                op: PageOp::ClaimForReclaim,
            },
            ReclaimPhase::Copy(range) => range.action(),
            ReclaimPhase::Discard => {
                let (offset, len) = self.map.run_bytes(self.start, self.page);
                Action::Discard { offset, len }
            },
            ReclaimPhase::Clean { at } => Action::Page { page: at, op: PageOp::ClearDirty },
            ReclaimPhase::Open { at, .. } => Action::Page { page: at, op: PageOp::Release },
            ReclaimPhase::Done(_) => Action::Finish,
        }
    }

    /// Returns the result once the reclaim has ended. It never counts more
    /// bytes than the reclaim was given, and the reclaim has ended well only
    /// behind the last page or at a page that would exceed the budget.
    pub fn result(&self) -> (result: Option<Result<IoStats, IoFailure>>)
        requires
            self.wf(),
        ensures
            result == self.outcome(),
            result matches Some(Ok(stats)) ==> {
                &&& stats.bytes <= self.max_bytes
                &&& self.page == self.map.page_count || !self.affords(self.page as int)
            },
    {
        match self.phase {
            ReclaimPhase::Done(result) => Some(result),
            _ => None,
        }
    }

    /// Takes the reply to the pending action.
    pub fn step(&mut self, reply: Reply)
        requires
            old(self).wf(),
            reply.answers(old(self).pending()),
        ensures
            *final(self) == old(self).after(reply),
            final(self).wf(),
    {
        proof {
            self.map.boundary_is_ordered(self.page as int, self.page + 1);
            self.map.boundary_is_ordered(self.behind() as int, self.page as int);
        }
        match (self.phase, reply) {
            (ReclaimPhase::Claim, Reply::Flag(claimed)) => {
                if claimed {
                    self.phase = ReclaimPhase::Probe;
                } else {
                    self.page = self.page + 1;
                    self.scan();
                }
            },
            (ReclaimPhase::Probe, Reply::Flag(dirty)) => {
                if !dirty {
                    self.phase = ReclaimPhase::Skip;
                } else if self.has_budget(self.page) {
                    self.start = self.page;
                    self.page = self.page + 1;
                    self.extend();
                } else {
                    self.phase = ReclaimPhase::Leave;
                }
            },
            (ReclaimPhase::Skip, _) => {
                self.page = self.page + 1;
                self.scan();
            },
            (ReclaimPhase::Leave, _) => {
                self.phase = ReclaimPhase::Done(Ok(self.stats));
            },
            (ReclaimPhase::ExtendProbe, Reply::Flag(dirty)) => {
                if dirty {
                    self.phase = ReclaimPhase::ExtendClaim;
                } else {
                    self.copy_run();
                }
            },
            (ReclaimPhase::ExtendClaim, Reply::Flag(claimed)) => {
                if claimed {
                    self.page = self.page + 1;
                    self.extend();
                } else {
                    self.copy_run();
                }
            },
            (ReclaimPhase::Copy(range), reply) => {
                match range.step(reply) {
                    RangeStatus::More(range) => {
                        self.phase = ReclaimPhase::Copy(range);
                    },
                    RangeStatus::Complete => {
                        self.phase = ReclaimPhase::Discard;
                    },
                    RangeStatus::Failed(failure) => {
                        self.phase = ReclaimPhase::Open { at: self.start, failure: Some(failure) };
                    },
                }
            },
            (ReclaimPhase::Discard, Reply::Done) => {
                self.phase = ReclaimPhase::Clean { at: self.start };
            },
            (ReclaimPhase::Discard, Reply::Failed(errno)) => {
                self.phase =
                ReclaimPhase::Open { at: self.start, failure: Some(IoFailure::Os(errno)) };
            },
            (ReclaimPhase::Clean { at }, _) => {
                if at + 1 < self.page {
                    self.phase = ReclaimPhase::Clean { at: at + 1 };
                } else {
                    self.phase = ReclaimPhase::Open { at: self.start, failure: None };
                }
            },
            (ReclaimPhase::Open { at, failure }, _) => {
                if at + 1 < self.page {
                    self.phase = ReclaimPhase::Open { at: at + 1, failure };
                } else {
                    match failure {
                        Some(failure) => {
                            self.phase = ReclaimPhase::Done(Err(failure));
                        },
                        None => {
                            self.count_run();
                        },
                    }
                }
            },
            _ => {},
        }
    }
}

impl MooMap {
    /// Starts to write and discard up to `max_bytes` of dirty private pages, in
    /// address order and page by page. It ends at the first dirty page whose
    /// mapped bytes would exceed what is left of the budget.
    ///
    /// Gates close only the pages of the run at hand; writers elsewhere and
    /// every reader go on.
    ///
    /// # Errors
    ///
    /// The reclaim ends with the first failure to write the file or to return
    /// pages to the kernel.
    pub fn reclaim(&self, max_bytes: usize) -> (operation: Reclaim)
        requires
            self.wf(),
        ensures
            operation == Reclaim::started(*self, max_bytes),
            operation.wf(),
            operation.max_bytes == max_bytes,
            max_bytes == 0 ==> operation.outcome() == Some(
                Ok::<IoStats, IoFailure>(IoStats::zero()),
            ),
            forall|page: int| !operation.holds(page),
    {
        proof {
            self.boundary_ends();
        }
        let mut operation = Reclaim {
            map: *self,
            max_bytes,
            stats: IoStats::default(),
            start: 0,
            page: 0,
            phase: ReclaimPhase::Claim,
        };
        operation.scan();
        operation
    }

    /// Starts to write and discard every dirty private page available for reclaim.
    ///
    /// # Errors
    ///
    /// The reclaim ends with the first failure to write the file or to return
    /// pages to the kernel.
    pub fn reclaim_all(&self) -> (operation: Reclaim)
        requires
            self.wf(),
        ensures
            operation == Reclaim::started(*self, usize::MAX),
            operation.wf(),
            forall|page: int| !operation.holds(page),
    {
        self.reclaim(usize::MAX)
    }
}

/// A reclaim keeps to its budget: at no moment has it processed more bytes than
/// it was given, the run at hand included.
pub proof fn reclaim_keeps_to_its_budget(reclaim: Reclaim)
    requires
        reclaim.wf(),
    ensures
        reclaim.stats.bytes <= reclaim.max_bytes,
        reclaim.has_run() ==> reclaim.stats.bytes + reclaim.map.boundary(reclaim.page as int)
            - reclaim.map.boundary(reclaim.start as int) <= reclaim.max_bytes,
{
}

/// A budget of the whole mapping is never exceeded: a reclaim with one ends well
/// only behind the last page.
pub proof fn full_budget_reaches_the_end(reclaim: Reclaim)
    requires
        reclaim.wf(),
        reclaim.map.len <= reclaim.max_bytes,
    ensures
        !(reclaim.phase is Leave),
        reclaim.outcome() matches Some(Ok(_)) ==> reclaim.page == reclaim.map.page_count,
{
}

} // verus!
