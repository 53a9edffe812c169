//! Writing through the mapping: claim the pages, change the bytes, mark the
//! pages dirty and open them again.

use crate::action::{Action, Reply};
use crate::map::{MapError, MooMap};
use crate::page::PageOp;
use vstd::arithmetic::div_mod::*;
use vstd::prelude::*;

verus! {

/// How far a writer has come with the gates of its pages.
#[derive(Debug, Clone, Copy, PartialEq, Eq, Structural)]
pub enum GuardPhase {
    /// Claiming the page `at`; the pages before it are held.
    Claiming,
    /// Every page is held.
    Held,
    /// Marking the page `at` dirty; the pages before it are open again.
    Marking,
    /// Opening the page `at`, which is marked.
    Opening,
    /// Every page is open again.
    Released,
}

/// A writer's hold on the pages `first..=last`; on none if `last + 1` is `first`.
///
/// Pages are claimed in ascending order, one by one, and each of them is
/// marked dirty before its gate opens.
#[derive(Debug, Clone, Copy, PartialEq, Eq, Structural)]
pub struct WriteGuard {
    /// First page of the range.
    pub first: usize,
    /// Last page of the range.
    pub last: usize,
    /// The page that the guard works on.
    pub at: usize,
    /// What the guard is doing.
    pub phase: GuardPhase,
}

impl WriteGuard {
    /// The guard works within its range. On an empty range there is nothing
    /// to claim, to mark or to open.
    pub open spec fn wf(self) -> bool {
        if self.first <= self.last {
            self.first <= self.at <= self.last
        } else {
            &&& self.first == self.last + 1
            &&& self.at == self.first
            &&& self.phase == GuardPhase::Held || self.phase == GuardPhase::Released
        }
    }

    /// A guard of the pages `first..=last` that has not begun.
    pub open spec fn fresh(first: usize, last: usize) -> WriteGuard {
        let phase = if first <= last {
            GuardPhase::Claiming
        } else {
            GuardPhase::Held
        };
        WriteGuard { first, last, at: first, phase }
    }

    /// Whether the guard holds `page`, that is, its gate.
    pub open spec fn holds(self, page: int) -> bool {
        match self.phase {
            GuardPhase::Claiming => self.first <= page < self.at,
            GuardPhase::Held => self.first <= page <= self.last,
            GuardPhase::Marking | GuardPhase::Opening => self.at <= page <= self.last,
            GuardPhase::Released => false,
        }
    }

    /// What the guard needs done; while it holds everything it needs nothing.
    pub open spec fn pending(self) -> Action {
        match self.phase {
            GuardPhase::Claiming => Action::Page { page: self.at, op: PageOp::ClaimForWrite },
            GuardPhase::Marking => Action::Page { page: self.at, op: PageOp::SetDirty },
            GuardPhase::Opening => Action::Page { page: self.at, op: PageOp::Release },
            GuardPhase::Held | GuardPhase::Released => Action::Finish,
        }
    }

    /// The guard working on `at` in `phase`.
    pub open spec fn moved(self, at: int, phase: GuardPhase) -> WriteGuard {
        WriteGuard { first: self.first, last: self.last, at: at as usize, phase }
    }

    /// The guard after the answer `flag` to its pending operation: a refused
    /// claim is made again, everything else moves on.
    pub open spec fn after(self, flag: bool) -> WriteGuard {
        match self.phase {
            GuardPhase::Claiming => if !flag {
                self
            } else if self.at < self.last {
                self.moved(self.at + 1, GuardPhase::Claiming)
            } else {
                self.moved(self.at as int, GuardPhase::Held)
            },
            GuardPhase::Marking => self.moved(self.at as int, GuardPhase::Opening),
            GuardPhase::Opening => if self.at < self.last {
                self.moved(self.at + 1, GuardPhase::Marking)
            } else {
                self.moved(self.at as int, GuardPhase::Released)
            },
            GuardPhase::Held | GuardPhase::Released => self,
        }
    }

    /// The guard once it starts to mark and open its pages.
    pub open spec fn releasing(self) -> WriteGuard {
        if self.first <= self.last {
            self.moved(self.first as int, GuardPhase::Marking)
        } else {
            self.moved(self.first as int, GuardPhase::Released)
        }
    }

    /// Starts to claim the pages `first..=last`; none of them is held yet. An
    /// empty range is held at once.
    pub fn acquire(first: usize, last: usize) -> (guard: WriteGuard)
        requires
            first <= last + 1,
        ensures
            guard == WriteGuard::fresh(first, last),
            guard.wf(),
            forall|page: int| !guard.holds(page),
            guard.pending() == if first <= last {
                Action::Page { page: first, op: PageOp::ClaimForWrite }
            } else {
                Action::Finish
            },
    {
        let phase = if first <= last {
            GuardPhase::Claiming
        } else {
            GuardPhase::Held
        };
        WriteGuard { first, last, at: first, phase }
    }

    /// Starts to mark and open the pages, once all of them are held.
    pub fn release(&mut self)
        requires
            old(self).wf(),
            old(self).phase == GuardPhase::Held,
        ensures
            *final(self) == old(self).releasing(),
            final(self).wf(),
            forall|page: int| final(self).holds(page) == old(self).holds(page),
    {
        self.at = self.first;
        self.phase = if self.first <= self.last {
            GuardPhase::Marking
        } else {
            GuardPhase::Released
        };
    }

    /// Asks for the guard's next operation on a page.
    pub fn action(&self) -> (action: Action)
        ensures
            action == self.pending(),
    {
        match self.phase {
            GuardPhase::Claiming => Action::Page { page: self.at, op: PageOp::ClaimForWrite },
            GuardPhase::Marking => Action::Page { page: self.at, op: PageOp::SetDirty },
            GuardPhase::Opening => Action::Page { page: self.at, op: PageOp::Release },
            GuardPhase::Held => Action::Finish,
            GuardPhase::Released => Action::Finish,
        }
    }

    /// Takes the answer to the pending operation.
    pub fn step(&mut self, flag: bool)
        requires
            old(self).wf(),
        ensures
            *final(self) == old(self).after(flag),
            final(self).wf(),
    {
        match self.phase {
            GuardPhase::Claiming => {
                if flag {
                    if self.at < self.last {
                        self.at = self.at + 1;
                    } else {
                        self.phase = GuardPhase::Held;
                    }
                }
            },
            GuardPhase::Marking => {
                self.phase = GuardPhase::Opening;
            },
            GuardPhase::Opening => {
                if self.at < self.last {
                    self.at = self.at + 1;
                    self.phase = GuardPhase::Marking;
                } else {
                    self.phase = GuardPhase::Released;
                }
            },
            GuardPhase::Held => {},
            GuardPhase::Released => {},
        }
    }
}

/// One write of the bytes `offset..offset + len`.
#[derive(Debug, Clone, Copy, PartialEq, Eq, Structural)]
pub enum Write {
    /// A write of no byte, which touches no page.
    Empty {
        /// Where the empty range lies.
        offset: usize,
        /// Whether the caller has been given its turn.
        mutated: bool,
    },
    /// A write that holds its pages while the caller changes the bytes.
    Guarded {
        /// First byte of the range.
        offset: usize,
        /// Length of the range, not zero.
        len: usize,
        /// The hold on the pages of the range.
        guard: WriteGuard,
    },
}

impl Write {
    /// The range lies within `map`, and the guard spans exactly the pages that
    /// the range touches.
    pub open spec fn wf(self, map: MooMap) -> bool {
        match self {
            Write::Empty { offset, .. } => offset <= map.len,
            Write::Guarded { offset, len, guard } => {
                &&& guard.wf()
                &&& guard.first <= guard.last
                &&& 0 < len
                &&& offset + len <= map.len
                &&& guard.last < map.page_count
                &&& map.on_pages(offset as int, guard.first as int, guard.first + 1)
                &&& map.on_pages(offset + len - 1, guard.last as int, guard.last + 1)
            },
        }
    }

    /// A write of `offset..offset + len` that has not begun: it will claim the
    /// pages from that of its first byte to that of its last.
    pub open spec fn started(map: MooMap, offset: usize, len: usize) -> Write {
        if len == 0 {
            Write::Empty { offset, mutated: false }
        } else {
            let first = offset / map.page_size;
            let last = ((offset + len - 1) / (map.page_size as int)) as usize;
            Write::Guarded {
                offset,
                len,
                guard: WriteGuard::fresh(first, last),
            }
        }
    }

    /// Whether this write holds `page`, that is, its gate.
    pub open spec fn holds(self, page: int) -> bool {
        match self {
            Write::Empty { .. } => false,
            Write::Guarded { guard, .. } => guard.holds(page),
        }
    }

    /// What the write needs done next.
    pub open spec fn pending(self) -> Action {
        match self {
            Write::Empty { offset, mutated } => if mutated {
                Action::Finish
            } else {
                Action::Mutate { offset, len: 0 }
            },
            Write::Guarded { offset, len, guard } => if guard.phase == GuardPhase::Held {
                Action::Mutate { offset, len }
            } else {
                guard.pending()
            },
        }
    }

    /// The write after `reply`.
    pub open spec fn after(self, reply: Reply) -> Write {
        match self {
            Write::Empty { offset, .. } => Write::Empty { offset, mutated: true },
            Write::Guarded { offset, len, guard } => Write::Guarded {
                offset,
                len,
                guard: match reply {
                    Reply::Flag(flag) => guard.after(flag),
                    Reply::Done => guard.releasing(),
                    _ => guard,
                },
            },
        }
    }

    /// Asks for the write's next action.
    pub fn action(&self) -> (action: Action)
        ensures
            action == self.pending(),
    {
        match self {
            Write::Empty { offset, mutated } => {
                if *mutated {
                    Action::Finish
                } else {
                    Action::Mutate { offset: *offset, len: 0 }
                }
            },
            Write::Guarded { offset, len, guard } => {
                match guard.phase {
                    GuardPhase::Held => Action::Mutate { offset: *offset, len: *len },
                    _ => guard.action(),
                }
            },
        }
    }

    /// Takes the reply to the pending action.
    pub fn step(&mut self, map: &MooMap, reply: Reply)
        requires
            old(self).wf(*map),
            reply.answers(old(self).pending()),
        ensures
            *final(self) == old(self).after(reply),
            final(self).wf(*map),
    {
        match *self {
            Write::Empty { offset, .. } => {
                *self = Write::Empty { offset, mutated: true };
            },
            Write::Guarded { offset, len, guard } => {
                let mut next = guard;
                match reply {
                    Reply::Flag(flag) => {
                        next.step(flag);
                    },
                    Reply::Done => {
                        next.release();
                    },
                    Reply::Wrote(_) => {},
                    Reply::Interrupted => {},
                    Reply::Failed(_) => {},
                }
                *self = Write::Guarded { offset, len, guard: next };
            },
        }
    }
}

/// Copies `bytes` over `target`, as a plain write does at its turn to change
/// its range.
pub fn copy_bytes(target: &mut [u8], bytes: &[u8])
    requires
        old(target)@.len() == bytes@.len(),
    ensures
        final(target)@ == bytes@,
{
    let mut i: usize = 0;
    while i < bytes.len()
        invariant
            i <= bytes@.len(),
            target@.len() == bytes@.len(),
            forall|k: int| 0 <= k < i ==> target@[k] == bytes@[k],
        decreases bytes@.len() - i,
    {
        target[i] = bytes[i];
        i += 1;
    }
}

impl MooMap {
    /// Starts a write of the bytes `offset..offset + len` that holds only the
    /// gates of the pages it touches.
    ///
    /// # Errors
    ///
    /// Refuses a range that exceeds the mapping.
    pub fn write_with(&self, offset: usize, len: usize) -> (result: Result<Write, MapError>)
        requires
            self.wf(),
        ensures
            match result {
                Ok(write) => {
                    &&& offset + len <= self.len
                    &&& write == Write::started(*self, offset, len)
                    &&& write.wf(*self)
                    &&& forall|page: int| !write.holds(page)
                },
                Err(error) => error == MapError::OutOfBounds && offset + len > self.len,
            },
    {
        if offset > self.len || len > self.len - offset {
            return Err(MapError::OutOfBounds);
        }
        if len == 0 {
            return Ok(Write::Empty { offset, mutated: false });
        }
        let end: usize = offset + len;
        let first: usize = offset / self.page_size;
        let last: usize = (end - 1) / self.page_size;
        proof {
            self.byte_is_on_its_page(offset as int);
            self.byte_is_on_its_page(end - 1);
            lemma_div_is_ordered(offset as int, end - 1, self.page_size as int);
        }
        Ok(Write::Guarded { offset, len, guard: WriteGuard::acquire(first, last) })
    }

    /// Starts a write of `bytes` at `offset`; at its turn to change the range
    /// the caller copies `bytes` into it, see [`copy_bytes`].
    ///
    /// # Errors
    ///
    /// Refuses a destination that exceeds the mapping.
    pub fn write(&self, offset: usize, bytes: &[u8]) -> (result: Result<Write, MapError>)
        requires
            self.wf(),
        ensures
            match result {
                Ok(write) => {
                    &&& offset + bytes@.len() <= self.len
                    &&& write == Write::started(*self, offset, bytes.len())
                    &&& write.wf(*self)
                    &&& forall|page: int| !write.holds(page)
                },
                Err(error) => error == MapError::OutOfBounds && offset + bytes@.len() > self.len,
            },
    {
        self.write_with(offset, bytes.len())
    }
}

} // verus!
