//! Copying one contiguous range of the mapping into the file.

use crate::action::{Action, IoFailure, Reply};
use vstd::prelude::*;

verus! {

/// A range on its way into the file: the bytes `offset..offset + len`, of
/// which the first `written` have arrived.
#[derive(Debug, Clone, Copy, PartialEq, Eq, Structural)]
pub struct RangeWrite {
    /// First byte of the range.
    pub offset: usize,
    /// Length of the range in bytes.
    pub len: usize,
    /// Bytes that the file has accepted so far.
    pub written: usize,
}

/// Where a range write stands.
#[derive(Debug, Clone, Copy, PartialEq, Eq, Structural)]
pub enum RangeStatus {
    /// Bytes remain to be written.
    More(RangeWrite),
    /// The whole range is in the file.
    Complete,
    /// The range could not be written.
    Failed(IoFailure),
}

impl RangeWrite {
    /// The range lies within the address space and is not complete.
    pub open spec fn wf(self) -> bool {
        &&& self.written < self.len
        &&& self.offset + self.len <= usize::MAX
    }

    /// A range of which nothing has been written.
    pub open spec fn fresh(offset: usize, len: usize) -> RangeWrite {
        RangeWrite { offset, len, written: 0 }
    }

    /// The bytes that are still missing from the file.
    pub open spec fn pending(self) -> Action {
        Action::WriteFile {
            offset: (self.offset + self.written) as usize,
            len: (self.len - self.written) as usize,
        }
    }

    /// Where the range stands after `reply`: an interrupted call is made
    /// again, a short write goes on behind the bytes it wrote, and a write of
    /// nothing is an error.
    pub open spec fn after(self, reply: Reply) -> RangeStatus {
        match reply {
            Reply::Wrote(count) => if count == 0 {
                RangeStatus::Failed(IoFailure::WriteZero)
            } else if count < self.len - self.written {
                RangeStatus::More(
                    RangeWrite {
                        offset: self.offset,
                        len: self.len,
                        written: (self.written + count) as usize,
                    },
                )
            } else {
                RangeStatus::Complete
            },
            Reply::Failed(errno) => RangeStatus::Failed(IoFailure::Os(errno)),
            _ => RangeStatus::More(self),
        }
    }

    /// Starts writing the bytes `offset..offset + len` to the file. An empty
    /// range is complete at once.
    pub fn pwrite_range(offset: usize, len: usize) -> (status: RangeStatus)
        requires
            offset + len <= usize::MAX,
        ensures
            status == if len == 0 {
                RangeStatus::Complete
            } else {
                RangeStatus::More(RangeWrite::fresh(offset, len))
            },
            status matches RangeStatus::More(range) ==> range.wf(),
    {
        if len == 0 {
            RangeStatus::Complete
        } else {
            RangeStatus::More(RangeWrite { offset, len, written: 0 })
        }
    }

    /// Asks for the bytes that are still missing.
    pub fn action(&self) -> (action: Action)
        requires
            self.wf(),
        ensures
            action == self.pending(),
            action == (Action::WriteFile {
                offset: (self.offset + self.written) as usize,
                len: (self.len - self.written) as usize,
            }),
    {
        Action::WriteFile { offset: self.offset + self.written, len: self.len - self.written }
    }

    /// Takes the reply to the pending write.
    pub fn step(&self, reply: Reply) -> (status: RangeStatus)
        requires
            self.wf(),
            reply.answers(self.pending()),
        ensures
            status == self.after(reply),
            status matches RangeStatus::More(next) ==> next.wf(),
            status is Complete <==> (reply matches Reply::Wrote(count) && count >= self.len
                - self.written),
            status is Failed <==> reply is Failed || reply == Reply::Wrote(0),
    {
        match reply {
            Reply::Wrote(count) => {
                if count == 0 {
                    RangeStatus::Failed(IoFailure::WriteZero)
                } else if count < self.len - self.written {
                    RangeStatus::More(
                        RangeWrite {
                            offset: self.offset,
                            len: self.len,
                            written: self.written + count,
                        },
                    )
                } else {
                    RangeStatus::Complete
                }
            },
            Reply::Failed(errno) => RangeStatus::Failed(IoFailure::Os(errno)),
            Reply::Interrupted => RangeStatus::More(*self),
            Reply::Flag(_) => RangeStatus::More(*self),
            Reply::Done => RangeStatus::More(*self),
        }
    }
}

/// A range arrives in order and in full: each call asks for exactly the bytes
/// behind those that have arrived, up to the end of the range; a short write moves
/// on by as many bytes as it wrote; the range is complete once nothing is missing.
pub proof fn range_arrives_in_order(range: RangeWrite, reply: Reply)
    requires
        range.wf(),
        reply.answers(range.pending()),
    ensures
        range.pending() matches Action::WriteFile { offset, len } && {
            &&& offset == range.offset + range.written
            &&& offset + len == range.offset + range.len
            &&& match reply {
                Reply::Wrote(count) => if count == 0 {
                    range.after(reply) == RangeStatus::Failed(IoFailure::WriteZero)
                } else if count >= len {
                    range.after(reply) == RangeStatus::Complete
                } else {
                    range.after(reply) matches RangeStatus::More(next) && next.pending() == (
                    Action::WriteFile {
                        offset: (offset + count) as usize,
                        len: (len - count) as usize,
                    }) && next.offset == range.offset && next.len == range.len
                },
                Reply::Failed(errno) => range.after(reply) == RangeStatus::Failed(
                    IoFailure::Os(errno),
                ),
                _ => range.after(reply) == RangeStatus::More(range),
            }
        },
        RangeWrite::fresh(range.offset, range.len).pending() == (Action::WriteFile {
            offset: range.offset,
            len: range.len,
        }),
{
}

} // verus!
