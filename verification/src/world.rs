//! What the actions do: the page states, the mapped bytes and the file, seen
//! as values.

use crate::action::{Action, Reply};
use crate::map::MooMap;
use crate::page::{Access, PageState};
use vstd::prelude::*;

verus! {

/// The page states, the bytes that a reader of the mapping sees, and the bytes
/// of the file.
#[verifier::ext_equal]
pub struct World {
    /// The state of each page.
    pub pages: Seq<PageState>,
    /// The bytes that the mapping shows.
    pub memory: Seq<u8>,
    /// The bytes of the file.
    pub file: Seq<u8>,
}

/// The bytes of `to`, with those in `from..end` taken from `source`.
pub open spec fn overlaid(to: Seq<u8>, source: Seq<u8>, from: int, end: int) -> Seq<u8> {
    Seq::new(
        to.len(),
        |at: int|
            if from <= at < end {
                source[at]
            } else {
                to[at]
            },
    )
}

impl World {
    /// The world has the shape of `map`.
    pub open spec fn wf(self, map: MooMap) -> bool {
        &&& self.pages.len() == map.page_count
        &&& self.memory.len() == map.len
        &&& self.file.len() == map.len
    }

    /// A mapping of `file` that nobody has touched: it shows the file.
    pub open spec fn mapped(map: MooMap, file: Seq<u8>) -> World {
        World {
            pages: Seq::new(map.page_count as nat, |page: int| PageState::fresh()),
            memory: file,
            file,
        }
    }

    /// The mapping and the file agree on the bytes `from..end`.
    pub open spec fn synced(self, from: int, end: int) -> bool {
        forall|at: int| from <= at < end ==> #[trigger] self.memory[at] == self.file[at]
    }

    /// The mapping and the file agree on every page that is clean and that no
    /// writer holds.
    pub open spec fn clean_pages_synced(self, map: MooMap) -> bool {
        forall|at: int|
            0 <= at < map.len && !self.pages[map.page_of(at)].dirty && self.pages[map.page_of(
                at,
            )].access != Access::Writing ==> #[trigger] self.memory[at] == self.file[at]
    }

    /// Whether carrying out `action` with the outcome `reply` can turn this
    /// world into `next`.
    ///
    /// A page operation is indivisible. A change of mapped bytes stays within
    /// its range. A write to the file copies the bytes that the mapping shows,
    /// as many as it reports. Discarded bytes show the file again; a discard
    /// that fails may have got anywhere.
    pub open spec fn allows(self, action: Action, reply: Reply, next: World) -> bool {
        &&& reply.answers(action)
        &&& match action {
            Action::Page { page, op } => {
                &&& reply == Reply::Flag(self.pages[page as int].answer(op))
                &&& next.pages == self.pages.update(
                    page as int,
                    self.pages[page as int].after(op),
                )
                &&& next.memory == self.memory
                &&& next.file == self.file
            },
            Action::Mutate { offset, len } => self.touched(offset as int, offset + len, next),
            Action::WriteFile { offset, len } => {
                &&& next.pages == self.pages
                &&& next.memory == self.memory
                &&& match reply {
                    Reply::Wrote(count) => {
                        &&& count <= len
                        &&& next.file == overlaid(
                            self.file,
                            self.memory,
                            offset as int,
                            offset + count,
                        )
                    },
                    _ => next.file == self.file,
                }
            },
            Action::Discard { offset, len } => {
                &&& next.pages == self.pages
                &&& next.file == self.file
                &&& next.memory.len() == self.memory.len()
                &&& match reply {
                    Reply::Done => next.memory == overlaid(
                        self.memory,
                        self.file,
                        offset as int,
                        offset + len,
                    ),
                    _ => forall|at: int|
                        0 <= at < self.memory.len() ==> #[trigger] next.memory[at]
                            == self.memory[at] || (offset <= at < offset + len && next.memory[at]
                            == self.file[at]),
                }
            },
            Action::Finish => false,
        }
    }

    /// Whether `next` differs at most in the mapped bytes `from..end`.
    pub open spec fn touched(self, from: int, end: int, next: World) -> bool {
        &&& next.pages == self.pages
        &&& next.file == self.file
        &&& next.memory.len() == self.memory.len()
        &&& forall|at: int|
            0 <= at < self.memory.len() && !(from <= at < end) ==> #[trigger] next.memory[at]
                == self.memory[at]
    }
}

} // verus!
