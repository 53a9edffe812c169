//! The state of one base page: whether it is dirty, and who holds its gate.

use vstd::prelude::*;

verus! {

/// Who holds a page, by holding its gate.
#[derive(Debug, Clone, Copy, PartialEq, Eq, Structural)]
pub enum Access {
    /// Nobody: a writer or a reclaim may take it.
    Idle,
    /// One writer.
    Writing,
    /// One reclaim.
    Reclaiming,
}

/// The tracked state of one base page.
#[derive(Debug, Clone, Copy, PartialEq, Eq, Structural)]
pub struct PageState {
    /// Whether the page may differ from the file.
    pub dirty: bool,
    /// Who holds the page's gate.
    pub access: Access,
}

/// One indivisible operation on the state of a page.
#[derive(Debug, Clone, Copy, PartialEq, Eq, Structural)]
pub enum PageOp {
    /// Take the page for a writer, if it is idle.
    ClaimForWrite,
    /// Take the page for a reclaim, if it is idle.
    ClaimForReclaim,
    /// Give the page back.
    Release,
    /// Read the dirty flag.
    IsDirty,
    /// Set the dirty flag.
    SetDirty,
    /// Clear the dirty flag.
    ClearDirty,
}

impl PageState {
    /// The state of a page that nobody has touched: clean, and with an idle gate.
    pub open spec fn fresh() -> PageState {
        PageState { dirty: false, access: Access::Idle }
    }

    /// The state of a page that nobody has touched.
    pub fn new() -> (state: PageState)
        ensures
            state == PageState::fresh(),
            !state.dirty,
            state.access == Access::Idle,
    {
        PageState { dirty: false, access: Access::Idle }
    }

    /// The same page with its gate held as `access` says.
    pub open spec fn with_access(self, access: Access) -> PageState {
        PageState { dirty: self.dirty, access }
    }

    /// The same page with its dirty flag as given.
    pub open spec fn with_dirty(self, dirty: bool) -> PageState {
        PageState { dirty, access: self.access }
    }

    /// The state that `op` leaves behind.
    pub open spec fn after(self, op: PageOp) -> PageState {
        match op {
            PageOp::ClaimForWrite => if self.access == Access::Idle {
                self.with_access(Access::Writing)
            } else {
                self
            },
            PageOp::ClaimForReclaim => if self.access == Access::Idle {
                self.with_access(Access::Reclaiming)
            } else {
                self
            },
            PageOp::Release => self.with_access(Access::Idle),
            PageOp::IsDirty => self,
            PageOp::SetDirty => self.with_dirty(true),
            PageOp::ClearDirty => self.with_dirty(false),
        }
    }

    /// What `op` answers: whether a claim succeeded, the dirty flag for a
    /// read, `true` for a plain store.
    pub open spec fn answer(self, op: PageOp) -> bool {
        match op {
            PageOp::ClaimForWrite | PageOp::ClaimForReclaim => self.access == Access::Idle,
            PageOp::IsDirty => self.dirty,
            PageOp::Release | PageOp::SetDirty | PageOp::ClearDirty => true,
        }
    }

    /// Performs `op`: the state it leaves behind, and its answer.
    pub fn apply(self, op: PageOp) -> (result: (PageState, bool))
        ensures
            result.0 == self.after(op),
            result.1 == self.answer(op),
    {
        let idle = match self.access {
            Access::Idle => true,
            Access::Writing => false,
            Access::Reclaiming => false,
        };
        match op {
            PageOp::ClaimForWrite => if idle {
                (PageState { dirty: self.dirty, access: Access::Writing }, true)
            } else {
                (self, false)
            },
            PageOp::ClaimForReclaim => if idle {
                (PageState { dirty: self.dirty, access: Access::Reclaiming }, true)
            } else {
                (self, false)
            },
            PageOp::Release => (PageState { dirty: self.dirty, access: Access::Idle }, true),
            PageOp::IsDirty => (self, self.dirty),
            PageOp::SetDirty => (PageState { dirty: true, access: self.access }, true),
            PageOp::ClearDirty => (PageState { dirty: false, access: self.access }, true),
        }
    }

    /// The number that stands for this state in a single byte: the holder of
    /// its gate, plus four for a dirty page.
    pub open spec fn code(self) -> int {
        (match self.access {
            Access::Idle => 0int,
            Access::Writing => 1int,
            Access::Reclaiming => 2int,
        }) + (if self.dirty {
            4int
        } else {
            0int
        })
    }

    /// This state as a single byte, so that it fits one atomic cell.
    pub fn to_bits(self) -> (bits: u8)
        ensures
            bits == self.code(),
    {
        let holder: u8 = match self.access {
            Access::Idle => 0,
            Access::Writing => 1,
            Access::Reclaiming => 2,
        };
        if self.dirty {
            holder + 4
        } else {
            holder
        }
    }

    /// The state that a byte stands for; `None` for a byte that stands for no state.
    pub fn from_bits(bits: u8) -> (state: Option<PageState>)
        ensures
            match state {
                Some(s) => s.code() == bits,
                None => forall|s: PageState| #[trigger] s.code() != bits,
            },
    {
        if bits == 0 {
            Some(PageState { dirty: false, access: Access::Idle })
        } else if bits == 1 {
            Some(PageState { dirty: false, access: Access::Writing })
        } else if bits == 2 {
            Some(PageState { dirty: false, access: Access::Reclaiming })
        } else if bits == 4 {
            Some(PageState { dirty: true, access: Access::Idle })
        } else if bits == 5 {
            Some(PageState { dirty: true, access: Access::Writing })
        } else if bits == 6 {
            Some(PageState { dirty: true, access: Access::Reclaiming })
        } else {
            None
        }
    }
}

/// The single-byte form loses nothing: two states with one byte are equal, so
/// reading a state back from its byte gives that state.
pub proof fn code_is_injective(a: PageState, b: PageState)
    requires
        a.code() == b.code(),
    ensures
        a == b,
{
}

/// A gate has one holder: a claim succeeds only on an idle gate, and once it
/// has succeeded every further claim is refused until its release.
pub proof fn claim_excludes(state: PageState, claim: PageOp, other: PageOp)
    requires
        claim is ClaimForWrite || claim is ClaimForReclaim,
        other is ClaimForWrite || other is ClaimForReclaim,
        state.answer(claim),
    ensures
        state.access == Access::Idle,
        !state.after(claim).answer(other),
        state.after(claim).after(other) == state.after(claim),
        state.after(claim).after(PageOp::Release) == state,
{
}

/// Each operation does one thing: reading changes nothing, storing a flag leaves
/// the holder alone, claims and releases leave the flag alone, and what was stored
/// is what is read.
pub proof fn operations_do_one_thing(state: PageState)
    ensures
        state.after(PageOp::IsDirty) == state,
        state.answer(PageOp::IsDirty) <==> state.dirty,
        state.after(PageOp::SetDirty).dirty,
        !state.after(PageOp::ClearDirty).dirty,
        state.after(PageOp::SetDirty).access == state.access,
        state.after(PageOp::ClearDirty).access == state.access,
        state.after(PageOp::ClaimForWrite).dirty == state.dirty,
        state.after(PageOp::ClaimForReclaim).dirty == state.dirty,
        state.after(PageOp::Release).dirty == state.dirty,
        state.after(PageOp::Release).access == Access::Idle,
        state.access == Access::Idle ==> {
            &&& state.answer(PageOp::ClaimForWrite)
            &&& state.answer(PageOp::ClaimForReclaim)
            &&& state.after(PageOp::ClaimForWrite).access == Access::Writing
            &&& state.after(PageOp::ClaimForReclaim).access == Access::Reclaiming
        },
        state.access != Access::Idle ==> {
            &&& !state.answer(PageOp::ClaimForWrite)
            &&& !state.answer(PageOp::ClaimForReclaim)
            &&& state.after(PageOp::ClaimForWrite) == state
            &&& state.after(PageOp::ClaimForReclaim) == state
        },
        !PageState::fresh().dirty,
        PageState::fresh().access == Access::Idle,
{
}

/// Every state's number fits a single byte.
pub proof fn codes_fit_a_byte(state: PageState)
    ensures
        0 <= state.code() <= u8::MAX,
{
}

} // verus!
