//! The shape of a mapping: its length, its page size and its pages.

use crate::page::PageState;
use vstd::arithmetic::div_mod::*;
use vstd::arithmetic::mul::*;
use vstd::prelude::*;

verus! {

/// Why a request on a mapping was refused.
#[derive(Debug, Clone, Copy, PartialEq, Eq, Structural)]
pub enum MapError {
    /// The file is longer than the address space.
    FileTooLarge,
    /// The file is empty.
    EmptyFile,
    /// The operating system gave no page size.
    NoPageSize,
    /// A write does not lie within the mapping.
    OutOfBounds,
}

/// A writable, private mapping of an entire file, as the operations on it see it.
///
/// The file remains the durable source of truth. Private pages stay resident
/// after a write-back, and are returned to the kernel only by a reclaim.
#[derive(Debug, Clone, Copy, PartialEq, Eq, Structural)]
pub struct MooMap {
    /// Length of the mapped file in bytes.
    pub len: usize,
    /// Size of a base page in bytes.
    pub page_size: usize,
    /// Number of base pages, the last of which may be cut short by the file's end.
    pub page_count: usize,
}

impl MooMap {
    /// A mapping is not empty, and its pages cover it exactly.
    pub open spec fn wf(self) -> bool {
        &&& 0 < self.len
        &&& 0 < self.page_size
        &&& 0 < self.page_count
        &&& (self.page_count - 1) * self.page_size < self.len
        &&& self.len <= self.page_count * self.page_size
    }

    /// The byte at which page `page` begins; for the page past the last, the
    /// end of the mapping.
    pub open spec fn boundary(self, page: int) -> int {
        if page * self.page_size < self.len {
            page * self.page_size
        } else {
            self.len as int
        }
    }

    /// Whether byte `at` lies on a page in `first..end`.
    pub open spec fn on_pages(self, at: int, first: int, end: int) -> bool {
        self.boundary(first) <= at < self.boundary(end)
    }

    /// Maps a whole file of `file_len` bytes in pages of `page_size` bytes,
    /// both as the operating system reports them.
    ///
    /// # Errors
    ///
    /// Refuses a file that does not fit the address space, an empty file, and
    /// a page size that is not positive, in this order.
    pub fn from_file(file_len: u64, page_size: isize) -> (result: Result<MooMap, MapError>)
        ensures
            match result {
                Ok(map) => {
                    &&& 0 < file_len <= usize::MAX
                    &&& 0 < page_size
                    &&& map.wf()
                    &&& map.len == file_len
                    &&& map.page_size == page_size
                },
                Err(MapError::FileTooLarge) => file_len > usize::MAX,
                Err(MapError::EmptyFile) => file_len == 0,
                Err(MapError::NoPageSize) => 0 < file_len <= usize::MAX && page_size <= 0,
                Err(MapError::OutOfBounds) => false,
            },
    {
        if file_len > usize::MAX as u64 {
            return Err(MapError::FileTooLarge);
        }
        let len: usize = file_len as usize;
        if len == 0 {
            return Err(MapError::EmptyFile);
        }
        if page_size <= 0 {
            return Err(MapError::NoPageSize);
        }
        let page_size: usize = page_size as usize;
        let before_last: usize = (len - 1) / page_size;
        proof {
            lemma_fundamental_div_mod(len - 1, page_size as int);
            lemma_mul_is_commutative(page_size as int, before_last as int);
            lemma_mul_is_distributive_add_other_way(page_size as int, before_last as int, 1);
            assert(before_last < len) by {
                lemma_div_is_ordered_by_denominator(len - 1, 1, page_size as int);
            }
        }
        Ok(MooMap { len, page_size, page_count: before_last + 1 })
    }

    /// Returns the mapped file length in bytes.
    pub fn len(&self) -> (len: usize)
        ensures
            len == self.len,
    {
        self.len
    }

    /// Returns whether the mapping is empty.
    ///
    /// Empty files are refused, so this always returns `false`.
    pub fn is_empty(&self) -> (empty: bool)
        ensures
            !empty,
            self.wf() ==> empty == (self.len == 0),
    {
        false
    }

    /// Returns the operating system's base-page size.
    pub fn page_size(&self) -> (size: usize)
        ensures
            size == self.page_size,
    {
        self.page_size
    }

    /// Returns the number of base pages.
    pub fn page_count(&self) -> (count: usize)
        ensures
            count == self.page_count,
    {
        self.page_count
    }

    /// Returns the states of the pages of a mapping that has just been made.
    pub fn fresh_pages(&self) -> (pages: Vec<PageState>)
        ensures
            pages@.len() == self.page_count,
            forall|page: int|
                0 <= page < self.page_count ==> #[trigger] pages@[page] == PageState::fresh(),
    {
        let mut pages: Vec<PageState> = Vec::new();
        while pages.len() < self.page_count
            invariant
                pages@.len() <= self.page_count,
                forall|page: int|
                    0 <= page < pages@.len() ==> #[trigger] pages@[page] == PageState::fresh(),
            decreases self.page_count - pages@.len(),
        {
            pages.push(PageState::new());
        }
        pages
    }

    /// Returns the first byte of the run of pages `start..end`, and its length.
    pub fn run_bytes(&self, start: usize, end: usize) -> (result: (usize, usize))
        requires
            self.wf(),
            start < end <= self.page_count,
        ensures
            result.0 == self.boundary(start as int),
            result.0 == start * self.page_size,
            result.0 + result.1 == self.boundary(end as int),
            0 < result.1,
    {
        proof {
            self.boundary_inside(start as int);
            self.boundary_is_ordered(start as int, end as int);
        }
        let offset: usize = start * self.page_size;
        let stop: usize = if end < self.page_count {
            proof {
                self.boundary_inside(end as int);
            }
            end * self.page_size
        } else {
            self.len
        };
        (offset, stop - offset)
    }

    /// Inside the mapping a page begins at its number times the page size.
    pub proof fn boundary_inside(self, page: int)
        requires
            self.wf(),
            0 <= page < self.page_count,
        ensures
            self.boundary(page) == page * self.page_size,
            0 <= page * self.page_size < self.len,
    {
        lemma_mul_inequality(page, self.page_count - 1, self.page_size as int);
        lemma_mul_nonnegative(page, self.page_size as int);
    }

    /// The pages cover the mapping from its first byte to its last.
    pub proof fn boundary_ends(self)
        requires
            self.wf(),
        ensures
            self.boundary(0) == 0,
            self.boundary(self.page_count as int) == self.len,
    {
        lemma_mul_basics(self.page_size as int);
    }

    /// Page boundaries grow with the page number, strictly inside the mapping.
    pub proof fn boundary_is_ordered(self, p: int, q: int)
        requires
            self.wf(),
            0 <= p <= q,
        ensures
            0 <= self.boundary(p) <= self.boundary(q) <= self.len,
            p < q && p < self.page_count ==> self.boundary(p) < self.boundary(q),
    {
        lemma_mul_inequality(p, q, self.page_size as int);
        lemma_mul_nonnegative(p, self.page_size as int);
        if p < q && p < self.page_count {
            self.boundary_inside(p);
            lemma_mul_strict_inequality(p, q, self.page_size as int);
        }
    }

    /// Every byte of the mapping lies on exactly one page: the one that
    /// dividing by the page size gives.
    pub proof fn byte_is_on_its_page(self, at: int)
        requires
            self.wf(),
            0 <= at < self.len,
        ensures
            0 <= at / (self.page_size as int) < self.page_count,
            self.on_pages(at, at / (self.page_size as int), at / (self.page_size as int) + 1),
            forall|page: int|
                0 <= page && #[trigger] self.on_pages(at, page, page + 1) ==> page == at / (
                self.page_size as int),
    {
        let size = self.page_size as int;
        let page = at / size;
        lemma_fundamental_div_mod(at, size);
        lemma_mul_is_commutative(size, page);
        lemma_mul_is_distributive_add_other_way(size, page, 1);
        lemma_div_pos_is_pos(at, size);
        if page >= self.page_count {
            lemma_mul_inequality(self.page_count as int, page, size);
        }
        assert forall|other: int|
            0 <= other && #[trigger] self.on_pages(at, other, other + 1) implies other == page by {
            if other < page {
                self.boundary_is_ordered(other + 1, page);
            } else if other > page {
                self.boundary_is_ordered(page + 1, other);
            }
        }
    }

    /// The page on which byte `at` lies.
    pub open spec fn page_of(self, at: int) -> int {
        at / (self.page_size as int)
    }

    /// A byte lies between two page boundaries exactly when its page lies
    /// between the two pages.
    pub proof fn pages_and_bytes_agree(self, at: int, first: int, end: int)
        requires
            self.wf(),
            0 <= at < self.len,
            0 <= first <= end <= self.page_count,
        ensures
            self.on_pages(at, first, end) <==> first <= self.page_of(at) < end,
            0 <= self.page_of(at) < self.page_count,
    {
        let page = self.page_of(at);
        self.byte_is_on_its_page(at);
        if page < first {
            self.boundary_is_ordered(page + 1, first);
        } else {
            self.boundary_is_ordered(first, page);
        }
        if page < end {
            self.boundary_is_ordered(page + 1, end);
        } else {
            self.boundary_is_ordered(end, page);
        }
    }
}

} // verus!
