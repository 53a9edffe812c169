//! How much memory to give back.

use vstd::prelude::*;

verus! {

/// Memory counters of the machine, in bytes.
#[derive(Debug, Clone, Copy, PartialEq, Eq, Structural)]
pub struct MemoryUsage {
    /// Physical memory.
    pub total: u64,
    /// Physical memory that can still be used.
    pub available: u64,
    /// How much memory may be committed.
    pub commit_limit: u64,
    /// How much memory is committed.
    pub committed: u64,
}

/// What use above 40% of `limit` amounts to, once use exceeds 80% of it;
/// before that, nothing.
pub open spec fn excess(used: int, limit: int) -> int {
    if used * 100 <= limit * 80 {
        0
    } else {
        used - limit * 40 / 100
    }
}

fn excess_at_high_water(used: u64, limit: u64) -> (bytes: u64)
    ensures
        bytes == excess(used as int, limit as int),
{
    if used as u128 * 100 <= limit as u128 * 80 {
        return 0;
    }
    used - (limit as u128 * 40 / 100) as u64
}

impl MemoryUsage {
    /// Physical memory in use.
    pub open spec fn used(self) -> int {
        if self.available <= self.total {
            self.total - self.available
        } else {
            0
        }
    }

    /// The larger of the two excesses.
    pub open spec fn pressure(self) -> int {
        let physical = excess(self.used(), self.total as int);
        let commit = excess(self.committed as int, self.commit_limit as int);
        if physical < commit {
            commit
        } else {
            physical
        }
    }

    /// Returns how many bytes to reclaim, at most `maximum`: the larger of the
    /// physical and the commit excess.
    pub fn reclaim_bytes(self, maximum: u64) -> (bytes: usize)
        ensures
            bytes == if self.pressure() <= maximum && self.pressure() <= usize::MAX {
                self.pressure()
            } else if maximum <= usize::MAX {
                maximum as int
            } else {
                usize::MAX as int
            },
            bytes <= maximum,
            self.available <= self.total && (self.total - self.available) * 100 > self.total * 80
                ==> bytes >= self.total - self.available - self.total * 40 / 100 || bytes == maximum
                || bytes == usize::MAX,
            self.committed * 100 > self.commit_limit * 80 ==> bytes >= self.committed
                - self.commit_limit * 40 / 100 || bytes == maximum || bytes == usize::MAX,
    {
        let physical: u64 = excess_at_high_water(
            self.total.saturating_sub(self.available),
            self.total,
        );
        let commit: u64 = excess_at_high_water(self.committed, self.commit_limit);
        let larger: u64 = if physical < commit {
            commit
        } else {
            physical
        };
        let capped: u64 = if larger < maximum {
            larger
        } else {
            maximum
        };
        if capped > usize::MAX as u64 {
            usize::MAX
        } else {
            capped as usize
        }
    }
}

/// Up to both high-water marks nothing is reclaimed, the marks themselves included.
pub proof fn idle_up_to_high_water(usage: MemoryUsage)
    requires
        usage.used() * 100 <= usage.total * 80,
        usage.committed * 100 <= usage.commit_limit * 80,
    ensures
        usage.pressure() == 0,
{
}

/// Above the high-water mark there is something to give back, and giving it
/// back leaves exactly 40% of the limit in use.
pub proof fn excess_leads_to_low_water(used: int, limit: int)
    requires
        0 <= limit,
        limit * 80 < used * 100,
    ensures
        used - excess(used, limit) == limit * 40 / 100,
        0 < excess(used, limit),
{
}

/// Giving the pressure back relieves both sides: afterwards neither physical use
/// nor commit, where it exceeded 80% of its limit, is above 40% of it. No more is
/// given back than the worse side needs, and nothing if neither exceeds its mark.
pub proof fn pressure_relieves_both_sides(usage: MemoryUsage)
    ensures
        ({
            let bytes = usage.pressure();
            let used = if usage.available <= usage.total {
                usage.total - usage.available
            } else {
                0
            };
            let physical_over = used * 100 > usage.total * 80;
            let commit_over = usage.committed * 100 > usage.commit_limit * 80;
            &&& physical_over ==> used - bytes <= usage.total * 40 / 100
            &&& commit_over ==> usage.committed - bytes <= usage.commit_limit * 40 / 100
            &&& physical_over || commit_over ==> {
                ||| physical_over && used - bytes == usage.total * 40 / 100
                ||| commit_over && usage.committed - bytes == usage.commit_limit * 40 / 100
            }
            &&& !physical_over && !commit_over <==> bytes == 0
            &&& 0 <= bytes <= u64::MAX
        }),
{
}

/// Pressure follows use: with the same limits, less available memory or more
/// committed memory never asks for fewer bytes.
pub proof fn pressure_grows_with_use(a: MemoryUsage, b: MemoryUsage)
    requires
        a.total == b.total,
        a.commit_limit == b.commit_limit,
        b.available <= a.available,
        a.committed <= b.committed,
    ensures
        a.pressure() <= b.pressure(),
{
}

/// Each side counts for itself: without commit the pressure is that of physical
/// use, and without use of physical memory it is that of commit. The two sides
/// count alike, so exchanging them changes nothing.
pub proof fn sides_count_alike(a: MemoryUsage, b: MemoryUsage)
    requires
        a.available <= a.total,
        b.available <= b.total,
        b.total == a.commit_limit,
        b.total - b.available == a.committed,
        b.commit_limit == a.total,
        b.committed == a.total - a.available,
    ensures
        a.pressure() == b.pressure(),
{
}

} // verus!
