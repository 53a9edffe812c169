//! The stress workload: which bytes to change, and when to write back and to
//! reclaim.

use crate::config::{self, Config, GIB};
use crate::map::MapError;
use crate::pressure::MemoryUsage;
use vstd::arithmetic::div_mod::*;
use vstd::arithmetic::mul::*;
use vstd::prelude::*;

verus! {

/// The clocks of a run.
#[derive(Debug, Clone, Copy, PartialEq, Eq, Structural)]
pub enum Timer {
    /// Time since the last periodic write-back.
    WriteBack,
    /// Time since the last reclaim of everything.
    Reclaim,
    /// Time since the last look at the memory counters.
    Memory,
}

/// After this many milliseconds dirty pages are written back.
pub const WRITE_BACK_MILLIS: u128 = 5000;

/// After this many milliseconds every dirty page is reclaimed.
pub const RECLAIM_MILLIS: u128 = 30000;

/// After this many milliseconds the memory counters are looked at.
pub const MEMORY_MILLIS: u128 = 250;

/// The next thing that a run needs done.
#[derive(Debug, Clone, Copy, PartialEq, Eq, Structural)]
pub enum StressAction {
    /// Read `amount` random bytes of data, and two random numbers.
    Fill { amount: usize },
    /// Combine the mapped bytes `offset..offset + amount` with the data.
    Xor { offset: usize, amount: usize },
    /// Read a clock.
    Elapsed(Timer),
    /// Start a clock anew.
    Restart(Timer),
    /// Write dirty pages back.
    WriteBack,
    /// Reclaim up to this many bytes.
    Reclaim { bytes: usize },
    /// Read the memory counters.
    Measure,
    /// Tell the user that this many gibibytes have been worked in.
    Report { gib: u64 },
    /// Nothing more: the run has ended.
    Finish,
}

/// What came of an action.
#[derive(Debug, Clone, Copy, PartialEq, Eq, Structural)]
pub enum StressReply {
    /// The action was carried out.
    Done,
    /// The data is there, with these two random numbers.
    Numbers { first: u64, second: u64 },
    /// The clock shows this many milliseconds.
    Millis(u128),
    /// The memory counters.
    Usage(MemoryUsage),
}

/// What a run is doing.
#[derive(Debug, Clone, Copy, PartialEq, Eq, Structural)]
pub enum StressPhase {
    /// Reading the next chunk of random data.
    Fill,
    /// Working the chunk in at `offset`.
    Xor { offset: usize },
    /// Looking whether a write-back is due.
    WriteBackDue,
    /// Writing back, since it is due.
    WriteBack,
    /// Starting the write-back clock anew.
    WriteBackDone,
    /// Looking whether a reclaim of everything is due.
    ReclaimDue,
    /// Reclaiming everything, since it is due.
    ReclaimAll,
    /// Starting the reclaim clock anew.
    ReclaimDone,
    /// Looking whether a look at the memory counters is due.
    MemoryDue,
    /// Looking at the memory counters.
    Measure,
    /// Reclaiming `bytes` bytes, since memory runs short.
    ReclaimSome { bytes: usize },
    /// Starting the memory clock anew.
    MemoryDone,
    /// Reporting progress.
    Report,
    /// Writing back for the last time.
    LastWriteBack,
    /// Ended.
    Done,
}

impl StressReply {
    /// Whether this is a reply of the kind that `action` calls for.
    pub open spec fn answers(self, action: StressAction) -> bool {
        match action {
            StressAction::Fill { .. } => self is Numbers,
            StressAction::Elapsed(_) => self is Millis,
            StressAction::Measure => self is Usage,
            StressAction::Finish => false,
            _ => self is Done,
        }
    }
}

/// A run of the workload.
#[derive(Debug, Clone, Copy, PartialEq, Eq, Structural)]
pub struct Stress {
    /// The size of the file in bytes.
    pub file_size: usize,
    /// How many bytes to work in.
    pub io_bytes: u64,
    /// How many bytes to work in at a time.
    pub chunk_size: usize,
    /// How many bytes have been worked in.
    pub processed: u64,
    /// The size of the chunk at hand.
    pub amount: usize,
    /// What is being done.
    pub phase: StressPhase,
}

/// Where a chunk goes, given two random numbers: the lower of the two places
/// that they stand for, which favours the beginning of the file mildly.
pub open spec fn place(first: u64, second: u64, max_offset: int) -> int {
    let a = first as int % (max_offset + 1);
    let b = second as int % (max_offset + 1);
    if a < b {
        a
    } else {
        b
    }
}

impl Stress {
    /// The run stays within the file and within its amount.
    pub open spec fn wf(self) -> bool {
        &&& 0 < self.chunk_size <= self.file_size
        &&& self.processed <= self.io_bytes
        &&& self.amount <= self.chunk_size
        &&& match self.phase {
            StressPhase::Fill => self.filling(),
            StressPhase::Xor { offset } => {
                &&& self.filling()
                &&& offset <= self.file_size - self.chunk_size
            },
            StressPhase::LastWriteBack | StressPhase::Done => self.processed == self.io_bytes,
            _ => 0 < self.amount <= self.processed,
        }
    }

    /// A chunk is at hand: a full one, or the last one with what is left.
    pub open spec fn filling(self) -> bool {
        &&& 0 < self.amount
        &&& self.amount == if self.io_bytes - self.processed < self.chunk_size {
            self.io_bytes - self.processed
        } else {
            self.chunk_size as int
        }
    }

    /// What the run needs done next.
    pub open spec fn pending(self) -> StressAction {
        match self.phase {
            StressPhase::Fill => StressAction::Fill { amount: self.amount },
            StressPhase::Xor { offset } => StressAction::Xor { offset, amount: self.amount },
            StressPhase::WriteBackDue => StressAction::Elapsed(Timer::WriteBack),
            StressPhase::WriteBack => StressAction::WriteBack,
            StressPhase::WriteBackDone => StressAction::Restart(Timer::WriteBack),
            StressPhase::ReclaimDue => StressAction::Elapsed(Timer::Reclaim),
            StressPhase::ReclaimAll => StressAction::Reclaim { bytes: usize::MAX },
            StressPhase::ReclaimDone => StressAction::Restart(Timer::Reclaim),
            StressPhase::MemoryDue => StressAction::Elapsed(Timer::Memory),
            StressPhase::Measure => StressAction::Measure,
            StressPhase::ReclaimSome { bytes } => StressAction::Reclaim { bytes },
            StressPhase::MemoryDone => StressAction::Restart(Timer::Memory),
            StressPhase::Report => StressAction::Report { gib: self.processed / GIB },
            StressPhase::LastWriteBack => StressAction::WriteBack,
            StressPhase::Done => StressAction::Finish,
        }
    }

    /// The same run in another phase.
    pub open spec fn entering(self, phase: StressPhase) -> Stress {
        Stress { phase, ..self }
    }

    /// Goes on with the next chunk, or with the last write-back when
    /// everything has been worked in.
    pub open spec fn next_chunk(self) -> Stress {
        let left = self.io_bytes - self.processed;
        if left > 0 {
            let amount = if left < self.chunk_size {
                left
            } else {
                self.chunk_size as int
            };
            Stress { amount: amount as usize, phase: StressPhase::Fill, ..self }
        } else {
            self.entering(StressPhase::LastWriteBack)
        }
    }

    /// Reports progress if the last chunk completed another gibibyte, and goes on.
    pub open spec fn reporting(self) -> Stress {
        if self.processed % GIB < self.amount {
            self.entering(StressPhase::Report)
        } else {
            self.next_chunk()
        }
    }

    /// A run that has not begun.
    pub open spec fn started(file_size: usize, io_bytes: u64, chunk_size: usize) -> Stress {
        Stress {
            file_size,
            io_bytes,
            chunk_size,
            processed: 0,
            amount: 0,
            phase: StressPhase::Fill,
        }.next_chunk()
    }

    /// The run after `reply`.
    pub open spec fn after(self, reply: StressReply) -> Stress {
        match (self.phase, reply) {
            (StressPhase::Fill, StressReply::Numbers { first, second }) => self.entering(
                StressPhase::Xor {
                    offset: place(first, second, self.file_size - self.chunk_size) as usize,
                },
            ),
            (StressPhase::Xor { .. }, _) => Stress {
                processed: (self.processed + self.amount) as u64,
                phase: StressPhase::WriteBackDue,
                ..self
            },
            (StressPhase::WriteBackDue, StressReply::Millis(millis)) => self.entering(
                if millis >= WRITE_BACK_MILLIS {
                    StressPhase::WriteBack
                } else {
                    StressPhase::ReclaimDue
                },
            ),
            (StressPhase::WriteBack, _) => self.entering(StressPhase::WriteBackDone),
            (StressPhase::WriteBackDone, _) => self.entering(StressPhase::ReclaimDue),
            (StressPhase::ReclaimDue, StressReply::Millis(millis)) => self.entering(
                if millis >= RECLAIM_MILLIS {
                    StressPhase::ReclaimAll
                } else {
                    StressPhase::MemoryDue
                },
            ),
            (StressPhase::ReclaimAll, _) => self.entering(StressPhase::ReclaimDone),
            (StressPhase::ReclaimDone, _) => self.entering(StressPhase::MemoryDue),
            (StressPhase::MemoryDue, StressReply::Millis(millis)) => if millis >= MEMORY_MILLIS {
                self.entering(StressPhase::Measure)
            } else {
                self.reporting()
            },
            (StressPhase::Measure, StressReply::Usage(usage)) => {
                let bytes = if usage.pressure() < self.file_size {
                    usage.pressure()
                } else {
                    self.file_size as int
                };
                if bytes != 0 {
                    self.entering(StressPhase::ReclaimSome { bytes: bytes as usize })
                } else {
                    self.entering(StressPhase::MemoryDone)
                }
            },
            (StressPhase::ReclaimSome { .. }, _) => self.entering(StressPhase::MemoryDone),
            (StressPhase::MemoryDone, _) => self.reporting(),
            (StressPhase::Report, _) => self.next_chunk(),
            (StressPhase::LastWriteBack, _) => self.entering(StressPhase::Done),
            _ => self,
        }
    }

    /// Starts a run with these sizes.
    ///
    /// # Errors
    ///
    /// Refuses a file that does not fit the address space.
    pub fn new(config: &Config) -> (result: Result<Stress, MapError>)
        requires
            config::usable(config@),
        ensures
            match result {
                Ok(run) => {
                    &&& config.file_size <= usize::MAX
                    &&& run.wf()
                    &&& run == Stress::started(
                        config.file_size as usize,
                        config.io_bytes,
                        config.chunk_size,
                    )
                },
                Err(error) => error == MapError::FileTooLarge && config.file_size > usize::MAX,
            },
    {
        if config.file_size > usize::MAX as u64 {
            return Err(MapError::FileTooLarge);
        }
        let mut run = Stress {
            file_size: config.file_size as usize,
            io_bytes: config.io_bytes,
            chunk_size: config.chunk_size,
            processed: 0,
            amount: 0,
            phase: StressPhase::Fill,
        };
        run.go_on();
        Ok(run)
    }

    fn go_on(&mut self)
        requires
            0 < old(self).chunk_size <= old(self).file_size,
            old(self).processed <= old(self).io_bytes,
            old(self).amount <= old(self).chunk_size,
        ensures
            *final(self) == old(self).next_chunk(),
            final(self).wf(),
    {
        let left: u64 = self.io_bytes - self.processed;
        if left > 0 {
            self.amount = if left < self.chunk_size as u64 {
                left as usize
            } else {
                self.chunk_size
            };
            self.phase = StressPhase::Fill;
        } else {
            self.phase = StressPhase::LastWriteBack;
        }
    }

    fn report(&mut self)
        requires
            0 < old(self).chunk_size <= old(self).file_size,
            old(self).processed <= old(self).io_bytes,
            old(self).amount <= old(self).chunk_size,
            old(self).amount <= old(self).processed,
        ensures
            *final(self) == old(self).reporting(),
            final(self).wf(),
    {
        if self.processed % GIB < self.amount as u64 {
            self.phase = StressPhase::Report;
        } else {
            self.go_on();
        }
    }

    /// Asks for the next action.
    pub fn action(&self) -> (action: StressAction)
        ensures
            action == self.pending(),
    {
        match self.phase {
            StressPhase::Fill => StressAction::Fill { amount: self.amount },
            StressPhase::Xor { offset } => StressAction::Xor { offset, amount: self.amount },
            StressPhase::WriteBackDue => StressAction::Elapsed(Timer::WriteBack),
            StressPhase::WriteBack => StressAction::WriteBack,
            StressPhase::WriteBackDone => StressAction::Restart(Timer::WriteBack),
            StressPhase::ReclaimDue => StressAction::Elapsed(Timer::Reclaim),
            StressPhase::ReclaimAll => StressAction::Reclaim { bytes: usize::MAX },
            StressPhase::ReclaimDone => StressAction::Restart(Timer::Reclaim),
            StressPhase::MemoryDue => StressAction::Elapsed(Timer::Memory),
            StressPhase::Measure => StressAction::Measure,
            StressPhase::ReclaimSome { bytes } => StressAction::Reclaim { bytes },
            StressPhase::MemoryDone => StressAction::Restart(Timer::Memory),
            StressPhase::Report => StressAction::Report { gib: self.processed / GIB },
            StressPhase::LastWriteBack => StressAction::WriteBack,
            StressPhase::Done => StressAction::Finish,
        }
    }

    /// Takes the reply to the pending action.
    pub fn step(&mut self, reply: StressReply)
        requires
            old(self).wf(),
            reply.answers(old(self).pending()),
        ensures
            *final(self) == old(self).after(reply),
            final(self).wf(),
    {
        match (self.phase, reply) {
            (StressPhase::Fill, StressReply::Numbers { first, second }) => {
                let offset = choose_place(first, second, self.file_size - self.chunk_size);
                self.phase = StressPhase::Xor { offset };
            },
            (StressPhase::Xor { .. }, _) => {
                self.processed = self.processed + self.amount as u64;
                self.phase = StressPhase::WriteBackDue;
            },
            (StressPhase::WriteBackDue, StressReply::Millis(millis)) => {
                self.phase = if millis >= WRITE_BACK_MILLIS {
                    StressPhase::WriteBack
                } else {
                    StressPhase::ReclaimDue
                };
            },
            (StressPhase::WriteBack, _) => {
                self.phase = StressPhase::WriteBackDone;
            },
            (StressPhase::WriteBackDone, _) => {
                self.phase = StressPhase::ReclaimDue;
            },
            (StressPhase::ReclaimDue, StressReply::Millis(millis)) => {
                self.phase = if millis >= RECLAIM_MILLIS {
                    StressPhase::ReclaimAll
                } else {
                    StressPhase::MemoryDue
                };
            },
            (StressPhase::ReclaimAll, _) => {
                self.phase = StressPhase::ReclaimDone;
            },
            (StressPhase::ReclaimDone, _) => {
                self.phase = StressPhase::MemoryDue;
            },
            (StressPhase::MemoryDue, StressReply::Millis(millis)) => {
                if millis >= MEMORY_MILLIS {
                    self.phase = StressPhase::Measure;
                } else {
                    self.report();
                }
            },
            (StressPhase::Measure, StressReply::Usage(usage)) => {
                let bytes = usage.reclaim_bytes(self.file_size as u64);
                self.phase = if bytes != 0 {
                    StressPhase::ReclaimSome { bytes }
                } else {
                    StressPhase::MemoryDone
                };
            },
            (StressPhase::ReclaimSome { .. }, _) => {
                self.phase = StressPhase::MemoryDone;
            },
            (StressPhase::MemoryDone, _) => {
                self.report();
            },
            (StressPhase::Report, _) => {
                self.go_on();
            },
            (StressPhase::LastWriteBack, _) => {
                self.phase = StressPhase::Done;
            },
            _ => {},
        }
    }
}

fn choose_place(first: u64, second: u64, max_offset: usize) -> (offset: usize)
    requires
        max_offset < usize::MAX,
    ensures
        offset == place(first, second, max_offset as int),
        offset <= max_offset,
{
    let places: u64 = max_offset as u64 + 1;
    let a: u64 = first % places;
    let b: u64 = second % places;
    if a < b {
        a as usize
    } else {
        b as usize
    }
}

/// The bytes of `target` combined with those of `random`, as far as both go.
pub open spec fn combined(target: Seq<u8>, random: Seq<u8>) -> Seq<u8> {
    Seq::new(
        target.len(),
        |i: int|
            if i < random.len() {
                target[i] ^ random[i]
            } else {
                target[i]
            },
    )
}

/// Combines `target` with `random`, byte by byte, as far as both go.
pub fn xor(target: &mut [u8], random: &[u8])
    ensures
        final(target)@ == combined(old(target)@, random@),
{
    let mut i: usize = 0;
    while i < target.len() && i < random.len()
        invariant
            target@.len() == old(target)@.len(),
            i <= target@.len(),
            i <= random@.len(),
            forall|k: int| 0 <= k < i ==> target@[k] == old(target)@[k] ^ random@[k],
            forall|k: int| i <= k < target@.len() ==> target@[k] == old(target)@[k],
        decreases random@.len() - i,
    {
        target[i] = target[i] ^ random[i];
        i += 1;
    }
}

/// Working the same data in twice gives the original bytes back.
pub proof fn xor_twice_restores(target: Seq<u8>, random: Seq<u8>)
    ensures
        combined(combined(target, random), random) == target,
{
    assert forall|i: int| 0 <= i < target.len() implies #[trigger] combined(
        combined(target, random),
        random,
    )[i] == target[i] by {
        if i < random.len() {
            let a = target[i];
            let b = random[i];
            assert((a ^ b) ^ b == a) by (bit_vector);
        }
    }
}

/// Returns the size as a file offset, given the platform's largest one; `None`
/// if the size exceeds it.
pub fn allocation_size(size: u64, max_offset: i64) -> (result: Option<i64>)
    ensures
        match result {
            Some(taken) => taken == size && taken <= max_offset,
            None => size > max_offset,
        },
{
    if max_offset < 0 || size > max_offset as u64 {
        None
    } else {
        Some(size as i64)
    }
}

/// What lies between a run and its end: bytes to work in, then steps until the
/// next chunk. Each is compared before the next.
pub open spec fn stress_distance(run: Stress) -> (int, int) {
    let steps = match run.phase {
        StressPhase::Fill => 1int,
        StressPhase::Xor { .. } => 0,
        StressPhase::WriteBackDue => 13,
        StressPhase::WriteBack => 12,
        StressPhase::WriteBackDone => 11,
        StressPhase::ReclaimDue => 10,
        StressPhase::ReclaimAll => 9,
        StressPhase::ReclaimDone => 8,
        StressPhase::MemoryDue => 7,
        StressPhase::Measure => 6,
        StressPhase::ReclaimSome { .. } => 5,
        StressPhase::MemoryDone => 4,
        StressPhase::Report => 3,
        StressPhase::LastWriteBack => 2,
        StressPhase::Done => 1,
    };
    (run.io_bytes - run.processed, steps)
}

/// A run ends: every reply brings it closer to its end. It ends with a
/// write-back, and only after exactly the bytes asked for have been worked in.
pub proof fn run_works_in_everything(run: Stress, reply: StressReply)
    requires
        run.wf(),
        reply.answers(run.pending()),
    ensures
        ({
            let next = run.after(reply);
            let before = stress_distance(run);
            let after = stress_distance(next);
            &&& next.wf()
            &&& next.file_size == run.file_size
            &&& next.io_bytes == run.io_bytes
            &&& next.chunk_size == run.chunk_size
            &&& 0 <= after.0 && 0 <= after.1
            &&& after.0 < before.0 || (after.0 == before.0 && after.1 < before.1)
            &&& next.processed == if run.phase is Xor {
                run.processed + run.amount
            } else {
                run.processed as int
            }
            &&& next.phase is Done ==> {
                &&& run.pending() == StressAction::WriteBack
                &&& next.processed == next.io_bytes
            }
        }),
{
    if run.phase is Fill && reply is Numbers {
        lemma_mod_bound(reply->first as int, run.file_size - run.chunk_size + 1);
        lemma_mod_bound(reply->second as int, run.file_size - run.chunk_size + 1);
    }
}

/// Every chunk lies within the file, whatever the random numbers are: it begins
/// where even a full chunk has room.
pub proof fn chunks_stay_in_the_file(run: Stress)
    requires
        run.wf(),
    ensures
        run.pending() matches StressAction::Xor { offset, amount } ==> {
            &&& 0 < amount <= run.chunk_size
            &&& offset <= run.file_size - run.chunk_size
            &&& offset + amount <= run.file_size
        },
{
}

/// Where a chunk goes: to one of the two places that the numbers stand for, each
/// counted round the places that a chunk has, and to neither but the lower.
pub proof fn place_is_the_lower_of_two(first: u64, second: u64, max_offset: int)
    requires
        0 <= max_offset,
    ensures
        ({
            let places = max_offset + 1;
            let offset = place(first, second, max_offset);
            &&& 0 <= offset <= max_offset
            &&& (first - offset) % places == 0 || (second - offset) % places == 0
            &&& forall|lower: int|
                0 <= lower < offset ==> #[trigger] ((first - lower) % places) != 0 && (second
                    - lower) % places != 0
        }),
{
    let places = max_offset + 1;
    let offset = place(first, second, max_offset);
    let a = first as int % places;
    let b = second as int % places;
    lemma_fundamental_div_mod(first as int, places);
    lemma_fundamental_div_mod(second as int, places);
    lemma_mod_bound(first as int, places);
    lemma_mod_bound(second as int, places);
    remainder_is_the_only_one(first as int, a, places);
    remainder_is_the_only_one(second as int, b, places);
    assert forall|lower: int| 0 <= lower < offset implies #[trigger] ((first - lower) % places) != 0
        && (second - lower) % places != 0 by {
        remainder_is_the_only_one(first as int, lower, places);
        remainder_is_the_only_one(second as int, lower, places);
    }
}

/// A number differs by whole rounds from its remainder, and from no other place.
proof fn remainder_is_the_only_one(number: int, place: int, places: int)
    requires
        0 < places,
        0 <= place < places,
    ensures
        (number - place) % places == 0 <==> place == number % places,
{
    lemma_fundamental_div_mod(number, places);
    if (number - place) % places == 0 {
        let rounds = (number - place) / places;
        lemma_fundamental_div_mod(number - place, places);
        lemma_mul_is_commutative(places, rounds);
        lemma_fundamental_div_mod_converse(number, places, rounds, place);
    }
    if place == number % places {
        lemma_mul_is_commutative(places, number / places);
        lemma_fundamental_div_mod_converse(number - place, places, number / places, 0);
    }
}

/// Every place can be hit: two numbers that both name a place lead there, and
/// exchanging the two numbers changes nothing.
pub proof fn every_place_can_be_hit(max_offset: int, wanted: u64, first: u64, second: u64)
    requires
        0 <= max_offset,
        wanted <= max_offset,
    ensures
        place(wanted, wanted, max_offset) == wanted,
        place(first, second, max_offset) == place(second, first, max_offset),
{
    lemma_small_mod(wanted as nat, (max_offset + 1) as nat);
}

/// Working data in changes each byte by exactly the data's bits, as far as the
/// data goes, and no other byte.
pub proof fn xor_changes_the_bits_of_the_data(target: Seq<u8>, random: Seq<u8>)
    ensures
        combined(target, random).len() == target.len(),
        forall|i: int|
            0 <= i < target.len() && i < random.len() ==> #[trigger] combined(target, random)[i]
                ^ target[i] == random[i],
        forall|i: int|
            random.len() <= i < target.len() ==> #[trigger] combined(target, random)[i]
                == target[i],
{
    assert forall|i: int| 0 <= i < target.len() && i < random.len() implies #[trigger] combined(
        target,
        random,
    )[i] ^ target[i] == random[i] by {
        let a = target[i];
        let b = random[i];
        assert((a ^ b) ^ a == b) by (bit_vector);
    }
}

/// Whether a run that has just dealt with a chunk of `amount` bytes goes on as it
/// should: it reports if the chunk completed another gibibyte, then reads the next
/// chunk; once everything has been worked in it writes back and ends.
pub open spec fn goes_on_behind(run: Stress, amount: int) -> bool {
    let gib = 1073741824int;
    if (run.processed - amount) / gib < run.processed as int / gib {
        &&& run.pending() == (StressAction::Report { gib: (run.processed as int / gib) as u64 })
        &&& takes_the_next_chunk(run.after(StressReply::Done))
        &&& same_progress(run, run.after(StressReply::Done))
    } else {
        takes_the_next_chunk(run)
    }
}

/// Whether a run is about to read the next chunk: a full one, or what is left.
/// With nothing left it is about to write back, and ends behind that.
pub open spec fn takes_the_next_chunk(run: Stress) -> bool {
    let left = run.io_bytes - run.processed;
    if left > 0 {
        run.pending() matches StressAction::Fill { amount } && {
            &&& amount <= left && amount <= run.chunk_size
            &&& amount == left || amount == run.chunk_size
        }
    } else {
        &&& run.pending() == StressAction::WriteBack
        &&& run.after(StressReply::Done).pending() == StressAction::Finish
    }
}

/// Whether two moments belong to the same run, at the same point of its work.
pub open spec fn same_progress(a: Stress, b: Stress) -> bool {
    &&& a.file_size == b.file_size
    &&& a.io_bytes == b.io_bytes
    &&& a.chunk_size == b.chunk_size
    &&& a.processed == b.processed
}

/// A run starts with nothing worked in, and with its first chunk.
pub proof fn run_starts_with_its_first_chunk(file_size: usize, io_bytes: u64, chunk_size: usize)
    requires
        0 < chunk_size <= file_size,
    ensures
        ({
            let run = Stress::started(file_size, io_bytes, chunk_size);
            &&& run.wf()
            &&& run.file_size == file_size
            &&& run.io_bytes == io_bytes
            &&& run.chunk_size == chunk_size
            &&& run.processed == 0
            &&& takes_the_next_chunk(run)
        }),
{
}

/// A chunk that has been read is worked in, in full, at the lower of the two
/// places that its numbers stand for; only then does it count, and the first
/// thing behind it is a look at the write-back clock.
pub proof fn chunk_is_worked_in_where_its_numbers_say(run: Stress, first: u64, second: u64)
    requires
        run.wf(),
        run.pending() is Fill,
    ensures
        ({
            let amount = run.pending()->Fill_amount;
            let drawn = run.after(StressReply::Numbers { first, second });
            let worked = drawn.after(StressReply::Done);
            let places = run.file_size - run.chunk_size + 1;
            &&& takes_the_next_chunk(run)
            &&& 0 < amount
            &&& same_progress(run, drawn)
            &&& drawn.pending() matches StressAction::Xor { offset, amount: taken } && {
                &&& taken == amount
                &&& offset < places
                &&& (first - offset) % places == 0 || (second - offset) % places == 0
                &&& offset <= first as int % places && offset <= second as int % places
            }
            &&& worked.processed == run.processed + amount
            &&& worked.file_size == run.file_size
            &&& worked.io_bytes == run.io_bytes
            &&& worked.chunk_size == run.chunk_size
            &&& worked.amount == amount
            &&& worked.pending() == StressAction::Elapsed(Timer::WriteBack)
        }),
{
    let max_offset = run.file_size - run.chunk_size;
    place_is_the_lower_of_two(first, second, max_offset);
    lemma_mod_bound(first as int, max_offset + 1);
    lemma_mod_bound(second as int, max_offset + 1);
    remainder_is_the_only_one(first as int, first as int % (max_offset + 1), max_offset + 1);
    remainder_is_the_only_one(second as int, second as int % (max_offset + 1), max_offset + 1);
}

/// Five seconds after the last one, and from then on until it has come, a
/// write-back is the very next thing behind a chunk, and its clock starts anew;
/// before that there is none.
pub proof fn write_back_comes_when_due(run: Stress, millis: u128)
    requires
        run.wf(),
        run.pending() == StressAction::Elapsed(Timer::WriteBack),
    ensures
        ({
            let looked = run.after(StressReply::Millis(millis));
            let written = looked.after(StressReply::Done);
            let restarted = written.after(StressReply::Done);
            &&& same_progress(run, looked) && looked.amount == run.amount
            &&& millis < 5000 ==> looked.pending() == StressAction::Elapsed(Timer::Reclaim)
            &&& millis >= 5000 ==> {
                &&& looked.pending() == StressAction::WriteBack
                &&& written.pending() == StressAction::Restart(Timer::WriteBack)
                &&& restarted.pending() == StressAction::Elapsed(Timer::Reclaim)
                &&& same_progress(run, restarted) && restarted.amount == run.amount
            }
        }),
{
}

/// Thirty seconds after the last one, and from then on until it has come, every
/// dirty page is reclaimed behind a chunk, and the clock starts anew; before that
/// none is.
pub proof fn reclaim_comes_when_due(run: Stress, millis: u128)
    requires
        run.wf(),
        run.pending() == StressAction::Elapsed(Timer::Reclaim),
    ensures
        ({
            let looked = run.after(StressReply::Millis(millis));
            let reclaimed = looked.after(StressReply::Done);
            let restarted = reclaimed.after(StressReply::Done);
            &&& same_progress(run, looked) && looked.amount == run.amount
            &&& millis < 30000 ==> looked.pending() == StressAction::Elapsed(Timer::Memory)
            &&& millis >= 30000 ==> {
                &&& looked.pending() == (StressAction::Reclaim { bytes: usize::MAX })
                &&& reclaimed.pending() == StressAction::Restart(Timer::Reclaim)
                &&& restarted.pending() == StressAction::Elapsed(Timer::Memory)
                &&& same_progress(run, restarted) && restarted.amount == run.amount
            }
        }),
{
}

/// A quarter of a second after the last look, and from then on until it has come,
/// the memory counters are looked at behind a chunk, and the clock starts anew.
/// Use above 80% of either limit then leads to a reclaim that would bring both
/// down to 40%, but of no more bytes than the file has; use up to 80% leads to
/// none. After that the run goes on behind its chunk.
pub proof fn memory_is_looked_at_when_due(run: Stress, millis: u128, usage: MemoryUsage)
    requires
        run.wf(),
        run.pending() == StressAction::Elapsed(Timer::Memory),
    ensures
        ({
            let looked = run.after(StressReply::Millis(millis));
            let measured = looked.after(StressReply::Usage(usage));
            let used = if usage.available <= usage.total {
                usage.total - usage.available
            } else {
                0
            };
            let physical_over = used * 100 > usage.total * 80;
            let commit_over = usage.committed * 100 > usage.commit_limit * 80;
            let relieved = if physical_over || commit_over {
                measured.after(StressReply::Done)
            } else {
                measured
            };
            &&& same_progress(run, looked)
            &&& millis < 250 ==> goes_on_behind(looked, run.amount as int)
            &&& millis >= 250 ==> {
                &&& looked.pending() == StressAction::Measure
                &&& physical_over || commit_over ==> {
                    &&& measured.pending() matches StressAction::Reclaim { bytes } && {
                        &&& 0 < bytes <= run.file_size
                        &&& bytes < run.file_size && physical_over ==> used - bytes <= usage.total
                            * 40 / 100
                        &&& bytes < run.file_size && commit_over ==> usage.committed - bytes
                            <= usage.commit_limit * 40 / 100
                        &&& physical_over && used - bytes >= usage.total * 40 / 100 || commit_over
                            && usage.committed - bytes >= usage.commit_limit * 40 / 100
                    }
                }
                &&& relieved.pending() == StressAction::Restart(Timer::Memory)
                &&& same_progress(run, relieved)
                &&& same_progress(run, relieved.after(StressReply::Done))
                &&& goes_on_behind(relieved.after(StressReply::Done), run.amount as int)
            }
        }),
{
}

} // verus!
