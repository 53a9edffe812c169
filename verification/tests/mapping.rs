use moomap::action::{Action, IoFailure, Reply};
use moomap::config::{Config, Mode};
use moomap::map::MapError;
use moomap::page::{Access, PageOp, PageState};
use moomap::pressure::MemoryUsage;
use moomap::reclaim::Reclaim;
use moomap::stress::{xor, Stress, StressAction, StressReply};
use moomap::transfer::{RangeStatus, RangeWrite};
use moomap::write::{copy_bytes, GuardPhase, Write, WriteGuard};
use moomap::write_back::WriteBack;
use moomap::{IoStats, MooMap};

const DIRTY: PageState = PageState {
    dirty: true,
    access: Access::Idle,
};

const CLEAN: PageState = PageState {
    dirty: false,
    access: Access::Idle,
};

/// A kernel that keeps the mapping and the file in plain memory.
struct Kernel {
    map: MooMap,
    pages: Vec<PageState>,
    memory: Vec<u8>,
    file: Vec<u8>,
    /// Replies to give to the next writes to the file, before they succeed.
    trouble: Vec<Reply>,
    /// The reply to give to discards.
    discards: Reply,
    /// The writes to the file that were asked for.
    writes: Vec<(usize, usize)>,
}

impl Kernel {
    fn new(size: usize) -> Kernel {
        let map = MooMap::from_file(size as u64, 4096).unwrap();
        Kernel {
            map,
            pages: map.fresh_pages(),
            memory: vec![0x11; size],
            file: vec![0x11; size],
            trouble: Vec::new(),
            discards: Reply::Done,
            writes: Vec::new(),
        }
    }

    fn perform(&mut self, action: Action) -> Reply {
        match action {
            Action::Page { page, op } => {
                let (next, answer) = self.pages[page].apply(op);
                self.pages[page] = next;
                Reply::Flag(answer)
            }
            Action::WriteFile { offset, len } => {
                self.writes.push((offset, len));
                let reply = self.trouble.pop().unwrap_or(Reply::Wrote(len));
                if let Reply::Wrote(count) = reply {
                    let end = offset + count;
                    self.file[offset..end].copy_from_slice(&self.memory[offset..end]);
                }
                reply
            }
            Action::Discard { offset, len } => {
                if self.discards == Reply::Done {
                    let end = offset + len;
                    self.memory[offset..end].copy_from_slice(&self.file[offset..end]);
                }
                self.discards
            }
            Action::Mutate { .. } | Action::Finish => panic!("not the kernel's work"),
        }
    }

    fn write(&mut self, offset: usize, bytes: &[u8]) -> Result<(), MapError> {
        let map = self.map;
        let mut write = map.write(offset, bytes)?;
        loop {
            let action = write.action();
            let reply = match action {
                Action::Finish => return Ok(()),
                Action::Mutate { offset, len } => {
                    copy_bytes(&mut self.memory[offset..offset + len], bytes);
                    Reply::Done
                }
                _ => self.perform(action),
            };
            write.step(&map, reply);
        }
    }

    fn write_back(&mut self) -> Result<IoStats, IoFailure> {
        let mut operation: WriteBack = self.map.write_back();
        while operation.result().is_none() {
            let reply = self.perform(operation.action());
            operation.step(reply);
        }
        assert_eq!(operation.action(), Action::Finish);
        operation.result().unwrap()
    }

    fn run(&mut self, mut operation: Reclaim) -> Result<IoStats, IoFailure> {
        while operation.result().is_none() {
            let reply = self.perform(operation.action());
            operation.step(reply);
        }
        assert_eq!(operation.action(), Action::Finish);
        operation.result().unwrap()
    }

    fn reclaim(&mut self, max_bytes: usize) -> Result<IoStats, IoFailure> {
        let operation = self.map.reclaim(max_bytes);
        self.run(operation)
    }

    fn reclaim_all(&mut self) -> Result<IoStats, IoFailure> {
        let operation = self.map.reclaim_all();
        self.run(operation)
    }

    fn dirty(&self) -> Vec<usize> {
        (0..self.pages.len())
            .filter(|&page| self.pages[page].dirty)
            .collect()
    }
}

#[test]
fn write_back_updates_file_but_keeps_private_page() {
    let mut kernel = Kernel::new(8192);
    kernel.write(100, &[1, 2, 3, 4]).unwrap();
    assert_eq!(kernel.file[100..104], [0x11; 4]);

    let stats = kernel.write_back().unwrap();
    assert_eq!(stats.pages, 1);
    assert_eq!(kernel.file[100..104], [1, 2, 3, 4]);
    assert_eq!(kernel.memory[100..104], [1, 2, 3, 4]);
    assert_eq!(kernel.pages, [DIRTY, CLEAN]);
}

#[test]
fn reclaim_writes_and_discards_private_pages() {
    let mut kernel = Kernel::new(8192);
    kernel.write(4090, &[7; 20]).unwrap();

    let stats = kernel.reclaim_all().unwrap();
    assert_eq!(stats.pages, 2);
    assert_eq!(kernel.file[4090..4110], [7; 20]);
    assert_eq!(kernel.memory[4090..4110], [7; 20]);
    assert_eq!(kernel.reclaim_all().unwrap(), IoStats::default());
    assert_eq!(kernel.pages, [CLEAN, CLEAN]);
}

#[test]
fn mapping_covers_the_whole_file() {
    let map = MooMap::from_file(8193, 4096).unwrap();
    assert_eq!(map.len(), 8193);
    assert_eq!(map.page_size(), 4096);
    assert_eq!(map.page_count(), 3);
    assert!(!map.is_empty());
    assert_eq!(map.fresh_pages(), [PageState::new(); 3]);
    assert_eq!(map.run_bytes(0, 2), (0, 8192));
    assert_eq!(map.run_bytes(1, 3), (4096, 4097));
    assert_eq!(map.run_bytes(2, 3), (8192, 1));
    assert_eq!(MooMap::from_file(8192, 4096).unwrap().page_count(), 2);
    assert_eq!(MooMap::from_file(1, 4096).unwrap().page_count(), 1);
    if usize::BITS == 64 {
        assert_eq!(MooMap::from_file(u64::MAX, 4096).unwrap().page_count(), 1 << 52);
    } else {
        assert_eq!(MooMap::from_file(u64::MAX, 4096), Err(MapError::FileTooLarge));
    }
}

#[test]
fn files_that_cannot_be_mapped_are_refused() {
    assert_eq!(MooMap::from_file(0, 4096), Err(MapError::EmptyFile));
    assert_eq!(MooMap::from_file(0, -1), Err(MapError::EmptyFile));
    assert_eq!(MooMap::from_file(1, 0), Err(MapError::NoPageSize));
    assert_eq!(MooMap::from_file(1, -1), Err(MapError::NoPageSize));
}

#[test]
fn writes_outside_the_mapping_are_refused() {
    let map = MooMap::from_file(8192, 4096).unwrap();
    assert_eq!(map.write_with(8193, 0), Err(MapError::OutOfBounds));
    assert_eq!(map.write_with(8192, 1), Err(MapError::OutOfBounds));
    assert_eq!(map.write_with(0, 8193), Err(MapError::OutOfBounds));
    assert_eq!(map.write_with(1, usize::MAX), Err(MapError::OutOfBounds));
    assert_eq!(map.write(8190, &[0; 3]), Err(MapError::OutOfBounds));
    assert!(map.write_with(0, 8192).is_ok());
    assert!(map.write(8190, &[0; 2]).is_ok());
}

#[test]
fn empty_write_touches_no_page() {
    let mut kernel = Kernel::new(8192);
    kernel.write(8192, &[]).unwrap();
    assert_eq!(kernel.pages, [CLEAN, CLEAN]);
    let write = kernel.map.write_with(5, 0).unwrap();
    assert_eq!(
        write,
        Write::Empty {
            offset: 5,
            mutated: false
        }
    );
    assert_eq!(write.action(), Action::Mutate { offset: 5, len: 0 });
}

#[test]
fn write_claims_changes_marks_and_opens_in_order() {
    let mut kernel = Kernel::new(3 * 4096);
    let map = kernel.map;
    let mut write = map.write_with(4000, 200).unwrap();
    let mut seen = Vec::new();
    loop {
        let action = write.action();
        seen.push(action);
        let reply = match action {
            Action::Finish => break,
            Action::Mutate { .. } => {
                assert_eq!(kernel.pages[0].access, Access::Writing);
                assert_eq!(kernel.pages[1].access, Access::Writing);
                assert_eq!(kernel.pages[2], CLEAN);
                Reply::Done
            }
            _ => kernel.perform(action),
        };
        write.step(&map, reply);
    }
    let page = |page, op| Action::Page { page, op };
    assert_eq!(
        seen,
        [
            page(0, PageOp::ClaimForWrite),
            page(1, PageOp::ClaimForWrite),
            Action::Mutate {
                offset: 4000,
                len: 200
            },
            page(0, PageOp::SetDirty),
            page(0, PageOp::Release),
            page(1, PageOp::SetDirty),
            page(1, PageOp::Release),
            Action::Finish,
        ]
    );
    assert_eq!(kernel.pages, [DIRTY, DIRTY, CLEAN]);
}

#[test]
fn refused_claim_is_repeated() {
    let mut guard = WriteGuard::acquire(3, 4);
    guard.step(false);
    assert_eq!(guard, WriteGuard::acquire(3, 4));
    guard.step(true);
    assert_eq!(
        guard.action(),
        Action::Page {
            page: 4,
            op: PageOp::ClaimForWrite
        }
    );
    guard.step(true);
    assert_eq!(guard.phase, GuardPhase::Held);
    assert_eq!(guard.action(), Action::Finish);
    guard.release();
    for _ in 0..4 {
        guard.step(true);
    }
    assert_eq!(guard.phase, GuardPhase::Released);
}

#[test]
fn guard_of_no_page_claims_nothing() {
    let mut guard = WriteGuard::acquire(4, 3);
    assert_eq!(guard.phase, GuardPhase::Held);
    assert_eq!(guard.action(), Action::Finish);
    guard.release();
    assert_eq!(guard.phase, GuardPhase::Released);
    assert_eq!(guard.action(), Action::Finish);
}

#[test]
fn a_gate_has_one_holder() {
    let (writing, taken) = PageState::new().apply(PageOp::ClaimForWrite);
    assert!(taken);
    assert_eq!(writing.apply(PageOp::ClaimForWrite), (writing, false));
    assert_eq!(writing.apply(PageOp::ClaimForReclaim), (writing, false));
    assert_eq!(writing.apply(PageOp::Release), (PageState::new(), true));
    let (reclaiming, taken) = DIRTY.apply(PageOp::ClaimForReclaim);
    assert!(taken);
    assert_eq!(reclaiming.access, Access::Reclaiming);
    assert_eq!(reclaiming.apply(PageOp::ClaimForWrite), (reclaiming, false));
    assert_eq!(reclaiming.apply(PageOp::IsDirty), (reclaiming, true));
    assert_eq!(DIRTY.apply(PageOp::ClearDirty), (CLEAN, true));
    assert_eq!(CLEAN.apply(PageOp::SetDirty), (DIRTY, true));
}

#[test]
fn page_states_fit_one_byte() {
    let mut codes = Vec::new();
    for dirty in [false, true] {
        for access in [Access::Idle, Access::Writing, Access::Reclaiming] {
            let state = PageState { dirty, access };
            assert_eq!(PageState::from_bits(state.to_bits()), Some(state));
            codes.push(state.to_bits());
        }
    }
    assert_eq!(codes, [0, 1, 2, 4, 5, 6]);
    for bits in 0..=u8::MAX {
        assert_eq!(PageState::from_bits(bits).is_some(), codes.contains(&bits));
    }
}

#[test]
fn write_back_copies_each_run_once() {
    let mut kernel = Kernel::new(6 * 4096 + 10);
    for page in [0, 1, 3, 5, 6] {
        kernel.write(page * 4096, &[page as u8 + 1]).unwrap();
    }
    let stats = kernel.write_back().unwrap();
    assert_eq!(
        stats,
        IoStats {
            pages: 5,
            runs: 3,
            bytes: 4 * 4096 + 10
        }
    );
    assert_eq!(
        kernel.writes,
        [(0, 8192), (3 * 4096, 4096), (5 * 4096, 4096 + 10)]
    );
    assert_eq!(kernel.file, kernel.memory);
    assert_eq!(kernel.dirty(), [0, 1, 3, 5, 6]);
    assert_eq!(stats.mebibytes(), 0);
    let large = IoStats {
        bytes: 5 * 1024 * 1024 - 1,
        ..stats
    };
    assert_eq!(large.mebibytes(), 4);
}

#[test]
fn short_and_interrupted_writes_go_on() {
    let mut kernel = Kernel::new(8192);
    kernel.write(0, &[9; 8192]).unwrap();
    kernel.trouble = vec![Reply::Wrote(5000), Reply::Interrupted, Reply::Wrote(100)];
    let stats = kernel.write_back().unwrap();
    assert_eq!(stats.bytes, 8192);
    assert_eq!(
        kernel.writes,
        [(0, 8192), (100, 8092), (100, 8092), (5100, 3092)]
    );
    assert_eq!(kernel.file, [9; 8192]);
}

#[test]
fn the_first_write_failure_ends_a_write_back() {
    let mut kernel = Kernel::new(3 * 4096);
    kernel.write(0, &[1]).unwrap();
    kernel.write(2 * 4096, &[1]).unwrap();
    kernel.trouble = vec![Reply::Failed(28)];
    assert_eq!(kernel.write_back(), Err(IoFailure::Os(28)));
    assert_eq!(kernel.writes.len(), 1);
    kernel.trouble = vec![Reply::Wrote(0)];
    assert_eq!(kernel.write_back(), Err(IoFailure::WriteZero));
    assert_eq!(kernel.dirty(), [0, 2]);
}

#[test]
fn a_failed_write_back_has_copied_what_came_before() {
    let mut kernel = Kernel::new(5 * 4096);
    kernel.write(0, &[1; 4096]).unwrap();
    kernel.write(2 * 4096, &[2; 4096]).unwrap();
    kernel.write(4 * 4096, &[3; 4096]).unwrap();
    kernel.trouble = vec![Reply::Failed(5), Reply::Wrote(100), Reply::Wrote(4096)];
    assert_eq!(kernel.write_back(), Err(IoFailure::Os(5)));
    let sent = 2 * 4096 + 100;
    assert_eq!(kernel.file[..sent], kernel.memory[..sent]);
    assert_eq!(kernel.file[sent..], [0x11; 5 * 4096 - (2 * 4096 + 100)]);
    assert_eq!(kernel.dirty(), [0, 2, 4]);
}

#[test]
fn a_failed_reclaim_has_settled_what_came_before() {
    let mut kernel = Kernel::new(5 * 4096);
    kernel.write(0, &[1; 4096]).unwrap();
    kernel.write(2 * 4096, &[2; 8192]).unwrap();
    let before = kernel.memory.clone();
    kernel.trouble = vec![Reply::Wrote(0), Reply::Wrote(100), Reply::Wrote(4096)];
    assert_eq!(kernel.reclaim_all(), Err(IoFailure::WriteZero));
    let sent = 2 * 4096 + 100;
    assert_eq!(kernel.memory, before);
    assert_eq!(kernel.file[..sent], before[..sent]);
    assert_eq!(kernel.file[sent..], [0x11; 5 * 4096 - (2 * 4096 + 100)]);
    assert_eq!(kernel.pages, [CLEAN, CLEAN, DIRTY, DIRTY, CLEAN]);
}

#[test]
fn a_range_write_keeps_count() {
    assert_eq!(RangeWrite::pwrite_range(100, 0), RangeStatus::Complete);
    let range = match RangeWrite::pwrite_range(100, 50) {
        RangeStatus::More(range) => range,
        other => panic!("{other:?}"),
    };
    assert_eq!(
        range.action(),
        Action::WriteFile {
            offset: 100,
            len: 50
        }
    );
    let more = match range.step(Reply::Wrote(20)) {
        RangeStatus::More(more) => more,
        other => panic!("{other:?}"),
    };
    assert_eq!(
        more.action(),
        Action::WriteFile {
            offset: 120,
            len: 30
        }
    );
    assert_eq!(more.step(Reply::Interrupted), RangeStatus::More(more));
    assert_eq!(more.step(Reply::Wrote(30)), RangeStatus::Complete);
    assert_eq!(
        more.step(Reply::Wrote(0)),
        RangeStatus::Failed(IoFailure::WriteZero)
    );
    assert_eq!(
        more.step(Reply::Failed(5)),
        RangeStatus::Failed(IoFailure::Os(5))
    );
}

#[test]
fn reclaim_keeps_to_its_budget() {
    let mut kernel = Kernel::new(6 * 4096);
    for page in [0, 1, 2, 4] {
        kernel.write(page * 4096, &[1]).unwrap();
    }
    assert_eq!(kernel.reclaim(0), Ok(IoStats::default()));
    assert_eq!(kernel.dirty(), [0, 1, 2, 4]);
    assert_eq!(kernel.reclaim(1), Ok(IoStats::default()));
    assert_eq!(kernel.reclaim(4095), Ok(IoStats::default()));
    assert_eq!(kernel.dirty(), [0, 1, 2, 4]);
    assert_eq!(
        kernel.reclaim(4096),
        Ok(IoStats {
            pages: 1,
            runs: 1,
            bytes: 4096
        })
    );
    assert_eq!(kernel.dirty(), [1, 2, 4]);
    assert_eq!(
        kernel.reclaim(3 * 4096),
        Ok(IoStats {
            pages: 3,
            runs: 2,
            bytes: 3 * 4096
        })
    );
    assert_eq!(kernel.file, kernel.memory);
    assert_eq!(kernel.pages, [CLEAN; 6]);
}

#[test]
fn reclaim_cuts_a_run_at_its_limit() {
    let mut kernel = Kernel::new(4 * 4096);
    kernel.write(0, &[3; 4 * 4096]).unwrap();
    let stats = kernel.reclaim(3 * 4096 - 1).unwrap();
    assert_eq!(
        stats,
        IoStats {
            pages: 2,
            runs: 1,
            bytes: 8192
        }
    );
    assert_eq!(kernel.writes, [(0, 8192)]);
    assert_eq!(kernel.pages, [CLEAN, CLEAN, DIRTY, DIRTY]);
}

#[test]
fn reclaim_of_a_short_last_page_keeps_to_its_budget() {
    let mut kernel = Kernel::new(4096 + 10);
    kernel.write(0, &[3; 4096 + 10]).unwrap();
    assert_eq!(kernel.reclaim(4096 + 9).unwrap().bytes, 4096);
    assert_eq!(kernel.pages, [CLEAN, DIRTY]);
    kernel.write(0, &[4]).unwrap();
    assert_eq!(kernel.reclaim(4096 + 10).unwrap().bytes, 4096 + 10);
    assert_eq!(kernel.pages, [CLEAN, CLEAN]);
}

#[test]
fn reclaim_takes_a_short_last_page_that_fits() {
    let mut kernel = Kernel::new(4096 + 10);
    kernel.write(4096, &[3; 10]).unwrap();
    assert_eq!(kernel.reclaim(9), Ok(IoStats::default()));
    assert_eq!(kernel.pages, [CLEAN, DIRTY]);
    assert_eq!(
        kernel.reclaim(10),
        Ok(IoStats {
            pages: 1,
            runs: 1,
            bytes: 10
        })
    );
    assert_eq!(kernel.pages, [CLEAN, CLEAN]);
    assert_eq!(kernel.file, kernel.memory);

    let mut kernel = Kernel::new(3 * 4096 + 10);
    kernel.write(0, &[1]).unwrap();
    kernel.write(3 * 4096, &[1]).unwrap();
    assert_eq!(
        kernel.reclaim(4096 + 10),
        Ok(IoStats {
            pages: 2,
            runs: 2,
            bytes: 4096 + 10
        })
    );
    assert_eq!(kernel.pages, [CLEAN; 4]);
}

#[test]
fn reclaim_ends_at_the_first_page_beyond_its_budget() {
    let mut kernel = Kernel::new(3 * 4096 + 10);
    for page in [0, 1, 3] {
        kernel.write(page * 4096, &[1]).unwrap();
    }
    assert_eq!(
        kernel.reclaim(4096 + 10),
        Ok(IoStats {
            pages: 1,
            runs: 1,
            bytes: 4096
        })
    );
    assert_eq!(kernel.pages, [CLEAN, DIRTY, CLEAN, DIRTY]);
    assert_eq!(kernel.writes, [(0, 4096)]);
}

#[test]
fn reclaim_passes_over_pages_that_writers_hold() {
    let mut kernel = Kernel::new(4 * 4096);
    kernel.write(0, &[3; 4 * 4096]).unwrap();
    kernel.pages[1].access = Access::Writing;
    let stats = kernel.reclaim_all().unwrap();
    assert_eq!(
        stats,
        IoStats {
            pages: 3,
            runs: 2,
            bytes: 3 * 4096
        }
    );
    assert_eq!(kernel.dirty(), [1]);
    assert_eq!(kernel.pages[1].access, Access::Writing);
}

#[test]
fn a_failed_reclaim_opens_its_gates_and_stays_dirty() {
    let mut kernel = Kernel::new(3 * 4096);
    kernel.write(0, &[3; 2 * 4096]).unwrap();
    let before = kernel.memory.clone();
    kernel.trouble = vec![Reply::Failed(5)];
    assert_eq!(kernel.reclaim_all(), Err(IoFailure::Os(5)));
    assert_eq!(kernel.pages, [DIRTY, DIRTY, CLEAN]);
    kernel.discards = Reply::Failed(22);
    assert_eq!(kernel.reclaim_all(), Err(IoFailure::Os(22)));
    assert_eq!(kernel.pages, [DIRTY, DIRTY, CLEAN]);
    assert_eq!(kernel.memory, before);
    kernel.discards = Reply::Done;
    assert_eq!(kernel.reclaim_all().unwrap().pages, 2);
    assert_eq!(kernel.memory, before);
}

#[test]
fn a_writer_waits_for_a_reclaim_of_its_page_only() {
    let mut kernel = Kernel::new(2 * 4096);
    let map = kernel.map;
    kernel.write(0, &[1; 100]).unwrap();
    let mut reclaim = map.reclaim_all();
    while !matches!(reclaim.action(), Action::Discard { .. }) {
        let reply = kernel.perform(reclaim.action());
        reclaim.step(reply);
    }
    let here = map.write_with(50, 1).unwrap();
    assert_eq!(kernel.perform(here.action()), Reply::Flag(false));
    let elsewhere = map.write_with(4096, 1).unwrap();
    assert_eq!(kernel.perform(elsewhere.action()), Reply::Flag(true));
    kernel.pages[1].access = Access::Idle;
    while reclaim.result().is_none() {
        let reply = kernel.perform(reclaim.action());
        reclaim.step(reply);
    }
    assert_eq!(kernel.perform(here.action()), Reply::Flag(true));
}

#[test]
fn a_read_gives_back_what_was_written() {
    let mut kernel = Kernel::new(10000);
    let bytes: Vec<u8> = (0..200).collect();
    kernel.write(4000, &bytes).unwrap();
    assert_eq!(kernel.memory[4000..4200], bytes);
    kernel.write_back().unwrap();
    assert_eq!(kernel.memory[4000..4200], bytes);
    kernel.reclaim_all().unwrap();
    assert_eq!(kernel.memory[4000..4200], bytes);
    assert_eq!(kernel.file[4000..4200], bytes);
    assert_eq!(kernel.memory[..4000], [0x11; 4000]);
}

#[test]
fn overlapping_writers_take_turns() {
    let mut kernel = Kernel::new(3 * 4096);
    let map = kernel.map;
    let mut first = map.write_with(4096, 8192).unwrap();
    let mut second = map.write_with(0, 4097).unwrap();
    let mut advance = |write: &mut Write| {
        let action = write.action();
        let reply = match action {
            Action::Mutate { .. } => Reply::Done,
            _ => kernel.perform(action),
        };
        write.step(&map, reply);
        reply
    };
    assert_eq!(advance(&mut first), Reply::Flag(true));
    assert_eq!(advance(&mut second), Reply::Flag(true));
    // The second writer waits for page 1; the first needs nothing of it.
    assert_eq!(advance(&mut second), Reply::Flag(false));
    assert_eq!(advance(&mut first), Reply::Flag(true));
    assert_eq!(advance(&mut second), Reply::Flag(false));
    assert_eq!(advance(&mut first), Reply::Done);
    assert_eq!(advance(&mut first), Reply::Flag(true));
    assert_eq!(advance(&mut second), Reply::Flag(false));
    assert_eq!(advance(&mut first), Reply::Flag(true));
    // Page 1 is open again, although the first writer is not through.
    assert_eq!(advance(&mut second), Reply::Flag(true));
    assert_eq!(
        second.action(),
        Action::Mutate {
            offset: 0,
            len: 4097
        }
    );
}

#[test]
fn write_back_saves_pages_that_no_writer_holds() {
    let mut kernel = Kernel::new(3 * 4096);
    let map = kernel.map;
    for page in 0..3 {
        kernel.write(page * 4096, &[page as u8 + 1; 50]).unwrap();
    }
    let writer = map.write_with(4096, 4096).unwrap();
    assert_eq!(kernel.perform(writer.action()), Reply::Flag(true));
    let mut flush = map.write_back();
    while flush.result().is_none() {
        let reply = kernel.perform(flush.action());
        flush.step(reply);
        // The writer is at its turn all the while.
        kernel.memory[4096..2 * 4096].fill(9);
    }
    // One more change, behind the write-back.
    kernel.memory[4096] = 10;
    assert_eq!(flush.result().unwrap().unwrap().pages, 3);
    assert_eq!(kernel.file[..4096], kernel.memory[..4096]);
    assert_eq!(kernel.file[2 * 4096..], kernel.memory[2 * 4096..]);
    assert_ne!(kernel.file[4096], kernel.memory[4096]);
    assert!(kernel.pages[1].dirty);
}

#[test]
fn reclaim_meets_every_page_beside_a_writer() {
    let mut kernel = Kernel::new(4 * 4096);
    let map = kernel.map;
    for page in [0, 1, 3] {
        kernel.write(page * 4096, &[1; 50]).unwrap();
    }
    let mut writer = map.write_with(4096, 1).unwrap();
    let mut reclaim = map.reclaim_all();
    let mut refused = Vec::new();
    let mut clean = Vec::new();
    let mut reclaimed = Vec::new();
    // The writer claims page 1 before the reclaim gets there.
    let reply = kernel.perform(writer.action());
    writer.step(&map, reply);
    while reclaim.result().is_none() {
        let action = reclaim.action();
        let reply = kernel.perform(action);
        match (action, reply) {
            (Action::Page { page, op: PageOp::ClaimForReclaim }, Reply::Flag(false)) => {
                refused.push(page)
            }
            (Action::Page { page, op: PageOp::IsDirty }, Reply::Flag(false)) => clean.push(page),
            (Action::Page { page, op: PageOp::ClearDirty }, _) => reclaimed.push(page),
            _ => {}
        }
        reclaim.step(reply);
    }
    assert_eq!(refused, [1, 1]);
    assert_eq!(clean, [2]);
    assert_eq!(reclaimed, [0, 3]);
    assert_eq!(reclaim.result().unwrap().unwrap().pages, 2);
}

#[test]
fn write_back_beside_a_reclaim_is_a_flush() {
    let mut kernel = Kernel::new(5 * 4096);
    for page in [0, 1, 3, 4] {
        kernel.write(page * 4096 + 7, &[page as u8 + 1; 9]).unwrap();
    }
    let before = kernel.memory.clone();
    let mut flush = kernel.map.write_back();
    let mut reclaim = kernel.map.reclaim_all();
    while flush.result().is_none() || reclaim.result().is_none() {
        if flush.result().is_none() {
            let reply = kernel.perform(flush.action());
            flush.step(reply);
        }
        for _ in 0..3 {
            if reclaim.result().is_none() {
                let reply = kernel.perform(reclaim.action());
                reclaim.step(reply);
            }
        }
    }
    assert!(flush.result().unwrap().is_ok());
    assert_eq!(kernel.memory, before);
    assert_eq!(kernel.file, before);
    assert_eq!(kernel.pages, [CLEAN; 5]);
}

/// Runs the workload over a blank file. Every look at a clock shows `millis`,
/// and memory is always short.
fn stressed(mode: Mode, millis: u128) -> Vec<u8> {
    let config = Config {
        mode,
        path: String::new(),
        file_size: 3 * 4096 + 5,
        io_bytes: 50_000,
        chunk_size: 700,
    };
    let mut kernel = Kernel::new(config.file_size as usize);
    kernel.memory.fill(0);
    kernel.file.fill(0);
    let mut stress = Stress::new(&config).unwrap();
    let mut seed: u64 = 1;
    let mut draw = || {
        seed = seed.wrapping_mul(6364136223846793005).wrapping_add(1442695040888963407);
        seed >> 11
    };
    let mut data = Vec::new();
    loop {
        let reply = match stress.action() {
            StressAction::Fill { amount } => {
                data = (0..amount).map(|_| draw() as u8).collect();
                StressReply::Numbers {
                    first: draw(),
                    second: draw(),
                }
            }
            StressAction::Xor { offset, amount } => {
                assert!(offset <= 3 * 4096 + 5 - 700);
                if mode == Mode::Mmap {
                    xor(&mut kernel.file[offset..offset + amount], &data);
                } else {
                    let mut bytes = kernel.memory[offset..offset + amount].to_vec();
                    xor(&mut bytes, &data);
                    kernel.write(offset, &bytes).unwrap();
                }
                StressReply::Done
            }
            StressAction::WriteBack => {
                if mode == Mode::MooMap {
                    kernel.write_back().unwrap();
                }
                StressReply::Done
            }
            StressAction::Reclaim { bytes } => {
                if mode == Mode::MooMap {
                    kernel.reclaim(bytes).unwrap();
                }
                StressReply::Done
            }
            StressAction::Elapsed(_) => StressReply::Millis(millis),
            StressAction::Measure => StressReply::Usage(MemoryUsage {
                total: 10_000,
                available: 0,
                commit_limit: 10_000,
                committed: 0,
            }),
            StressAction::Restart(_) | StressAction::Report { .. } => StressReply::Done,
            StressAction::Finish => return kernel.file,
        };
        stress.step(reply);
    }
}

#[test]
fn modes_leave_the_same_file() {
    let wanted = stressed(Mode::Mmap, 0);
    assert!(wanted.iter().any(|&byte| byte != 0));
    for millis in [0, 250, 5000, 30000] {
        assert_eq!(stressed(Mode::MooMap, millis), wanted);
    }
}
