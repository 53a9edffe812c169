//! What holds of a shared mapping, whatever its users do and in whatever order.

use crate::action::{Action, IoFailure, Reply};
use crate::map::MooMap;
use crate::page::{Access, PageOp};
use crate::reclaim::{self, Reclaim, ReclaimPhase};
use crate::stats::IoStats;
use crate::system::{self, Actor, System};
use crate::write_back::{WriteBack, WriteBackPhase};
use vstd::prelude::*;

verus! {

/// The states that a mapping goes through, one step after the other.
pub open spec fn execution(run: Seq<System>) -> bool {
    &&& 0 < run.len()
    &&& forall|k: int| 0 <= k < run.len() - 1 ==> #[trigger] linked(run, k)
}

/// State `k + 1` of a run follows from state `k`.
pub open spec fn linked(run: Seq<System>, k: int) -> bool {
    run[k].steps_to(run[k + 1])
}

/// Whether some writer is at its turn to change byte `at`.
pub open spec fn written_at(sys: System, at: int) -> bool {
    exists|i: int| 0 <= i < sys.actors.len() && may_write(#[trigger] sys.actors[i], at)
}

/// Whether `actor` is a writer at its turn to change byte `at`.
pub open spec fn may_write(actor: Actor, at: int) -> bool {
    actor.pending() matches Action::Mutate { offset, len } && offset <= at < offset + len
}

/// Whether some write has begun and not ended.
pub open spec fn has_writer(sys: System) -> bool {
    exists|i: int| 0 <= i < sys.actors.len() && unfinished_writer(#[trigger] sys.actors[i])
}

/// Whether `actor` is a write that has not ended.
pub open spec fn unfinished_writer(actor: Actor) -> bool {
    actor is Writer && actor.pending() != Action::Finish
}

/// Every state of a run that starts in a valid state is valid.
pub proof fn run_keeps_invariant(run: Seq<System>, k: int)
    requires
        execution(run),
        run[0].inv(),
        0 <= k < run.len(),
    ensures
        run[k].inv(),
        run[k].map == run[0].map,
    decreases k,
{
    if k > 0 {
        run_keeps_invariant(run, k - 1);
        assert(linked(run, k - 1));
        system::step_keeps_invariant(run[k - 1], run[k]);
    }
}

/// One step changes a mapped byte only if a writer is at its turn on that byte.
pub proof fn step_changes_only_written_bytes(sys: System, next: System, at: int)
    requires
        sys.inv(),
        sys.steps_to(next),
        0 <= at < sys.map.len,
        !written_at(sys, at),
    ensures
        next.world.memory[at] == sys.world.memory[at],
{
    if exists|i: int, reply: Reply| #[trigger] sys.advances(i, reply, next) {
        let (i, reply) = choose|i: int, reply: Reply| #[trigger] sys.advances(i, reply, next);
        let actor = sys.actors[i];
        system::bytes_change_under_gates(sys.map, actor, reply, sys.world, next.world);
    }
}

/// Readers are not disturbed: as long as no writer is at work on a byte, the
/// mapping shows the same byte, whatever write-backs and reclaims do meanwhile.
pub proof fn readers_see_only_writes(run: Seq<System>, at: int)
    requires
        execution(run),
        run[0].inv(),
        0 <= at < run[0].map.len,
        forall|k: int| 0 <= k < run.len() - 1 ==> !written_at(#[trigger] run[k], at),
    ensures
        run.last().world.memory[at] == run[0].world.memory[at],
    decreases run.len(),
{
    if run.len() > 1 {
        let shorter = run.drop_last();
        assert forall|k: int| 0 <= k < shorter.len() - 1 implies #[trigger] linked(
            shorter,
            k,
        ) by {
            assert(linked(run, k));
        }
        readers_see_only_writes(shorter, at);
        let k = run.len() - 2;
        run_keeps_invariant(run, k);
        assert(linked(run, k));
        step_changes_only_written_bytes(run[k], run[k + 1], at);
    }
}

/// A read gives back what was written: once a writer has put `bytes` into its
/// range, the mapping shows them for as long as no writer is at work there.
pub proof fn write_is_read_back(run: Seq<System>, i: int, offset: int, bytes: Seq<u8>)
    requires
        execution(run),
        run.len() > 1,
        run[0].inv(),
        run[0].advances(i, Reply::Done, run[1]),
        run[0].actors[i].pending() == (Action::Mutate {
            offset: offset as usize,
            len: bytes.len() as usize,
        }),
        0 <= offset,
        offset + bytes.len() <= run[0].map.len,
        run[1].world.memory.subrange(offset, offset + bytes.len()) == bytes,
        forall|k: int, at: int|
            1 <= k < run.len() - 1 && offset <= at < offset + bytes.len() ==> !#[trigger] written_at(
                run[k],
                at,
            ),
    ensures
        run.last().world.memory.subrange(offset, offset + bytes.len()) == bytes,
{
    let rest = run.skip(1);
    run_keeps_invariant(run, 1);
    run_keeps_invariant(run, run.len() - 1);
    assert forall|k: int| 0 <= k < rest.len() - 1 implies #[trigger] linked(rest, k) by {
        assert(linked(run, k + 1));
    }
    assert forall|at: int| offset <= at < offset + bytes.len() implies #[trigger] run.last().world.memory[at]
        == bytes[at - offset] by {
        readers_see_only_writes(rest, at);
        assert(run[1].world.memory.subrange(offset, offset + bytes.len())[at - offset]
            == bytes[at - offset]);
    }
}

/// Writers that touch a common page take turns: two of them are never at their
/// turn together.
pub proof fn overlapping_writers_take_turns(sys: System, i: int, j: int, a: int, b: int)
    requires
        sys.inv(),
        0 <= i < sys.actors.len(),
        0 <= j < sys.actors.len(),
        i != j,
        may_write(sys.actors[i], a),
        may_write(sys.actors[j], b),
    ensures
        sys.map.page_of(a) != sys.map.page_of(b),
{
    system::writer_holds_its_bytes(sys.map, sys.actors[i], a);
    system::writer_holds_its_bytes(sys.map, sys.actors[j], b);
}

/// There is no global lock: a claim is refused only while another operation
/// holds that very page.
pub proof fn claims_wait_only_for_their_page(sys: System, i: int)
    requires
        sys.inv(),
        0 <= i < sys.actors.len(),
    ensures
        sys.actors[i].pending() matches Action::Page { page, op } ==> (op is ClaimForWrite || op
            is ClaimForReclaim) && !sys.world.pages[page as int].answer(op) ==> exists|j: int|
            0 <= j < sys.actors.len() && j != i && #[trigger] sys.actors[j].holds(page as int),
{
    let actor = sys.actors[i];
    match actor.pending() {
        Action::Page { page, op } => {
            if (op is ClaimForWrite || op is ClaimForReclaim) && !sys.world.pages[page as int].answer(op) {
                system::gates_follow_actions(sys.map, actor, Reply::Flag(true));
            }
        },
        _ => {},
    }
}

/// From its write to its discard, a run of a reclaim is closed: no writer is
/// at its turn on any of its bytes, and once it has been written the file
/// holds what the mapping shows.
pub proof fn reclaimed_run_is_closed(sys: System, i: int, at: int)
    requires
        sys.inv(),
        0 <= i < sys.actors.len(),
        sys.actors[i] matches Actor::Reclaimer(r) && (r.phase is Copy || r.phase is Discard
            || r.phase is Clean) && sys.map.boundary(r.start as int) <= at < sys.map.boundary(
            r.page as int,
        ),
    ensures
        !written_at(sys, at),
        !(sys.actors[i]->Reclaimer_0.phase is Copy) ==> sys.world.memory[at]
            == sys.world.file[at],
{
    let actor = sys.actors[i];
    match actor {
        Actor::Reclaimer(reclaim) => {
            system::reclaim_holds_its_bytes(sys.map, reclaim, at);
            assert(actor.holds(sys.map.page_of(at)));
        },
        _ => {},
    }
    if written_at(sys, at) {
        let j = choose|j: int|
            0 <= j < sys.actors.len() && may_write(#[trigger] sys.actors[j], at);
        system::writer_holds_its_bytes(sys.map, sys.actors[j], at);
    }
}

/// No write is lost: a page that is clean, and that no writer holds, is in the
/// file as the mapping shows it; and a page that a writer opens again is dirty.
pub proof fn unsaved_pages_are_dirty(sys: System, i: int)
    requires
        sys.inv(),
    ensures
        forall|at: int|
            0 <= at < sys.map.len && #[trigger] sys.world.memory[at] != sys.world.file[at] ==> {
                let state = sys.world.pages[sys.map.page_of(at)];
                state.dirty || state.access == Access::Writing
            },
        0 <= i < sys.actors.len() && sys.actors[i] is Writer ==> (
        sys.actors[i].pending() matches Action::Page { page, op } ==> op is Release
            ==> sys.world.pages[page as int].dirty),
{
}

/// An operation that has ended holds no gate, whether it succeeded or failed;
/// when all have ended, every gate is idle.
pub proof fn ended_operations_hold_nothing(sys: System)
    requires
        sys.inv(),
    ensures
        forall|i: int, page: int|
            0 <= i < sys.actors.len() && sys.actors[i].pending() == Action::Finish
                ==> !#[trigger] sys.actors[i].holds(page),
        (forall|i: int|
            0 <= i < sys.actors.len() ==> (#[trigger] sys.actors[i]).pending() == Action::Finish)
            ==> forall|page: int|
            0 <= page < sys.map.page_count ==> (#[trigger] sys.world.pages[page]).access
                == Access::Idle,
{
}

/// A step of a write-back changes neither the mapping nor any page state: it
/// gates nobody, and dirty flags stay set. It changes the file only to what
/// the mapping shows.
pub proof fn write_back_only_copies(sys: System, i: int, reply: Reply, next: System)
    requires
        sys.inv(),
        sys.advances(i, reply, next),
        sys.actors[i] is Flusher,
    ensures
        next.world.memory == sys.world.memory,
        next.world.pages == sys.world.pages,
        forall|at: int|
            0 <= at < sys.map.len && #[trigger] next.world.file[at] != sys.world.file[at]
                ==> next.world.file[at] == sys.world.memory[at],
{
    let actor = sys.actors[i];
    system::bytes_change_under_gates(sys.map, actor, reply, sys.world, next.world);
}

/// Whether some writer holds `page`; a writer at its turn holds every page that
/// it may change.
pub open spec fn writer_on(sys: System, page: int) -> bool {
    exists|i: int|
        0 <= i < sys.actors.len() && sys.actors[i] is Writer && #[trigger] sys.actors[i].holds(page)
}

/// While no writer holds a page, no step parts the mapping from the file where
/// they agree on that page.
proof fn quiet_page_keeps_agreement(sys: System, next: System, at: int)
    requires
        sys.inv(),
        sys.steps_to(next),
        0 <= at < sys.map.len,
        !writer_on(sys, sys.map.page_of(at)),
        sys.world.memory[at] == sys.world.file[at],
    ensures
        next.world.memory[at] == next.world.file[at],
{
    if written_at(sys, at) {
        let j = choose|j: int|
            0 <= j < sys.actors.len() && may_write(#[trigger] sys.actors[j], at);
        system::writer_holds_its_bytes(sys.map, sys.actors[j], at);
    }
    step_changes_only_written_bytes(sys, next, at);
    if exists|i: int, reply: Reply| #[trigger] sys.advances(i, reply, next) {
        let (i, reply) = choose|i: int, reply: Reply| #[trigger] sys.advances(i, reply, next);
        system::bytes_change_under_gates(sys.map, sys.actors[i], reply, sys.world, next.world);
    }
}

/// On a clean page that no writer holds, the mapping and the file agree.
pub proof fn quiet_clean_page_is_synced(sys: System, page: int)
    requires
        sys.inv(),
        0 <= page < sys.map.page_count,
        !writer_on(sys, page),
        !sys.world.pages[page].dirty,
    ensures
        sys.world.synced(sys.map.boundary(page), sys.map.boundary(page + 1)),
{
    sys.map.boundary_is_ordered(page, page + 1);
    assert forall|at: int|
        sys.map.boundary(page) <= at < sys.map.boundary(
            page + 1,
        ) implies #[trigger] sys.world.memory[at] == sys.world.file[at] by {
        sys.map.pages_and_bytes_agree(at, page, page + 1);
    }
}

/// How much of the mapping a write-back has certainly brought into the file.
pub open spec fn flushed_to(flush: WriteBack) -> int {
    match flush.phase {
        WriteBackPhase::Probe => flush.map.boundary(flush.page as int),
        WriteBackPhase::Extend => flush.map.boundary(flush.start as int),
        WriteBackPhase::Copy(range) => range.offset + range.written,
        WriteBackPhase::Done(Ok(_)) => flush.map.len as int,
        WriteBackPhase::Done(Err(_)) => 0,
    }
}

/// Whether the mapping and the file agree on the bytes of `page` that a
/// write-back has left behind.
pub open spec fn flushed_on(sys: System, flush: WriteBack, page: int) -> bool {
    forall|at: int|
        sys.map.boundary(page) <= at < sys.map.boundary(page + 1) && at < flushed_to(flush)
            ==> #[trigger] sys.world.memory[at] == sys.world.file[at]
}

/// While no writer holds `page`, every step of a write-back brings the part of
/// the page behind it into the file.
proof fn quiet_flush_makes_progress(
    sys: System,
    i: int,
    reply: Reply,
    next: System,
    flush: WriteBack,
    page: int,
)
    requires
        sys.inv(),
        0 <= page < sys.map.page_count,
        !writer_on(sys, page),
        sys.advances(i, reply, next),
        sys.actors[i] == Actor::Flusher(flush),
        flushed_on(sys, flush, page),
    ensures
        flushed_on(next, flush.after(reply), page),
{
    let map = sys.map;
    write_back_only_copies(sys, i, reply, next);
    map.boundary_ends();
    map.boundary_is_ordered(flush.page as int, flush.page + 1);
    if flush.phase is Probe && flush.page == page && !sys.world.pages[page].dirty {
        quiet_clean_page_is_synced(sys, page);
    }
    if flush.page < page {
        map.boundary_is_ordered(flush.page + 1, page);
    } else if page < flush.page {
        map.boundary_is_ordered(page + 1, flush.page as int);
    }
}

/// While no writer holds `page`, no step takes back what a write-back has
/// brought into the file of it.
proof fn quiet_flush_keeps_agreement(sys: System, next: System, flush: WriteBack, page: int)
    requires
        sys.inv(),
        sys.steps_to(next),
        next.map == sys.map,
        0 <= page < sys.map.page_count,
        !writer_on(sys, page),
        flushed_on(sys, flush, page),
    ensures
        flushed_on(next, flush, page),
{
    let map = sys.map;
    assert forall|at: int|
        map.boundary(page) <= at < map.boundary(page + 1) && at < flushed_to(
            flush,
        ) implies #[trigger] next.world.memory[at] == next.world.file[at] by {
        map.pages_and_bytes_agree(at, page, page + 1);
        quiet_page_keeps_agreement(sys, next, at);
    }
}

/// Along a run during which no writer holds `page`, the part of the page behind
/// a write-back is in the file.
proof fn quiet_flush_reaches(run: Seq<System>, i: int, page: int, k: int)
    requires
        execution(run),
        run[0].inv(),
        0 <= i < run[0].actors.len(),
        run[0].actors[i] == Actor::Flusher(WriteBack::started(run[0].map)),
        0 <= page < run[0].map.page_count,
        forall|k: int| 0 <= k < run.len() - 1 ==> !writer_on(#[trigger] run[k], page),
        0 <= k < run.len(),
    ensures
        i < run[k].actors.len(),
        run[k].actors[i] matches Actor::Flusher(flush) && flushed_on(run[k], flush, page),
    decreases k,
{
    run[0].map.boundary_ends();
    run[0].map.boundary_is_ordered(0, page);
    if k > 0 {
        quiet_flush_reaches(run, i, page, k - 1);
        run_keeps_invariant(run, k - 1);
        run_keeps_invariant(run, k);
        let sys = run[k - 1];
        let next = run[k];
        assert(linked(run, k - 1));
        let flush = sys.actors[i]->Flusher_0;
        if exists|j: int, reply: Reply| #[trigger] sys.advances(j, reply, next) {
            let (j, reply) = choose|j: int, reply: Reply| #[trigger] sys.advances(j, reply, next);
            if j == i {
                quiet_flush_makes_progress(sys, i, reply, next, flush, page);
            } else {
                quiet_flush_keeps_agreement(sys, next, flush, page);
            }
        } else {
            quiet_flush_keeps_agreement(sys, next, flush, page);
        }
    }
}

/// What a write-back brings into the file beside writers: a page that no writer
/// holds while the write-back runs is in the file, as the mapping shows it, once
/// the write-back has ended well, whatever happens on other pages and whatever
/// other write-backs and reclaims do.
pub proof fn write_back_saves_quiet_pages(run: Seq<System>, i: int, page: int, stats: IoStats)
    requires
        execution(run),
        run[0].inv(),
        0 <= i < run[0].actors.len(),
        run[0].actors[i] == Actor::Flusher(WriteBack::started(run[0].map)),
        0 <= page < run[0].map.page_count,
        forall|k: int| 0 <= k < run.len() - 1 ==> !writer_on(#[trigger] run[k], page),
        i < run.last().actors.len(),
        run.last().actors[i] matches Actor::Flusher(flush) && flush.outcome() == Some(
            Ok::<IoStats, IoFailure>(stats),
        ),
    ensures
        run.last().world.synced(
            run[0].map.boundary(page),
            run[0].map.boundary(page + 1),
        ),
{
    let last = run.len() - 1;
    quiet_flush_reaches(run, i, page, last);
    run_keeps_invariant(run, last);
    run[0].map.boundary_is_ordered(page, page + 1);
}

/// A strong flush: while no write is in progress, a write-back that ends well
/// leaves the file equal to the mapping, whatever other write-backs and
/// reclaims do beside it.
pub proof fn write_back_without_writers_is_a_flush(run: Seq<System>, i: int, stats: IoStats)
    requires
        execution(run),
        run[0].inv(),
        0 <= i < run[0].actors.len(),
        run[0].actors[i] == Actor::Flusher(WriteBack::started(run[0].map)),
        forall|k: int| 0 <= k < run.len() - 1 ==> !has_writer(#[trigger] run[k]),
        i < run.last().actors.len(),
        run.last().actors[i] matches Actor::Flusher(flush) && flush.outcome() == Some(
            Ok::<IoStats, IoFailure>(stats),
        ),
    ensures
        run.last().world.file == run.last().world.memory,
{
    let map = run[0].map;
    let world = run.last().world;
    run_keeps_invariant(run, run.len() - 1);
    assert forall|at: int| 0 <= at < map.len implies #[trigger] world.file[at]
        == world.memory[at] by {
        let page = map.page_of(at);
        map.byte_is_on_its_page(at);
        assert forall|k: int| 0 <= k < run.len() - 1 implies !writer_on(#[trigger] run[k], page) by {
            run_keeps_invariant(run, k);
        }
        write_back_saves_quiet_pages(run, i, page, stats);
    }
}

/// Whether the pending action of `actor` is a writer's claim on a closed page.
pub open spec fn must_wait(sys: System, actor: Actor) -> bool {
    actor.pending() matches Action::Page { page, op } && op is ClaimForWrite
        && !sys.world.pages[page as int].answer(op)
}

/// The operation among the first `count` that waits for the highest page.
proof fn highest_waiter(sys: System, count: int) -> (top: int)
    requires
        sys.inv(),
        0 <= count <= sys.actors.len(),
        exists|i: int| 0 <= i < count && must_wait(sys, #[trigger] sys.actors[i]),
    ensures
        0 <= top < count,
        must_wait(sys, sys.actors[top]),
        forall|i: int|
            0 <= i < count && must_wait(sys, #[trigger] sys.actors[i]) ==> waits_for(sys.actors[i])
                <= waits_for(sys.actors[top]),
    decreases count,
{
    let last = count - 1;
    if exists|i: int| 0 <= i < last && must_wait(sys, #[trigger] sys.actors[i]) {
        let top = highest_waiter(sys, last);
        if must_wait(sys, sys.actors[last]) && waits_for(sys.actors[last]) > waits_for(
            sys.actors[top],
        ) {
            last
        } else {
            top
        }
    } else {
        last
    }
}

/// The page that a waiting operation waits for.
pub open spec fn waits_for(actor: Actor) -> int {
    match actor.pending() {
        Action::Page { page, .. } => page as int,
        _ => 0,
    }
}

/// There is no deadlock, given that a writer's turn ends by itself: as long as
/// some operation has not ended, some operation has a pending action that does
/// not wait for another. A turn that itself waits for a write to a page of its
/// own range would not end.
pub proof fn somebody_can_go_on(sys: System, i: int)
    requires
        sys.inv(),
        0 <= i < sys.actors.len(),
        sys.actors[i].pending() != Action::Finish,
    ensures
        exists|j: int|
            0 <= j < sys.actors.len() && (#[trigger] sys.actors[j]).pending() != Action::Finish
                && !must_wait(sys, sys.actors[j]),
{
    if must_wait(sys, sys.actors[i]) {
        // Writers claim in ascending order, so a waiting writer that held the
        // page that the highest waiter needs would wait for a higher page.
        let top = highest_waiter(sys, sys.actors.len() as int);
        claims_wait_only_for_their_page(sys, top);
        let page = waits_for(sys.actors[top]);
        let holder = choose|j: int|
            0 <= j < sys.actors.len() && j != top && #[trigger] sys.actors[j].holds(page);
        assert(!must_wait(sys, sys.actors[holder]));
    }
}

/// When every operation has ended, the mapping is as good as unused: any
/// operation may begin on it alone.
pub proof fn ended_operations_leave_no_trace(sys: System, actor: Actor)
    requires
        sys.inv(),
        forall|i: int|
            0 <= i < sys.actors.len() ==> (#[trigger] sys.actors[i]).pending() == Action::Finish,
        actor.fresh(sys.map),
    ensures
        (System { actors: seq![actor], ..sys }).inv(),
{
    ended_operations_hold_nothing(sys);
    system::fresh_is_valid(sys.map, actor);
}

/// The failure that has stopped a write-back, if one has.
pub open spec fn flush_failure(flush: WriteBack) -> Option<IoFailure> {
    match flush.phase {
        WriteBackPhase::Done(Err(failure)) => Some(failure),
        _ => None,
    }
}

/// The failure that has stopped a reclaim, if one has.
pub open spec fn reclaim_failure(reclaim: Reclaim) -> Option<IoFailure> {
    match reclaim.phase {
        ReclaimPhase::Open { failure, .. } => failure,
        ReclaimPhase::Done(Err(failure)) => Some(failure),
        _ => None,
    }
}

/// The failure that `reply` to `action` amounts to, if it is one.
pub open spec fn failure_in(action: Action, reply: Reply) -> Option<IoFailure> {
    match (action, reply) {
        (Action::WriteFile { .. }, Reply::Failed(errno)) => Some(IoFailure::Os(errno)),
        (Action::WriteFile { .. }, Reply::Wrote(count)) => if count == 0 {
            Some(IoFailure::WriteZero)
        } else {
            None
        },
        (Action::Discard { .. }, Reply::Failed(errno)) => Some(IoFailure::Os(errno)),
        _ => None,
    }
}

/// The first failure is the one that is reported: a write-back or a reclaim
/// stops for a failure exactly when a reply is one, and from then on it keeps
/// that failure and asks neither for the file nor for the kernel any more.
pub proof fn first_failure_is_reported(actor: Actor, map: MooMap, reply: Reply)
    requires
        map.wf(),
        actor.wf(map),
        reply.answers(actor.pending()),
    ensures
        actor matches Actor::Flusher(flush) ==> {
            &&& flush_failure(flush) is None
            &&& flush_failure(flush.after(reply)) == failure_in(flush.pending(), reply)
        },
        actor matches Actor::Reclaimer(reclaim) ==> {
            &&& reclaim_failure(reclaim) is Some ==> reclaim.pending() is Page
            &&& reclaim_failure(reclaim.after(reply)) == if reclaim_failure(reclaim) is Some {
                reclaim_failure(reclaim)
            } else {
                failure_in(reclaim.pending(), reply)
            }
        },
{
}

/// Pages are dealt with in address order: neither a write-back nor a reclaim
/// ever turns back, and a new run begins behind the one before.
pub proof fn pages_are_met_in_address_order(actor: Actor, map: MooMap, reply: Reply)
    requires
        map.wf(),
        actor.wf(map),
        reply.answers(actor.pending()),
    ensures
        actor matches Actor::Flusher(flush) ==> {
            let next = flush.after(reply);
            &&& flush.page <= next.page <= flush.page + 1
            &&& next.start == flush.start || next.start == flush.page
        },
        actor matches Actor::Reclaimer(reclaim) ==> {
            let next = reclaim.after(reply);
            &&& reclaim.page <= next.page <= reclaim.page + 1
            &&& next.start == reclaim.start || next.start == reclaim.page
        },
{
}

/// Whether operation `i`, with step `k` of a run, asks for `op` on the state of
/// `page` and is answered `flag`.
pub open spec fn asks(
    run: Seq<System>,
    i: int,
    k: int,
    page: int,
    op: PageOp,
    flag: bool,
) -> bool {
    &&& 0 <= k < run.len() - 1
    &&& run[k].actors[i].pending() == (Action::Page { page: page as usize, op })
    &&& run[k].advances(i, Reply::Flag(flag), run[k + 1])
}

/// Whether operation `i`, with step `k` of a run, returns all of `page` to the
/// kernel, while the file holds what the mapping shows of it.
pub open spec fn gives_back(run: Seq<System>, i: int, k: int, page: int) -> bool {
    let from = run[0].map.boundary(page);
    let to = run[0].map.boundary(page + 1);
    &&& 0 <= k < run.len() - 1
    &&& run[k].actors[i].pending() matches Action::Discard { offset, len } && offset <= from && to
        <= offset + len
    &&& run[k].advances(i, Reply::Done, run[k + 1])
    &&& run[k].world.synced(from, to)
}

/// Whether another operation than `i` holds `page`.
pub open spec fn held_by_other(sys: System, i: int, page: int) -> bool {
    exists|j: int| 0 <= j < sys.actors.len() && j != i && #[trigger] sys.actors[j].holds(page)
}

/// Before state `k`, operation `i` was refused `page` while another held it.
pub open spec fn was_refused(run: Seq<System>, i: int, page: int, k: int) -> bool {
    exists|s: int|
        0 <= s < k && #[trigger] asks(run, i, s, page, PageOp::ClaimForReclaim, false)
            && held_by_other(run[s], i, page)
}

/// Before state `k`, operation `i` held `page` and saw it clean.
pub open spec fn was_clean(run: Seq<System>, i: int, page: int, k: int) -> bool {
    exists|s: int|
        0 <= s < k && #[trigger] asks(run, i, s, page, PageOp::IsDirty, false)
            && run[s].actors[i].holds(page)
}

/// Before state `k`, operation `i` returned `page` to the kernel, written to the
/// file.
pub open spec fn was_returned(run: Seq<System>, i: int, page: int, k: int) -> bool {
    exists|s: int| 0 <= s < k && #[trigger] gives_back(run, i, s, page)
}

/// Before state `k`, operation `i` marked `page` clean, after it had written it
/// to the file and returned it to the kernel.
pub open spec fn was_reclaimed(run: Seq<System>, i: int, page: int, k: int) -> bool {
    exists|s: int|
        0 <= s < k && #[trigger] asks(run, i, s, page, PageOp::ClearDirty, true) && was_returned(
            run,
            i,
            page,
            s,
        )
}

/// Before state `k`, operation `i` dealt with `page` in one of the three ways.
pub open spec fn was_met(run: Seq<System>, i: int, page: int, k: int) -> bool {
    ||| was_refused(run, i, page, k)
    ||| was_clean(run, i, page, k)
    ||| was_reclaimed(run, i, page, k)
}

/// Where a reclaim stands in state `k`: it has dealt with every page behind it,
/// and with those of its run as far as its phase says.
pub open spec fn has_met(run: Seq<System>, i: int, k: int, reclaim: Reclaim) -> bool {
    &&& !(reclaim.phase matches ReclaimPhase::Done(Err(_))) ==> forall|page: int|
        0 <= page < reclaim.behind() ==> #[trigger] was_met(run, i, page, k)
    &&& match reclaim.phase {
        ReclaimPhase::Skip => was_clean(run, i, reclaim.page as int, k),
        ReclaimPhase::Clean { at } => {
            &&& forall|page: int|
                reclaim.start <= page < reclaim.page ==> #[trigger] was_returned(run, i, page, k)
            &&& forall|page: int|
                reclaim.start <= page < at ==> #[trigger] was_reclaimed(run, i, page, k)
        },
        ReclaimPhase::Open { failure: None, .. } => forall|page: int|
            reclaim.start <= page < reclaim.page ==> #[trigger] was_reclaimed(run, i, page, k),
        _ => true,
    }
}

/// What has been done stays done.
proof fn met_stays_met(run: Seq<System>, i: int, k: int, reclaim: Reclaim)
    requires
        has_met(run, i, k, reclaim),
    ensures
        has_met(run, i, k + 1, reclaim),
{
    assert forall|page: int| was_met(run, i, page, k) implies #[trigger] was_met(
        run,
        i,
        page,
        k + 1,
    ) by {}
    assert forall|page: int| was_returned(run, i, page, k) implies #[trigger] was_returned(
        run,
        i,
        page,
        k + 1,
    ) by {}
    assert forall|page: int| was_reclaimed(run, i, page, k) implies #[trigger] was_reclaimed(
        run,
        i,
        page,
        k + 1,
    ) by {}
}

/// A step of a reclaim deals with what it leaves behind.
proof fn step_meets_its_pages(run: Seq<System>, i: int, k: int, reclaim: Reclaim, reply: Reply)
    requires
        0 <= k < run.len() - 1,
        run[k].inv(),
        run[k].map == run[0].map,
        run[k].advances(i, reply, run[k + 1]),
        run[k].actors[i] == Actor::Reclaimer(reclaim),
        has_met(run, i, k, reclaim),
    ensures
        has_met(run, i, k + 1, reclaim.after(reply)),
{
    let map = run[0].map;
    let page = reclaim.page as int;
    met_stays_met(run, i, k, reclaim);
    match (reclaim.phase, reply) {
        (ReclaimPhase::Claim, Reply::Flag(false)) => {
            claims_wait_only_for_their_page(run[k], i);
            assert(asks(run, i, k, page, PageOp::ClaimForReclaim, false));
        },
        (ReclaimPhase::Probe, Reply::Flag(false)) => {
            assert(asks(run, i, k, page, PageOp::IsDirty, false));
        },
        (ReclaimPhase::Discard, Reply::Done) => {
            assert forall|p: int|
                reclaim.start <= p < reclaim.page implies #[trigger] was_returned(
                run,
                i,
                p,
                k + 1,
            ) by {
                map.boundary_is_ordered(reclaim.start as int, p);
                map.boundary_is_ordered(p + 1, page);
                assert(gives_back(run, i, k, p));
            }
        },
        (ReclaimPhase::Clean { at }, _) => {
            assert(asks(run, i, k, at as int, PageOp::ClearDirty, true));
        },
        _ => {},
    }
}

/// Along a run, a reclaim has dealt with the pages behind it.
proof fn reclaim_has_met(run: Seq<System>, i: int, max_bytes: usize, k: int)
    requires
        execution(run),
        run[0].inv(),
        0 <= i < run[0].actors.len(),
        run[0].actors[i] == Actor::Reclaimer(Reclaim::started(run[0].map, max_bytes)),
        0 <= k < run.len(),
    ensures
        i < run[k].actors.len(),
        run[k].actors[i] matches Actor::Reclaimer(reclaim) && reclaim.max_bytes == max_bytes
            && has_met(run, i, k, reclaim),
    decreases k,
{
    if k > 0 {
        reclaim_has_met(run, i, max_bytes, k - 1);
        run_keeps_invariant(run, k - 1);
        let sys = run[k - 1];
        let next = run[k];
        assert(linked(run, k - 1));
        let reclaim = sys.actors[i]->Reclaimer_0;
        met_stays_met(run, i, k - 1, reclaim);
        if exists|j: int, reply: Reply| #[trigger] sys.advances(j, reply, next) {
            let (j, reply) = choose|j: int, reply: Reply| #[trigger] sys.advances(j, reply, next);
            if j == i {
                step_meets_its_pages(run, i, k - 1, reclaim, reply);
            }
        }
    }
}

/// A reclaim takes every page that it can have, whatever others do beside it:
/// one that ends well has dealt with every page before the one at which it
/// ended. Each was refused to it while another operation held the page, or was
/// clean while it held the page itself, or was written to the file, returned to
/// the kernel and marked clean.
/// With a budget of the whole mapping, that is every page.
pub proof fn reclaim_meets_every_page(
    run: Seq<System>,
    i: int,
    max_bytes: usize,
    stats: IoStats,
    page: int,
)
    requires
        execution(run),
        run[0].inv(),
        0 <= i < run[0].actors.len(),
        run[0].actors[i] == Actor::Reclaimer(Reclaim::started(run[0].map, max_bytes)),
        i < run.last().actors.len(),
        run.last().actors[i] matches Actor::Reclaimer(reclaim) && reclaim.outcome() == Some(
            Ok::<IoStats, IoFailure>(stats),
        ),
        0 <= page < run[0].map.page_count,
    ensures
        page < run.last().actors[i]->Reclaimer_0.page ==> was_met(run, i, page, run.len() - 1),
        run[0].map.len <= max_bytes ==> was_met(run, i, page, run.len() - 1),
{
    let last = run.len() - 1;
    reclaim_has_met(run, i, max_bytes, last);
    run_keeps_invariant(run, last);
    let reclaim = run.last().actors[i]->Reclaimer_0;
    if run[0].map.len <= max_bytes {
        reclaim::full_budget_reaches_the_end(reclaim);
    }
}

} // verus!
