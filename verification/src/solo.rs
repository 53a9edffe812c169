//! What one operation achieves on a mapping that nobody else uses meanwhile.

use crate::action::{Action, IoFailure, Reply};
use crate::laws;
use crate::map::MooMap;
use crate::page::{Access, PageState};
use crate::reclaim::{Reclaim, ReclaimPhase};
use crate::stats::IoStats;
use crate::system::{self, Actor, System};
use crate::world::World;
use crate::write::{GuardPhase, Write};
use crate::write_back::{WriteBack, WriteBackPhase};
use vstd::prelude::*;

verus! {

/// The number of dirty pages among the first `count`.
pub open spec fn dirty_before(pages: Seq<PageState>, count: int) -> int
    decreases count,
{
    if count <= 0 {
        0
    } else {
        dirty_before(pages, count - 1) + (if pages[count - 1].dirty {
            1int
        } else {
            0
        })
    }
}

/// Whether a run of dirty pages begins at `page`.
pub open spec fn run_begins(pages: Seq<PageState>, page: int) -> bool {
    pages[page].dirty && (page == 0 || !pages[page - 1].dirty)
}

/// The number of runs of dirty pages that begin among the first `count` pages.
pub open spec fn runs_before(pages: Seq<PageState>, count: int) -> int
    decreases count,
{
    if count <= 0 {
        0
    } else {
        runs_before(pages, count - 1) + (if run_begins(pages, count - 1) {
            1int
        } else {
            0
        })
    }
}

/// The number of mapped bytes on the dirty pages among the first `count`.
pub open spec fn dirty_bytes_before(map: MooMap, pages: Seq<PageState>, count: int) -> int
    decreases count,
{
    if count <= 0 {
        0
    } else {
        dirty_bytes_before(map, pages, count - 1) + (if pages[count - 1].dirty {
            map.boundary(count) - map.boundary(count - 1)
        } else {
            0
        })
    }
}

/// Whether `stats` counts exactly the dirty pages among the first `count`.
pub open spec fn counts(stats: IoStats, map: MooMap, pages: Seq<PageState>, count: int) -> bool {
    &&& stats.pages == dirty_before(pages, count)
    &&& stats.runs == runs_before(pages, count)
    &&& stats.bytes == dirty_bytes_before(map, pages, count)
}

/// Whether the pages `start..end` are all dirty, and no run began before them.
pub open spec fn dirty_run(pages: Seq<PageState>, start: int, end: int) -> bool {
    &&& 0 <= start < end <= pages.len()
    &&& start == 0 || !pages[start - 1].dirty
    &&& forall|page: int| start <= page < end ==> (#[trigger] pages[page]).dirty
}

/// A run of a mapping on which only one operation is ever in progress.
pub open spec fn alone(run: Seq<System>) -> bool {
    &&& laws::execution(run)
    &&& forall|k: int| 0 <= k < run.len() ==> (#[trigger] run[k]).actors.len() == 1
}

/// Whether the file holds what the mapping shows before byte `sent`, and from
/// there on what it held at first.
pub open spec fn file_reached(first: World, now: World, sent: int) -> bool {
    &&& now.synced(0, sent)
    &&& forall|at: int| sent <= at < first.file.len() ==> #[trigger] now.file[at] == first.file[at]
}

/// Whether the file got up to some byte of `from..=to`, as far as mapping and
/// file are concerned.
pub open spec fn file_reached_within(first: World, now: World, from: int, to: int) -> bool {
    exists|sent: int| from <= sent <= to && #[trigger] file_reached(first, now, sent)
}

/// A run of dirty pages adds its pages, itself and its bytes to the counts.
proof fn run_adds_up(map: MooMap, pages: Seq<PageState>, start: int, end: int)
    requires
        dirty_run(pages, start, end),
    ensures
        dirty_before(pages, end) == dirty_before(pages, start) + (end - start),
        runs_before(pages, end) == runs_before(pages, start) + 1,
        dirty_bytes_before(map, pages, end) == dirty_bytes_before(map, pages, start)
            + map.boundary(end) - map.boundary(start),
    decreases end,
{
    if end > start + 1 {
        run_adds_up(map, pages, start, end - 1);
    }
}

/// Dirty pages hold no more bytes than the pages up to them.
proof fn dirty_bytes_are_bytes(map: MooMap, pages: Seq<PageState>, count: int)
    requires
        map.wf(),
        0 <= count,
    ensures
        0 <= dirty_bytes_before(map, pages, count) <= map.boundary(count),
    decreases count,
{
    map.boundary_ends();
    if count > 0 {
        dirty_bytes_are_bytes(map, pages, count - 1);
        map.boundary_is_ordered(count - 1, count);
    }
}

/// More pages hold no fewer dirty ones.
proof fn dirty_count_grows(pages: Seq<PageState>, p: int, q: int)
    requires
        0 <= p <= q,
    ensures
        dirty_before(pages, p) <= dirty_before(pages, q),
    decreases q,
{
    if p < q {
        dirty_count_grows(pages, p, q - 1);
    }
}

/// How far a reclaim has settled pages for good.
pub open spec fn settled(reclaim: Reclaim) -> int {
    if reclaim.phase matches ReclaimPhase::Done(Err(_)) {
        reclaim.start as int
    } else {
        reclaim.behind() as int
    }
}

/// The state of page `page` during a reclaim that met the pages as `before`:
/// what is settled is clean and open, what lies ahead is as it was, and the
/// run at hand is held.
pub open spec fn state_during(reclaim: Reclaim, before: Seq<PageState>, page: int) -> PageState {
    if page < settled(reclaim) {
        PageState::fresh()
    } else if page >= reclaim.page {
        match reclaim.phase {
            ReclaimPhase::Probe | ReclaimPhase::Skip | ReclaimPhase::Leave => if page
                == reclaim.page {
                before[page].with_access(Access::Reclaiming)
            } else {
                before[page]
            },
            _ => before[page],
        }
    } else {
        match reclaim.phase {
            ReclaimPhase::Clean { at } => PageState { dirty: page >= at, access: Access::Reclaiming },
            ReclaimPhase::Open { at, failure } => PageState {
                dirty: failure is Some,
                access: if page < at {
                    Access::Idle
                } else {
                    Access::Reclaiming
                },
            },
            ReclaimPhase::Done(_) => PageState { dirty: true, access: Access::Idle },
            _ => PageState { dirty: true, access: Access::Reclaiming },
        }
    }
}

/// How a reclaim that is alone on the mapping stands, given the state in which
/// it began.
pub open spec fn reclaim_tracks(first: System, now: System, reclaim: Reclaim) -> bool {
    let before = first.world.pages;
    &&& now.map == first.map
    &&& now.actors.len() == 1
    &&& now.actors[0] == Actor::Reclaimer(reclaim)
    &&& now.world.memory == first.world.memory
    &&& forall|page: int|
        0 <= page < now.map.page_count ==> #[trigger] now.world.pages[page] == state_during(
            reclaim,
            before,
            page,
        )
    &&& counts(reclaim.stats, now.map, before, settled(reclaim))
    &&& match reclaim.phase {
        ReclaimPhase::Claim | ReclaimPhase::Probe => {
            let page = reclaim.page as int;
            page == 0 || !before[page - 1].dirty || !before[page].dirty || !reclaim.affords(page)
        },
        ReclaimPhase::Skip => !before[reclaim.page as int].dirty,
        ReclaimPhase::Leave => before[reclaim.page as int].dirty,
        ReclaimPhase::ExtendClaim => {
            &&& dirty_run(before, reclaim.start as int, reclaim.page as int)
            &&& before[reclaim.page as int].dirty
        },
        ReclaimPhase::ExtendProbe => dirty_run(before, reclaim.start as int, reclaim.page as int),
        ReclaimPhase::Done(Ok(_)) => reclaim.page == now.map.page_count || reclaim.stats.bytes
            == reclaim.max_bytes || before[reclaim.page as int].dirty,
        _ => {
            &&& dirty_run(before, reclaim.start as int, reclaim.page as int)
            &&& reclaim.run_fits()
            &&& reclaim.page == now.map.page_count || !before[reclaim.page as int].dirty
                || !reclaim.affords(reclaim.start as int)
        },
    }
}

/// How far a reclaim that is alone on the mapping has got with the file, given
/// the state in which it began.
pub open spec fn reclaim_reached(first: System, now: System, reclaim: Reclaim) -> bool {
    let from = now.map.boundary(reclaim.start as int);
    let to = now.map.boundary(reclaim.page as int);
    match reclaim.phase {
        ReclaimPhase::ExtendProbe | ReclaimPhase::ExtendClaim => file_reached(
            first.world,
            now.world,
            from,
        ),
        ReclaimPhase::Copy(range) => file_reached(
            first.world,
            now.world,
            range.offset + range.written,
        ),
        ReclaimPhase::Open { failure: Some(_), .. } | ReclaimPhase::Done(Err(_)) =>
            file_reached_within(first.world, now.world, from, to),
        _ => file_reached(first.world, now.world, to),
    }
}

/// A step of a reclaim that is alone brings the file as far as it should.
proof fn reclaim_reaches_further(
    first: System,
    now: System,
    reclaim: Reclaim,
    reply: Reply,
    next: System,
)
    requires
        first.inv(),
        now.inv(),
        forall|page: int|
            0 <= page < first.map.page_count ==> (#[trigger] first.world.pages[page]).access
                == Access::Idle,
        reclaim_tracks(first, now, reclaim),
        reclaim_reached(first, now, reclaim),
        now.advances(0, reply, next),
    ensures
        reclaim_reached(first, next, reclaim.after(reply)),
{
    let map = now.map;
    let page = reclaim.page as int;
    let start = reclaim.start as int;
    system::bytes_change_under_gates(map, now.actors[0], reply, now.world, next.world);
    map.boundary_is_ordered(page, page + 1);
    if reclaim.has_run() {
        map.boundary_is_ordered(start, page);
    }
    match reclaim.phase {
        ReclaimPhase::Skip => {
            laws::quiet_clean_page_is_synced(now, page);
        },
        ReclaimPhase::Copy(range) => {
            if reclaim.after(reply).phase is Open {
                assert(file_reached(first.world, next.world, range.offset + range.written));
            }
        },
        ReclaimPhase::Open { failure: Some(_), .. } => {
            let sent = choose|sent: int|
                map.boundary(start) <= sent <= map.boundary(page) && #[trigger] file_reached(
                    first.world,
                    now.world,
                    sent,
                );
            assert(file_reached(first.world, next.world, sent));
        },
        _ => {},
    }
}

/// A step of a reclaim that is alone keeps it on track.
proof fn reclaim_stays_on_track(
    first: System,
    now: System,
    reclaim: Reclaim,
    reply: Reply,
    next: System,
)
    requires
        first.inv(),
        now.inv(),
        forall|page: int|
            0 <= page < first.map.page_count ==> (#[trigger] first.world.pages[page]).access
                == Access::Idle,
        reclaim_tracks(first, now, reclaim),
        now.advances(0, reply, next),
    ensures
        reclaim_tracks(first, next, reclaim.after(reply)),
{
    let map = now.map;
    let before = first.world.pages;
    let page = reclaim.page as int;
    let start = reclaim.start as int;
    system::bytes_change_under_gates(map, now.actors[0], reply, now.world, next.world);
    system::actor_stays_valid(map, now.actors[0], reply);
    map.boundary_is_ordered(page, page + 1);
    if start < page && reclaim.has_run() {
        map.boundary_is_ordered(start, page);
        run_adds_up(map, before, start, page);
    }
}

/// Two states of a run with one operation in it are one step of that operation
/// apart; if it is not a write, that step carries out its pending action.
proof fn solo_step(run: Seq<System>, k: int) -> (reply: Reply)
    requires
        alone(run),
        0 <= k < run.len() - 1,
        !(run[k].actors[0] is Writer),
        run[k].inv(),
    ensures
        run[k].advances(0, reply, run[k + 1]),
{
    let sys = run[k];
    let next = run[k + 1];
    assert(laws::linked(run, k));
    let (i, reply) = choose|i: int, reply: Reply| #[trigger] sys.advances(i, reply, next);
    reply
}

/// On a mapping without operations in progress every gate is idle.
proof fn idle_at_first(first: System)
    requires
        first.inv(),
        forall|i: int, page: int|
            0 <= i < first.actors.len() ==> !#[trigger] first.actors[i].holds(page),
    ensures
        forall|page: int|
            0 <= page < first.map.page_count ==> (#[trigger] first.world.pages[page]).access
                == Access::Idle,
{
}

/// A reclaim that is alone is on track in every state.
proof fn reclaim_is_on_track(run: Seq<System>, max_bytes: usize, k: int)
    requires
        alone(run),
        run[0].inv(),
        run[0].actors[0] == Actor::Reclaimer(Reclaim::started(run[0].map, max_bytes)),
        0 <= k < run.len(),
    ensures
        run[k].inv(),
        exists|reclaim: Reclaim|
            #![trigger reclaim_tracks(run[0], run[k], reclaim)]
            reclaim_tracks(run[0], run[k], reclaim) && reclaim_reached(run[0], run[k], reclaim)
                && reclaim.max_bytes == max_bytes,
    decreases k,
{
    let first = run[0];
    laws::run_keeps_invariant(run, k);
    let started = Reclaim::started(first.map, max_bytes);
    idle_at_first(first);
    if k == 0 {
        first.map.boundary_ends();
        assert(reclaim_tracks(first, run[k], started));
    } else {
        reclaim_is_on_track(run, max_bytes, k - 1);
        let reclaim = choose|reclaim: Reclaim|
            #![trigger reclaim_tracks(first, run[k - 1], reclaim)]
            reclaim_tracks(first, run[k - 1], reclaim) && reclaim_reached(
                first,
                run[k - 1],
                reclaim,
            ) && reclaim.max_bytes == max_bytes;
        let reply = solo_step(run, k - 1);
        reclaim_stays_on_track(first, run[k - 1], reclaim, reply, run[k]);
        reclaim_reaches_further(first, run[k - 1], reclaim, reply, run[k]);
    }
}

/// What a reclaim that is alone on the mapping leaves behind, however the file
/// takes the bytes.
///
/// It deals with the pages in address order up to some page `cut`. Before the
/// cut every page is clean and open and in the file; from the cut on page
/// states are as they were. The mapping shows what it showed.
///
/// A reclaim that ends well has processed every dirty page, or has used up its
/// budget of bytes, or has met a dirty page at the cut that exceeds what is left
/// of it. Its counters count exactly the dirty pages, runs and bytes before the
/// cut; from the cut on the file is as it was.
///
/// One that fails has stopped at the run `cut..end` of dirty pages, which is
/// bounded by a clean page, the end of the mapping or the budget. The file has
/// taken the bytes of that run up to some byte, and is as it was from there on.
pub proof fn reclaim_alone(
    run: Seq<System>,
    max_bytes: usize,
    result: Result<IoStats, IoFailure>,
) -> (ends: (int, int))
    requires
        alone(run),
        run[0].inv(),
        run[0].actors[0] == Actor::Reclaimer(Reclaim::started(run[0].map, max_bytes)),
        run.last().actors[0] matches Actor::Reclaimer(reclaim) && reclaim.outcome() == Some(
            result,
        ),
    ensures
        ({
            let (cut, end) = ends;
            let map = run[0].map;
            let before = run[0].world;
            let after = run.last().world;
            &&& run.last().map == map
            &&& 0 <= cut <= end <= map.page_count
            &&& after.memory == before.memory
            &&& forall|page: int|
                0 <= page < map.page_count ==> #[trigger] after.pages[page] == (if page < cut {
                    PageState::fresh()
                } else {
                    before.pages[page]
                })
            &&& after.synced(0, map.boundary(cut))
            &&& match result {
                Ok(stats) => {
                    &&& cut == end
                    &&& counts(stats, map, before.pages, cut)
                    &&& stats.bytes <= max_bytes
                    &&& cut == map.page_count || stats.bytes == max_bytes || (
                    before.pages[cut].dirty && stats.bytes + map.boundary(cut + 1) - map.boundary(
                        cut,
                    ) > max_bytes)
                    &&& stats.pages <= dirty_before(before.pages, map.page_count as int)
                    &&& file_reached(before, after, map.boundary(cut))
                },
                Err(_) => {
                    &&& dirty_run(before.pages, cut, end)
                    &&& end == map.page_count || !before.pages[end].dirty
                        || dirty_bytes_before(map, before.pages, end + 1) > max_bytes
                    &&& dirty_bytes_before(map, before.pages, end) <= max_bytes
                    &&& file_reached_within(before, after, map.boundary(cut), map.boundary(end))
                },
            }
        }),
{
    let first = run[0];
    let last = run.last();
    let map = first.map;
    let before = first.world.pages;
    reclaim_is_on_track(run, max_bytes, run.len() - 1);
    let reclaim = choose|reclaim: Reclaim|
        #![trigger reclaim_tracks(first, last, reclaim)]
        reclaim_tracks(first, last, reclaim) && reclaim_reached(first, last, reclaim)
            && reclaim.max_bytes == max_bytes;
    idle_at_first(first);
    let cut = settled(reclaim);
    let end = reclaim.page as int;
    dirty_count_grows(before, cut, map.page_count as int);
    map.boundary_is_ordered(0, cut);
    map.boundary_ends();
    if result is Err {
        run_adds_up(map, before, cut, end);
    }
    assert forall|at: int|
        0 <= at < map.boundary(cut) implies #[trigger] last.world.memory[at]
        == last.world.file[at] by {
        map.pages_and_bytes_agree(at, 0, cut);
    }
    (cut, end)
}

/// A reclaim of everything, alone on the mapping and with no failure, leaves
/// every page clean and the file equal to the mapping, and counts all that was
/// dirty.
pub proof fn reclaim_all_alone(run: Seq<System>, max_bytes: usize, stats: IoStats)
    requires
        alone(run),
        run[0].inv(),
        run[0].map.len <= max_bytes,
        run[0].actors[0] == Actor::Reclaimer(Reclaim::started(run[0].map, max_bytes)),
        run.last().actors[0] matches Actor::Reclaimer(reclaim) && reclaim.outcome() == Some(
            Ok::<IoStats, IoFailure>(stats),
        ),
    ensures
        counts(stats, run[0].map, run[0].world.pages, run[0].map.page_count as int),
        forall|page: int|
            0 <= page < run[0].map.page_count ==> #[trigger] run.last().world.pages[page]
                == PageState::fresh(),
        run.last().world.memory == run[0].world.memory,
        run.last().world.file == run[0].world.memory,
{
    let map = run[0].map;
    let (cut, _) = reclaim_alone(run, max_bytes, Ok(stats));
    dirty_bytes_are_bytes(map, run[0].world.pages, cut);
    map.boundary_ends();
    reclaim_is_on_track(run, max_bytes, run.len() - 1);
}

/// A reclaim that meets no dirty page, alone on the mapping, ends well with
/// nothing counted and nothing changed.
pub proof fn reclaim_of_clean_map_is_idle(
    run: Seq<System>,
    max_bytes: usize,
    result: Result<IoStats, IoFailure>,
)
    requires
        alone(run),
        run[0].inv(),
        run[0].actors[0] == Actor::Reclaimer(Reclaim::started(run[0].map, max_bytes)),
        forall|page: int|
            0 <= page < run[0].map.page_count ==> !(#[trigger] run[0].world.pages[page]).dirty,
        run.last().actors[0] matches Actor::Reclaimer(reclaim) && reclaim.outcome() == Some(
            result,
        ),
    ensures
        result == Ok::<IoStats, IoFailure>(IoStats::zero()),
        run.last().world == run[0].world,
{
    let first = run[0];
    let last = run.last();
    let map = first.map;
    let before = first.world.pages;
    reclaim_is_on_track(run, max_bytes, run.len() - 1);
    let (cut, _) = reclaim_alone(run, max_bytes, result);
    clean_pages_count_nothing(map, before, cut);
    assert forall|at: int| 0 <= at < map.len implies #[trigger] last.world.file[at]
        == first.world.file[at] by {
        map.byte_is_on_its_page(at);
        assert(last.world.memory[at] == last.world.file[at]);
    }
}

/// A second reclaim right after a reclaim of everything finds nothing to do.
pub proof fn second_reclaim_is_idle(
    run: Seq<System>,
    max_bytes: usize,
    stats: IoStats,
    again: Seq<System>,
    second_max: usize,
    result: Result<IoStats, IoFailure>,
)
    requires
        alone(run),
        run[0].inv(),
        run[0].map.len <= max_bytes,
        run[0].actors[0] == Actor::Reclaimer(Reclaim::started(run[0].map, max_bytes)),
        run.last().actors[0] matches Actor::Reclaimer(reclaim) && reclaim.outcome() == Some(
            Ok::<IoStats, IoFailure>(stats),
        ),
        alone(again),
        again[0].map == run[0].map,
        again[0].world == run.last().world,
        again[0].actors[0] == Actor::Reclaimer(Reclaim::started(run[0].map, second_max)),
        again.last().actors[0] matches Actor::Reclaimer(reclaim) && reclaim.outcome() == Some(
            result,
        ),
    ensures
        result == Ok::<IoStats, IoFailure>(IoStats::zero()),
        again.last().world == run.last().world,
{
    reclaim_all_alone(run, max_bytes, stats);
    laws::run_keeps_invariant(run, run.len() - 1);
    let actor = again[0].actors[0];
    laws::ended_operations_leave_no_trace(run.last(), actor);
    assert(again[0].actors =~= seq![actor]);
    reclaim_of_clean_map_is_idle(again, second_max, result);
}

/// Clean pages count nothing.
proof fn clean_pages_count_nothing(map: MooMap, pages: Seq<PageState>, count: int)
    requires
        0 <= count <= pages.len(),
        forall|page: int| 0 <= page < pages.len() ==> !(#[trigger] pages[page]).dirty,
    ensures
        dirty_before(pages, count) == 0,
        runs_before(pages, count) == 0,
        dirty_bytes_before(map, pages, count) == 0,
    decreases count,
{
    if count > 0 {
        clean_pages_count_nothing(map, pages, count - 1);
    }
}

/// How a write-back that is alone on the mapping stands, given the state in
/// which it began.
pub open spec fn flush_tracks(first: System, now: System, flush: WriteBack) -> bool {
    let pages = first.world.pages;
    let page = flush.page as int;
    &&& now.map == first.map
    &&& now.actors.len() == 1
    &&& now.actors[0] == Actor::Flusher(flush)
    &&& now.world.memory == first.world.memory
    &&& now.world.pages == pages
    &&& match flush.phase {
        WriteBackPhase::Probe => {
            &&& counts(flush.stats, now.map, pages, page)
            &&& page == 0 || !pages[page - 1].dirty || !pages[page].dirty
        },
        WriteBackPhase::Extend => {
            &&& counts(flush.stats, now.map, pages, flush.start as int)
            &&& dirty_run(pages, flush.start as int, page)
        },
        WriteBackPhase::Copy(_) => {
            &&& counts(flush.stats, now.map, pages, flush.start as int)
            &&& whole_run(pages, flush.start as int, page)
        },
        WriteBackPhase::Done(Ok(_)) => counts(flush.stats, now.map, pages, page),
        WriteBackPhase::Done(Err(_)) => whole_run(pages, flush.start as int, page),
    }
}

/// How far a write-back that is alone on the mapping has got with the file,
/// given the state in which it began.
pub open spec fn flush_reached(first: System, now: System, flush: WriteBack) -> bool {
    if flush.phase matches WriteBackPhase::Done(Err(_)) {
        file_reached_within(
            first.world,
            now.world,
            now.map.boundary(flush.start as int),
            now.map.boundary(flush.page as int),
        )
    } else {
        file_reached(first.world, now.world, laws::flushed_to(flush))
    }
}

/// Whether `start..end` is a run of dirty pages with no dirty page beside it.
pub open spec fn whole_run(pages: Seq<PageState>, start: int, end: int) -> bool {
    &&& dirty_run(pages, start, end)
    &&& end == pages.len() || !pages[end].dirty
}

/// A step of a write-back that is alone keeps it on track.
proof fn flush_stays_on_track(
    first: System,
    now: System,
    flush: WriteBack,
    reply: Reply,
    next: System,
)
    requires
        first.inv(),
        now.inv(),
        flush_tracks(first, now, flush),
        now.advances(0, reply, next),
    ensures
        flush_tracks(first, next, flush.after(reply)),
{
    let map = now.map;
    let pages = first.world.pages;
    let page = flush.page as int;
    let start = flush.start as int;
    laws::write_back_only_copies(now, 0, reply, next);
    system::actor_stays_valid(map, now.actors[0], reply);
    map.boundary_is_ordered(page, page + 1);
    if flush.phase is Extend || flush.phase is Copy {
        map.boundary_is_ordered(start, page);
        run_adds_up(map, pages, start, page);
    }
}

/// A step of a write-back that is alone brings the file as far as it should.
proof fn flush_reaches_further(
    first: System,
    now: System,
    flush: WriteBack,
    reply: Reply,
    next: System,
)
    requires
        first.inv(),
        now.inv(),
        flush_tracks(first, now, flush),
        flush_reached(first, now, flush),
        now.advances(0, reply, next),
    ensures
        flush_reached(first, next, flush.after(reply)),
{
    let map = now.map;
    let page = flush.page as int;
    laws::write_back_only_copies(now, 0, reply, next);
    map.boundary_ends();
    map.boundary_is_ordered(page, page + 1);
    match flush.phase {
        WriteBackPhase::Probe => {
            if !now.world.pages[page].dirty {
                laws::quiet_clean_page_is_synced(now, page);
            }
        },
        WriteBackPhase::Extend => {
            map.boundary_is_ordered(flush.start as int, page);
        },
        WriteBackPhase::Copy(range) => {
            map.boundary_is_ordered(flush.start as int, page);
            if flush.after(reply).phase matches WriteBackPhase::Done(Err(_)) {
                assert(file_reached(first.world, next.world, range.offset + range.written));
            }
        },
        WriteBackPhase::Done(_) => {},
    }
}

/// A write-back that is alone is on track in every state.
proof fn flush_is_on_track(run: Seq<System>, k: int)
    requires
        alone(run),
        run[0].inv(),
        run[0].actors[0] == Actor::Flusher(WriteBack::started(run[0].map)),
        0 <= k < run.len(),
    ensures
        run[k].inv(),
        exists|flush: WriteBack|
            #![trigger flush_tracks(run[0], run[k], flush)]
            flush_tracks(run[0], run[k], flush) && flush_reached(run[0], run[k], flush),
    decreases k,
{
    let first = run[0];
    laws::run_keeps_invariant(run, k);
    if k == 0 {
        first.map.boundary_ends();
        assert(flush_tracks(first, run[k], WriteBack::started(first.map)));
    } else {
        flush_is_on_track(run, k - 1);
        let flush = choose|flush: WriteBack|
            #![trigger flush_tracks(first, run[k - 1], flush)]
            flush_tracks(first, run[k - 1], flush) && flush_reached(first, run[k - 1], flush);
        let reply = solo_step(run, k - 1);
        flush_stays_on_track(first, run[k - 1], flush, reply, run[k]);
        flush_reaches_further(first, run[k - 1], flush, reply, run[k]);
    }
}

/// A write-back copies each contiguous run of dirty pages as a whole: whenever
/// it asks for a write to the file, alone on the mapping, the bytes lie in one
/// run of dirty pages that no dirty page borders on.
pub proof fn write_back_copies_whole_runs(run: Seq<System>, k: int)
    requires
        alone(run),
        run[0].inv(),
        run[0].actors[0] == Actor::Flusher(WriteBack::started(run[0].map)),
        0 <= k < run.len(),
    ensures
        run[k].actors[0] matches Actor::Flusher(flush) && (flush.phase matches WriteBackPhase::Copy(
            range,
        ) ==> {
            &&& whole_run(run[0].world.pages, flush.start as int, flush.page as int)
            &&& range.offset == run[0].map.boundary(flush.start as int)
            &&& range.offset + range.len == run[0].map.boundary(flush.page as int)
        }),
{
    flush_is_on_track(run, k);
}

/// What a write-back that is alone on the mapping leaves behind, however the
/// file takes the bytes. The mapping and the page states are as they were.
///
/// If it ends well, the file equals the mapping and its counters count exactly
/// the dirty pages, runs and bytes. If it fails, it has stopped at the whole
/// run `start..end` of dirty pages: the file has taken the bytes of that run up
/// to some byte, equals the mapping before that byte, and is as it was from
/// there on.
pub proof fn write_back_alone(run: Seq<System>, result: Result<IoStats, IoFailure>) -> (ends: (
    int,
    int,
))
    requires
        alone(run),
        run[0].inv(),
        run[0].actors[0] == Actor::Flusher(WriteBack::started(run[0].map)),
        run.last().actors[0] matches Actor::Flusher(flush) && flush.outcome() == Some(result),
    ensures
        ({
            let (start, end) = ends;
            let map = run[0].map;
            let before = run[0].world;
            let after = run.last().world;
            &&& after.memory == before.memory
            &&& after.pages == before.pages
            &&& match result {
                Ok(stats) => {
                    &&& counts(stats, map, before.pages, map.page_count as int)
                    &&& after.file == before.memory
                },
                Err(_) => {
                    &&& whole_run(before.pages, start, end)
                    &&& after.synced(0, map.boundary(start))
                    &&& file_reached_within(before, after, map.boundary(start), map.boundary(end))
                },
            }
        }),
{
    let first = run[0];
    let last = run.last();
    flush_is_on_track(run, run.len() - 1);
    let flush = choose|flush: WriteBack|
        #![trigger flush_tracks(first, last, flush)]
        flush_tracks(first, last, flush) && flush_reached(first, last, flush);
    (flush.start as int, flush.page as int)
}

/// Which state a page of a write's range is in while the write is under way.
pub open spec fn state_while_writing(write: Write, before: Seq<PageState>, page: int) -> PageState {
    match write {
        Write::Empty { .. } => before[page],
        Write::Guarded { guard, .. } => if page < guard.first || guard.last < page {
            before[page]
        } else {
            match guard.phase {
                GuardPhase::Claiming => if page < guard.at {
                    before[page].with_access(Access::Writing)
                } else {
                    before[page]
                },
                GuardPhase::Held => before[page].with_access(Access::Writing),
                GuardPhase::Marking => if page < guard.at {
                    PageState { dirty: true, access: Access::Idle }
                } else {
                    before[page].with_access(Access::Writing)
                },
                GuardPhase::Opening => if page < guard.at {
                    PageState { dirty: true, access: Access::Idle }
                } else if page == guard.at {
                    PageState { dirty: true, access: Access::Writing }
                } else {
                    before[page].with_access(Access::Writing)
                },
                GuardPhase::Released => PageState { dirty: true, access: Access::Idle },
            }
        },
    }
}

/// How a write of `offset..offset + len` that is alone on the mapping stands,
/// given the state in which it began.
pub open spec fn write_tracks(
    first: System,
    now: System,
    write: Write,
    offset: usize,
    len: usize,
) -> bool {
    &&& now.map == first.map
    &&& now.actors.len() == 1
    &&& now.actors[0] == Actor::Writer(write)
    &&& first.world.touched(
        offset as int,
        offset + len,
        World { memory: now.world.memory, ..first.world },
    )
    &&& now.world.file == first.world.file
    &&& forall|page: int|
        0 <= page < now.map.page_count ==> #[trigger] now.world.pages[page]
            == state_while_writing(write, first.world.pages, page)
    &&& match write {
        Write::Empty { offset: o, .. } => o == offset && len == 0,
        Write::Guarded { offset: o, len: l, guard } => {
            &&& o == offset
            &&& l == len
            &&& guard.first == now.map.page_of(offset as int)
            &&& guard.last == now.map.page_of(offset + len - 1)
        },
    }
}

/// A step of a write that is alone keeps it on track.
proof fn write_stays_on_track(
    first: System,
    now: System,
    write: Write,
    offset: usize,
    len: usize,
    reply: Reply,
    next: System,
)
    requires
        first.inv(),
        now.inv(),
        forall|page: int|
            0 <= page < first.map.page_count ==> (#[trigger] first.world.pages[page]).access
                == Access::Idle,
        write_tracks(first, now, write, offset, len),
        now.advances(0, reply, next),
    ensures
        write_tracks(first, next, write.after(reply), offset, len),
{
    assert(now.actors[0].wf(now.map));
}

/// A write that is alone is on track in every state.
proof fn write_is_on_track(run: Seq<System>, offset: usize, len: usize, k: int)
    requires
        alone(run),
        run[0].inv(),
        offset + len <= run[0].map.len,
        run[0].actors[0] == Actor::Writer(Write::started(run[0].map, offset, len)),
        0 <= k < run.len(),
    ensures
        run[k].inv(),
        exists|write: Write| #[trigger] write_tracks(run[0], run[k], write, offset, len),
    decreases k,
{
    let first = run[0];
    let map = first.map;
    laws::run_keeps_invariant(run, k);
    idle_at_first(first);
    if k == 0 {
        if len > 0 {
            map.byte_is_on_its_page(offset as int);
            map.byte_is_on_its_page(offset + len - 1);
        }
        assert(write_tracks(first, run[k], Write::started(map, offset, len), offset, len));
    } else {
        write_is_on_track(run, offset, len, k - 1);
        let now = run[k - 1];
        let next = run[k];
        let write = choose|write: Write| #[trigger]
            write_tracks(first, now, write, offset, len);
        assert(laws::linked(run, k - 1));
        if exists|i: int, reply: Reply| #[trigger] now.advances(i, reply, next) {
            let (i, reply) = choose|i: int, reply: Reply| #[trigger] now.advances(i, reply, next);
            write_stays_on_track(first, now, write, offset, len, reply, next);
        } else {
            let i = choose|i: int| #[trigger] now.scribbles(i, next);
            assert(write_tracks(first, next, write, offset, len));
        }
    }
}

/// Whether the write of `offset..offset + len` that is alone in `run` ends its
/// turn with step `turn`.
pub open spec fn ends_turn(run: Seq<System>, turn: int, offset: usize, len: usize) -> bool {
    &&& 0 <= turn < run.len() - 1
    &&& run[turn].actors[0].pending() == (Action::Mutate { offset, len })
    &&& run[turn].advances(0, Reply::Done, run[turn + 1])
}

/// Whether a write has had its turn.
pub open spec fn turn_is_over(write: Write) -> bool {
    match write {
        Write::Empty { mutated, .. } => mutated,
        Write::Guarded { guard, .. } => guard.phase != GuardPhase::Claiming && guard.phase
            != GuardPhase::Held,
    }
}

/// A write that has had its turn has ended it at some step, and the mapping has
/// not changed since.
proof fn turn_leaves_its_bytes(run: Seq<System>, offset: usize, len: usize, k: int) -> (turn: int)
    requires
        alone(run),
        run[0].inv(),
        offset + len <= run[0].map.len,
        run[0].actors[0] == Actor::Writer(Write::started(run[0].map, offset, len)),
        0 <= k < run.len(),
        run[k].actors[0] matches Actor::Writer(write) && turn_is_over(write),
    ensures
        turn < k,
        ends_turn(run, turn, offset, len),
        run[k].world.memory == run[turn + 1].world.memory,
    decreases k,
{
    let first = run[0];
    let now = run[k - 1];
    let next = run[k];
    write_is_on_track(run, offset, len, k - 1);
    let write = choose|write: Write| #[trigger] write_tracks(first, now, write, offset, len);
    assert(now.actors[0].wf(now.map));
    assert(laws::linked(run, k - 1));
    if exists|i: int, reply: Reply| #[trigger] now.advances(i, reply, next) {
        let (i, reply) = choose|i: int, reply: Reply| #[trigger] now.advances(i, reply, next);
        if turn_is_over(write) {
            turn_leaves_its_bytes(run, offset, len, k - 1)
        } else {
            k - 1
        }
    } else {
        let i = choose|i: int| #[trigger] now.scribbles(i, next);
        k - 1
    }
}

/// What a write that is alone on the mapping leaves behind: exactly the pages
/// from that of its first byte to that of its last are dirty and open, all
/// other page states and the file are as they were, and the mapping differs at
/// most within the range. Within the range it shows what the write's turn, which
/// step `turn` ended, left there. A write of nothing changes nothing.
pub proof fn write_alone(run: Seq<System>, offset: usize, len: usize) -> (turn: int)
    requires
        alone(run),
        run[0].inv(),
        offset + len <= run[0].map.len,
        run[0].actors[0] == Actor::Writer(Write::started(run[0].map, offset, len)),
        run.last().actors[0].pending() == Action::Finish,
    ensures
        run.last().world.file == run[0].world.file,
        run.last().world.memory.len() == run[0].world.memory.len(),
        forall|at: int|
            0 <= at < run[0].map.len && !(offset <= at < offset + len)
                ==> #[trigger] run.last().world.memory[at] == run[0].world.memory[at],
        ends_turn(run, turn, offset, len),
        run.last().world.memory == run[turn + 1].world.memory,
        forall|page: int|
            0 <= page < run[0].map.page_count ==> #[trigger] run.last().world.pages[page] == (
            if 0 < len && run[0].map.page_of(offset as int) <= page <= run[0].map.page_of(
                offset + len - 1,
            ) {
                PageState { dirty: true, access: Access::Idle }
            } else {
                run[0].world.pages[page]
            }),
{
    write_is_on_track(run, offset, len, run.len() - 1);
    turn_leaves_its_bytes(run, offset, len, run.len() - 1)
}

/// What lies between a reclaim and its end: pages ahead, then steps of the run
/// at hand, then bytes or pages of that step. Each is compared before the next.
pub open spec fn reclaim_distance(reclaim: Reclaim) -> (int, int, int) {
    let ahead = 2 * (reclaim.map.page_count - reclaim.page);
    match reclaim.phase {
        ReclaimPhase::Claim => (ahead, 3, 0),
        ReclaimPhase::Probe => (ahead, 2, 0),
        ReclaimPhase::Skip | ReclaimPhase::Leave => (ahead, 1, 0),
        ReclaimPhase::ExtendProbe => (ahead + 1, 6, 0),
        ReclaimPhase::ExtendClaim => (ahead + 1, 5, 0),
        ReclaimPhase::Copy(range) => (ahead + 1, 4, range.len - range.written),
        ReclaimPhase::Discard => (ahead + 1, 3, 0),
        ReclaimPhase::Clean { at } => (ahead + 1, 2, reclaim.page - at),
        ReclaimPhase::Open { at, .. } => (ahead + 1, 1, reclaim.page - at),
        ReclaimPhase::Done(_) => (0, 0, 0),
    }
}

/// What lies between a write-back and its end, in the same way.
pub open spec fn flush_distance(flush: WriteBack) -> (int, int, int) {
    let ahead = 2 * (flush.map.page_count - flush.page);
    match flush.phase {
        WriteBackPhase::Probe => (ahead, 1, 0),
        WriteBackPhase::Extend => (ahead + 1, 2, 0),
        WriteBackPhase::Copy(range) => (ahead + 1, 1, range.len - range.written),
        WriteBackPhase::Done(_) => (0, 0, 0),
    }
}

/// What lies between a write and its end, in the same way.
pub open spec fn write_distance(write: Write) -> (int, int, int) {
    match write {
        Write::Empty { mutated, .. } => if mutated {
            (0, 0, 0)
        } else {
            (1, 0, 0)
        },
        Write::Guarded { guard, .. } => match guard.phase {
            GuardPhase::Claiming => (3, guard.last - guard.at, 0),
            GuardPhase::Held => (2, 0, 0),
            GuardPhase::Marking => (1, guard.last - guard.at, 2),
            GuardPhase::Opening => (1, guard.last - guard.at, 1),
            GuardPhase::Released => (0, 0, 0),
        },
    }
}

/// Whether the distance `a` is shorter than `b`. No distance has a negative
/// part, so there is no endless chain of shorter and shorter ones.
pub open spec fn closer(a: (int, int, int), b: (int, int, int)) -> bool {
    &&& 0 <= a.0 && 0 <= a.1 && 0 <= a.2
    &&& a.0 < b.0 || (a.0 == b.0 && (a.1 < b.1 || (a.1 == b.1 && a.2 < b.2)))
}

/// Every operation comes closer to its end with every reply, but for two: an
/// interrupted write to the file and a writer's refused claim are repeated as
/// they were. Reclaim and write-back never wait for anybody.
pub proof fn every_reply_brings_the_end_closer(map: MooMap, actor: Actor, reply: Reply)
    requires
        map.wf(),
        actor.wf(map),
        reply.answers(actor.pending()),
    ensures
        match actor {
            Actor::Writer(write) => if actor.pending() is Page && reply == Reply::Flag(false)
                && actor.pending()->Page_op is ClaimForWrite {
                write.after(reply) == write
            } else {
                closer(write_distance(write.after(reply)), write_distance(write))
            },
            Actor::Flusher(flush) => if reply == Reply::Interrupted {
                flush.after(reply) == flush
            } else {
                closer(flush_distance(flush.after(reply)), flush_distance(flush))
            },
            Actor::Reclaimer(reclaim) => if reply == Reply::Interrupted {
                reclaim.after(reply) == reclaim
            } else {
                closer(reclaim_distance(reclaim.after(reply)), reclaim_distance(reclaim))
            },
        },
{
    system::actor_stays_valid(map, actor, reply);
}

} // verus!
