//! Any number of writers, write-backs and reclaims on one mapping, interleaved
//! in any order.

use crate::action::{Action, Reply};
use crate::map::MooMap;
use crate::page::Access;
use crate::reclaim::{Reclaim, ReclaimPhase};
use crate::world::World;
use crate::write::{GuardPhase, Write};
use crate::write_back::WriteBack;
use vstd::arithmetic::div_mod::*;
use vstd::arithmetic::mul::*;
use vstd::prelude::*;

verus! {

/// One operation in progress.
pub enum Actor {
    /// A write.
    Writer(Write),
    /// A write-back.
    Flusher(WriteBack),
    /// A reclaim.
    Reclaimer(Reclaim),
}

impl Actor {
    /// The operation is in a valid state, and works on `map`.
    pub open spec fn wf(self, map: MooMap) -> bool {
        match self {
            Actor::Writer(write) => write.wf(map),
            Actor::Flusher(flush) => flush.wf() && flush.map == map,
            Actor::Reclaimer(reclaim) => reclaim.wf() && reclaim.map == map,
        }
    }

    /// The operation has not begun.
    pub open spec fn fresh(self, map: MooMap) -> bool {
        match self {
            Actor::Writer(write) => exists|offset: usize, len: usize|
                offset + len <= map.len && write == #[trigger] Write::started(map, offset, len),
            Actor::Flusher(flush) => flush == WriteBack::started(map),
            Actor::Reclaimer(reclaim) => exists|max_bytes: usize|
                reclaim == #[trigger] Reclaim::started(map, max_bytes),
        }
    }

    /// What the operation needs done next.
    pub open spec fn pending(self) -> Action {
        match self {
            Actor::Writer(write) => write.pending(),
            Actor::Flusher(flush) => flush.pending(),
            Actor::Reclaimer(reclaim) => reclaim.pending(),
        }
    }

    /// The operation after `reply`.
    pub open spec fn after(self, reply: Reply) -> Actor {
        match self {
            Actor::Writer(write) => Actor::Writer(write.after(reply)),
            Actor::Flusher(flush) => Actor::Flusher(flush.after(reply)),
            Actor::Reclaimer(reclaim) => Actor::Reclaimer(reclaim.after(reply)),
        }
    }

    /// Whether the operation holds `page`, that is, its gate.
    pub open spec fn holds(self, page: int) -> bool {
        match self {
            Actor::Writer(write) => write.holds(page),
            Actor::Flusher(_) => false,
            Actor::Reclaimer(reclaim) => reclaim.holds(page),
        }
    }

    /// How the gates that the operation holds are marked.
    pub open spec fn badge(self) -> Access {
        match self {
            Actor::Writer(_) => Access::Writing,
            Actor::Flusher(_) => Access::Idle,
            Actor::Reclaimer(_) => Access::Reclaiming,
        }
    }

    /// What the operation relies on in the world: the gates it holds are
    /// marked as its own, a page that a writer is about to open is dirty, and
    /// what a reclaim has written of its run is what the mapping shows.
    pub open spec fn agrees(self, map: MooMap, world: World) -> bool {
        &&& forall|page: int| #[trigger]
            self.holds(page) ==> 0 <= page < map.page_count && world.pages[page].access
                == self.badge()
        &&& match self {
            Actor::Writer(Write::Guarded { guard, .. }) => guard.phase == GuardPhase::Opening
                ==> world.pages[guard.at as int].dirty,
            Actor::Reclaimer(reclaim) => match reclaim.phase {
                ReclaimPhase::Copy(range) => world.synced(
                    range.offset as int,
                    range.offset + range.written,
                ),
                ReclaimPhase::Discard | ReclaimPhase::Clean { .. } => world.synced(
                    map.boundary(reclaim.start as int),
                    map.boundary(reclaim.page as int),
                ),
                _ => true,
            },
            _ => true,
        }
    }
}

/// A mapping with the operations in progress on it.
pub struct System {
    /// The shape of the mapping.
    pub map: MooMap,
    /// The page states, the mapped bytes and the file.
    pub world: World,
    /// The operations, in the order in which they were started.
    pub actors: Seq<Actor>,
}

impl System {
    /// What every reachable state satisfies: each operation agrees with the
    /// world, no gate has two holders, no closed gate is without one, and
    /// clean pages that no writer holds show the file.
    pub open spec fn inv(self) -> bool {
        &&& self.map.wf()
        &&& self.world.wf(self.map)
        &&& forall|i: int|
            0 <= i < self.actors.len() ==> (#[trigger] self.actors[i]).wf(self.map)
                && self.actors[i].agrees(self.map, self.world)
        &&& forall|i: int, j: int, page: int|
            0 <= i < self.actors.len() && 0 <= j < self.actors.len() && i != j
                && #[trigger] self.actors[i].holds(page) ==> !#[trigger] self.actors[j].holds(page)
        &&& forall|page: int|
            0 <= page < self.map.page_count && (#[trigger] self.world.pages[page]).access
                != Access::Idle ==> self.held(page)
        &&& self.world.clean_pages_synced(self.map)
    }

    /// Whether some operation holds `page`, that is, its gate.
    pub open spec fn held(self, page: int) -> bool {
        exists|i: int| 0 <= i < self.actors.len() && #[trigger] self.actors[i].holds(page)
    }

    /// Operation `i` gets its pending action carried out, with the outcome `reply`.
    pub open spec fn advances(self, i: int, reply: Reply, next: System) -> bool {
        &&& 0 <= i < self.actors.len()
        &&& next.map == self.map
        &&& next.actors == self.actors.update(i, self.actors[i].after(reply))
        &&& self.world.allows(self.actors[i].pending(), reply, next.world)
    }

    /// Operation `i`, a writer at its turn, changes some bytes of its range
    /// and is not finished yet.
    pub open spec fn scribbles(self, i: int, next: System) -> bool {
        &&& 0 <= i < self.actors.len()
        &&& next.map == self.map
        &&& next.actors == self.actors
        &&& match self.actors[i].pending() {
            Action::Mutate { offset, len } => self.world.touched(
                offset as int,
                offset + len,
                next.world,
            ),
            _ => false,
        }
    }

    /// A new operation begins.
    pub open spec fn admits(self, actor: Actor, next: System) -> bool {
        &&& actor.fresh(self.map)
        &&& next.map == self.map
        &&& next.world == self.world
        &&& next.actors == self.actors.push(actor)
    }

    /// One step of any operation, or the start of a new one.
    pub open spec fn steps_to(self, next: System) -> bool {
        ||| exists|i: int, reply: Reply| #[trigger] self.advances(i, reply, next)
        ||| exists|i: int| #[trigger] self.scribbles(i, next)
        ||| exists|actor: Actor| #[trigger] self.admits(actor, next)
    }

    /// A mapping of `file` that has just been made.
    pub open spec fn opened(map: MooMap, file: Seq<u8>) -> System {
        System { map, world: World::mapped(map, file), actors: Seq::empty() }
    }
}

/// A mapping that has just been made satisfies the invariant.
pub proof fn opened_is_valid(map: MooMap, file: Seq<u8>)
    requires
        map.wf(),
        file.len() == map.len,
    ensures
        System::opened(map, file).inv(),
{
}

/// A step of a write leaves it valid.
proof fn write_stays_valid(map: MooMap, write: Write, reply: Reply)
    requires
        write.wf(map),
        reply.answers(write.pending()),
    ensures
        write.after(reply).wf(map),
{
}

/// A step of a write-back leaves it valid.
proof fn flush_stays_valid(flush: WriteBack, reply: Reply)
    requires
        flush.wf(),
        reply.answers(flush.pending()),
    ensures
        flush.after(reply).wf(),
        flush.after(reply).map == flush.map,
{
    flush.map.boundary_is_ordered(flush.page as int, flush.page + 1);
    if flush.start <= flush.page {
        flush.map.boundary_is_ordered(flush.start as int, flush.page as int);
        flush.map.boundary_is_ordered(flush.start as int, flush.page + 1);
    }
}

/// A step of a reclaim leaves it valid.
proof fn reclaim_stays_valid(reclaim: Reclaim, reply: Reply)
    requires
        reclaim.wf(),
        reply.answers(reclaim.pending()),
    ensures
        reclaim.after(reply).wf(),
        reclaim.after(reply).map == reclaim.map,
{
    reclaim.map.boundary_is_ordered(reclaim.page as int, reclaim.page + 1);
    if reclaim.start <= reclaim.page {
        reclaim.map.boundary_is_ordered(reclaim.start as int, reclaim.page as int);
        reclaim.map.boundary_is_ordered(reclaim.start as int, reclaim.page + 1);
    }
}

/// A step of an operation leaves it valid.
pub proof fn actor_stays_valid(map: MooMap, actor: Actor, reply: Reply)
    requires
        map.wf(),
        actor.wf(map),
        reply.answers(actor.pending()),
    ensures
        actor.after(reply).wf(map),
        actor.after(reply).badge() == actor.badge(),
{
    match actor {
        Actor::Writer(write) => write_stays_valid(map, write, reply),
        Actor::Flusher(flush) => flush_stays_valid(flush, reply),
        Actor::Reclaimer(reclaim) => reclaim_stays_valid(reclaim, reply),
    }
}

/// An operation that has not begun is valid, and holds nothing.
pub proof fn fresh_is_valid(map: MooMap, actor: Actor)
    requires
        map.wf(),
        actor.fresh(map),
    ensures
        actor.wf(map),
        forall|page: int| !actor.holds(page),
        forall|world: World| #[trigger] actor.agrees(map, world),
{
    map.boundary_ends();
    lemma_mul_basics(map.page_size as int);
    match actor {
        Actor::Writer(write) => {
            let (offset, len) = choose|offset: usize, len: usize|
                offset + len <= map.len && write == #[trigger] Write::started(map, offset, len);
            if len > 0 {
                map.byte_is_on_its_page(offset as int);
                map.byte_is_on_its_page(offset + len - 1);
                lemma_div_is_ordered(offset as int, offset + len - 1, map.page_size as int);
            }
        },
        Actor::Flusher(_) => {},
        Actor::Reclaimer(_) => {
            map.boundary_is_ordered(0, 1);
        },
    }
}

/// Gates change hands only where the action says so: a claim that succeeds
/// adds its page, a release drops its page, and nothing else changes what an
/// operation holds. What it releases or marks it holds.
pub proof fn gates_follow_actions(map: MooMap, actor: Actor, reply: Reply)
    requires
        map.wf(),
        actor.wf(map),
        reply.answers(actor.pending()),
    ensures
        match actor.pending() {
            Action::Page { page, op } => {
                let taken = (op is ClaimForWrite || op is ClaimForReclaim) && reply == Reply::Flag(
                    true,
                );
                &&& page < map.page_count
                &&& op is ClaimForWrite ==> actor.badge() == Access::Writing
                &&& op is ClaimForReclaim ==> actor.badge() == Access::Reclaiming
                &&& (op is Release || op is SetDirty || op is ClearDirty) ==> actor.holds(
                    page as int,
                )
                &&& forall|p: int| #[trigger]
                    actor.after(reply).holds(p) == ((actor.holds(p) && !(op is Release && p
                        == page)) || (taken && p == page))
            },
            _ => forall|p: int| #[trigger] actor.after(reply).holds(p) == actor.holds(p),
        },
        forall|p: int| #[trigger] actor.holds(p) ==> 0 <= p < map.page_count,
{
    actor_stays_valid(map, actor, reply);
}

/// A writer at its turn holds the page of every byte it may change.
pub proof fn writer_holds_its_bytes(map: MooMap, actor: Actor, at: int)
    requires
        map.wf(),
        actor.wf(map),
        actor.pending() matches Action::Mutate { offset, len } && offset <= at < offset + len,
    ensures
        actor is Writer,
        actor.holds(map.page_of(at)),
{
    match actor {
        Actor::Writer(Write::Guarded { offset, len, guard }) => {
            map.pages_and_bytes_agree(offset as int, guard.first as int, guard.first + 1);
            map.pages_and_bytes_agree(offset + len - 1, guard.last as int, guard.last + 1);
            lemma_div_is_ordered(offset as int, at, map.page_size as int);
            lemma_div_is_ordered(at, offset + len - 1, map.page_size as int);
        },
        _ => {},
    }
}

/// A reclaim that writes, discards or cleans its run holds the page of every
/// byte of the run.
pub proof fn reclaim_holds_its_bytes(map: MooMap, reclaim: Reclaim, at: int)
    requires
        map.wf(),
        reclaim.wf(),
        reclaim.map == map,
        reclaim.phase is Copy || reclaim.phase is Discard || reclaim.phase is Clean,
        map.boundary(reclaim.start as int) <= at < map.boundary(reclaim.page as int),
    ensures
        0 <= at < map.len,
        reclaim.start <= map.page_of(at) < reclaim.page,
        reclaim.holds(map.page_of(at)),
{
    map.boundary_is_ordered(reclaim.start as int, reclaim.page as int);
    map.pages_and_bytes_agree(at, reclaim.start as int, reclaim.page as int);
}

/// A step changes mapped bytes only for a writer at its turn, on pages that it
/// holds; and wherever the mapping showed the file, it still does, except
/// where such a writer is at work.
pub proof fn bytes_change_under_gates(
    map: MooMap,
    actor: Actor,
    reply: Reply,
    world: World,
    next: World,
)
    requires
        map.wf(),
        world.wf(map),
        actor.wf(map),
        actor.agrees(map, world),
        world.allows(actor.pending(), reply, next),
    ensures
        next.wf(map),
        forall|at: int|
            0 <= at < map.len && #[trigger] next.memory[at] != world.memory[at] ==> actor is Writer
                && actor.pending() is Mutate && actor.holds(map.page_of(at)),
        forall|at: int|
            0 <= at < map.len && #[trigger] next.file[at] != world.file[at] ==> next.file[at]
                == world.memory[at],
        !(actor.pending() is Mutate) ==> next.memory == world.memory,
{
    assert forall|at: int|
        0 <= at < map.len && #[trigger] next.memory[at]
            != world.memory[at] implies actor is Writer && actor.pending() is Mutate
        && actor.holds(map.page_of(at)) by {
        match actor.pending() {
            Action::Mutate { offset, len } => {
                writer_holds_its_bytes(map, actor, at);
            },
            Action::Discard { .. } => {
                match actor {
                    Actor::Reclaimer(reclaim) => {
                        map.boundary_is_ordered(reclaim.start as int, reclaim.page as int);
                        assert(world.memory[at] == world.file[at] || next.memory[at]
                            == world.memory[at]);
                    },
                    _ => {},
                }
            },
            _ => {},
        }
    }
}

/// The operation that takes a step still agrees with the world.
proof fn own_step_agrees(map: MooMap, actor: Actor, reply: Reply, world: World, next: World)
    requires
        map.wf(),
        world.wf(map),
        actor.wf(map),
        actor.agrees(map, world),
        world.allows(actor.pending(), reply, next),
    ensures
        actor.after(reply).agrees(map, next),
{
    gates_follow_actions(map, actor, reply);
    bytes_change_under_gates(map, actor, reply, world, next);
    match actor {
        Actor::Reclaimer(reclaim) => {
            if reclaim.start <= reclaim.page {
                map.boundary_is_ordered(reclaim.start as int, reclaim.page as int);
            }
        },
        _ => {},
    }
}

/// An operation that shares no gate with the one that takes a step still
/// agrees with the world.
proof fn other_step_agrees(
    map: MooMap,
    actor: Actor,
    reply: Reply,
    other: Actor,
    world: World,
    next: World,
)
    requires
        map.wf(),
        world.wf(map),
        actor.wf(map),
        actor.agrees(map, world),
        other.wf(map),
        other.agrees(map, world),
        forall|page: int| actor.holds(page) ==> !#[trigger] other.holds(page),
        world.allows(actor.pending(), reply, next),
    ensures
        other.agrees(map, next),
{
    gates_follow_actions(map, actor, reply);
    bytes_change_under_gates(map, actor, reply, world, next);
    match other {
        Actor::Writer(Write::Guarded { guard, .. }) => {
            if guard.phase == GuardPhase::Opening {
                assert(other.holds(guard.at as int));
            }
        },
        Actor::Reclaimer(reclaim) => {
            if reclaim.phase is Copy || reclaim.phase is Discard || reclaim.phase is Clean {
                let from = map.boundary(reclaim.start as int);
                let to = map.boundary(reclaim.page as int);
                assert forall|at: int|
                    from <= at < to && world.memory[at] == world.file[at] implies #[trigger] next.memory[at]
                    == next.file[at] by {
                    reclaim_holds_its_bytes(map, reclaim, at);
                    assert(other.holds(map.page_of(at)));
                }
            }
        },
        _ => {},
    }
}

/// A step keeps clean pages that no writer holds in line with the file.
proof fn step_keeps_clean_pages_synced(
    map: MooMap,
    actor: Actor,
    reply: Reply,
    world: World,
    next: World,
)
    requires
        map.wf(),
        world.wf(map),
        world.clean_pages_synced(map),
        actor.wf(map),
        actor.agrees(map, world),
        world.allows(actor.pending(), reply, next),
    ensures
        next.clean_pages_synced(map),
{
    gates_follow_actions(map, actor, reply);
    bytes_change_under_gates(map, actor, reply, world, next);
    assert forall|at: int|
        0 <= at < map.len && !next.pages[map.page_of(at)].dirty && next.pages[map.page_of(
            at,
        )].access != Access::Writing implies #[trigger] next.memory[at] == next.file[at] by {
        let page = map.page_of(at);
        map.byte_is_on_its_page(at);
        match actor.pending() {
            Action::Page { page: target, op } => {
                if target == page && op is ClearDirty {
                    match actor {
                        Actor::Reclaimer(reclaim) => {
                            map.pages_and_bytes_agree(
                                at,
                                reclaim.start as int,
                                reclaim.page as int,
                            );
                        },
                        _ => {},
                    }
                }
            },
            _ => {},
        }
    }
}

/// Carrying out the pending action of any operation keeps the invariant.
proof fn advance_keeps_invariant(sys: System, i: int, reply: Reply, next: System)
    requires
        sys.inv(),
        sys.advances(i, reply, next),
    ensures
        next.inv(),
{
    let map = sys.map;
    let actor = sys.actors[i];
    gates_follow_actions(map, actor, reply);
    bytes_change_under_gates(map, actor, reply, sys.world, next.world);
    actor_stays_valid(map, actor, reply);
    step_keeps_clean_pages_synced(map, actor, reply, sys.world, next.world);
    assert forall|j: int| 0 <= j < next.actors.len() implies (#[trigger] next.actors[j]).wf(map)
        && next.actors[j].agrees(map, next.world) by {
        let other = sys.actors[j];
        if j == i {
            own_step_agrees(map, actor, reply, sys.world, next.world);
        } else {
            other_step_agrees(map, actor, reply, other, sys.world, next.world);
        }
    }
    assert forall|j: int, k: int, page: int|
        0 <= j < next.actors.len() && 0 <= k < next.actors.len() && j != k
            && #[trigger] next.actors[j].holds(page) implies !#[trigger] next.actors[k].holds(
        page,
    ) by {
        // Only operation `i` can have gained a page, and only one that was idle.
        let a = sys.actors[j];
        let b = sys.actors[k];
        assert(a.agrees(map, sys.world) && b.agrees(map, sys.world));
    }
    assert forall|page: int|
        0 <= page < map.page_count && (#[trigger] next.world.pages[page]).access
            != Access::Idle implies next.held(page) by {
        if sys.world.pages[page].access == Access::Idle {
            assert(next.actors[i].holds(page));
        } else {
            let holder = choose|j: int|
                0 <= j < sys.actors.len() && #[trigger] sys.actors[j].holds(page);
            assert(next.actors[holder].holds(page));
        }
    }
}

/// A writer that changes bytes at its turn keeps the invariant.
proof fn scribble_keeps_invariant(sys: System, i: int, next: System)
    requires
        sys.inv(),
        sys.scribbles(i, next),
    ensures
        next.inv(),
{
    let map = sys.map;
    let actor = sys.actors[i];
    let reply = Reply::Done;
    bytes_change_under_gates(map, actor, reply, sys.world, next.world);
    step_keeps_clean_pages_synced(map, actor, reply, sys.world, next.world);
    assert forall|j: int| 0 <= j < next.actors.len() implies (#[trigger] next.actors[j]).wf(map)
        && next.actors[j].agrees(map, next.world) by {
        if j != i {
            other_step_agrees(map, actor, reply, sys.actors[j], sys.world, next.world);
        }
    }
}

/// A new operation keeps the invariant.
proof fn admission_keeps_invariant(sys: System, actor: Actor, next: System)
    requires
        sys.inv(),
        sys.admits(actor, next),
    ensures
        next.inv(),
{
    let map = sys.map;
    fresh_is_valid(map, actor);
    assert forall|page: int|
        0 <= page < map.page_count && (#[trigger] next.world.pages[page]).access
            != Access::Idle implies next.held(page) by {
        let holder = choose|j: int|
            0 <= j < sys.actors.len() && #[trigger] sys.actors[j].holds(page);
        assert(next.actors[holder].holds(page));
    }
}

/// Whatever operation takes the next step, and whatever comes of its action,
/// the invariant is kept.
pub proof fn step_keeps_invariant(sys: System, next: System)
    requires
        sys.inv(),
        sys.steps_to(next),
    ensures
        next.inv(),
{
    if exists|i: int, reply: Reply| #[trigger] sys.advances(i, reply, next) {
        let (i, reply) = choose|i: int, reply: Reply| #[trigger] sys.advances(i, reply, next);
        advance_keeps_invariant(sys, i, reply, next);
    } else if exists|i: int| #[trigger] sys.scribbles(i, next) {
        let i = choose|i: int| #[trigger] sys.scribbles(i, next);
        scribble_keeps_invariant(sys, i, next);
    } else {
        let actor = choose|actor: Actor| #[trigger] sys.admits(actor, next);
        admission_keeps_invariant(sys, actor, next);
    }
}

} // verus!
