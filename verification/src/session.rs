//! Whole runs of the workload, and what they leave in the file.

use crate::action::Action;
use crate::config::Mode;
use crate::laws;
use crate::map::MooMap;
use crate::reclaim::Reclaim;
use crate::solo;
use crate::stress::{self, Stress, StressAction, StressPhase, StressReply};
use crate::system::{self, Actor, System};
use crate::world::World;
use crate::write::Write;
use crate::write_back::WriteBack;
use vstd::prelude::*;

verus! {

/// What a run reads from the random stream for one chunk.
pub struct Draw {
    /// The data to work in.
    pub data: Seq<u8>,
    /// The first number that decides where it goes.
    pub first: u64,
    /// The second number.
    pub second: u64,
}

/// A moment of a run on a mapping.
pub struct Session {
    /// The run.
    pub stress: Stress,
    /// The mapping and the file.
    pub world: World,
    /// How many chunks have been read from the random stream.
    pub drawn: int,
}

/// A file of `len` bytes that nobody has written to.
pub open spec fn blank(len: usize) -> Seq<u8> {
    Seq::new(len as nat, |at: int| 0u8)
}

/// The bytes of `memory`, with `data` worked in from `offset` on.
pub open spec fn worked_in(memory: Seq<u8>, offset: int, data: Seq<u8>) -> Seq<u8> {
    Seq::new(
        memory.len(),
        |at: int|
            if offset <= at < offset + data.len() {
                memory[at] ^ data[at - offset]
            } else {
                memory[at]
            },
    )
}

/// The bytes of `memory` once the chunks from the `k`-th on have been worked
/// in, `left` bytes in all: where each chunk goes is up to its two numbers.
pub open spec fn all_worked_in(
    memory: Seq<u8>,
    left: int,
    chunk_size: int,
    draws: Seq<Draw>,
    k: int,
) -> Seq<u8>
    decreases left,
{
    if left <= 0 || chunk_size <= 0 {
        memory
    } else {
        let draw = draws[k];
        let amount = if left < chunk_size {
            left
        } else {
            chunk_size
        };
        let offset = stress::place(draw.first, draw.second, memory.len() - chunk_size);
        all_worked_in(
            worked_in(memory, offset, draw.data),
            left - amount,
            chunk_size,
            draws,
            k + 1,
        )
    }
}

/// Whether `run` takes `actor`, alone on the mapping, from its beginning in
/// the world `before` to its end in the world `after`.
pub open spec fn performs(
    run: Seq<System>,
    map: MooMap,
    before: World,
    actor: Actor,
    after: World,
) -> bool {
    &&& solo::alone(run)
    &&& run[0] == (System { map, world: before, actors: seq![actor] })
    &&& run.last().world == after
    &&& run.last().actors[0].pending() == Action::Finish
}

/// Whether the write of `offset..offset + amount` in `run` combines its range
/// with `data` at its turn.
pub open spec fn combines(run: Seq<System>, offset: usize, amount: usize, data: Seq<u8>) -> bool {
    forall|turn: int| #[trigger]
        solo::ends_turn(run, turn, offset, amount) ==> run[turn + 1].world.memory.subrange(
            offset as int,
            offset + amount,
        ) == stress::combined(
            run[0].world.memory.subrange(offset as int, offset + amount),
            data,
        )
}

/// Whether the write-back or reclaim in `run` ended well.
pub open spec fn succeeded(run: Seq<System>) -> bool {
    match run.last().actors[0] {
        Actor::Flusher(flush) => flush.outcome() matches Some(Ok(_)),
        Actor::Reclaimer(reclaim) => reclaim.outcome() matches Some(Ok(_)),
        Actor::Writer(_) => false,
    }
}

/// Whether carrying out `action` without a failure, with `data` at hand, can
/// turn the world `before` into `after`.
///
/// On a private mapping writes, write-backs and reclaims run one after the
/// other. A shared mapping shows the file itself, so that writing it back or
/// giving pages back changes no byte.
pub open spec fn carried_out(
    mode: Mode,
    map: MooMap,
    before: World,
    action: StressAction,
    data: Seq<u8>,
    after: World,
) -> bool {
    match (mode, action) {
        (Mode::MooMap, StressAction::Xor { offset, amount }) => exists|run: Seq<System>|
            #![trigger combines(run, offset, amount, data)]
            performs(
                run,
                map,
                before,
                Actor::Writer(Write::started(map, offset, amount)),
                after,
            ) && combines(run, offset, amount, data),
        (Mode::MooMap, StressAction::WriteBack) => exists|run: Seq<System>|
            #![trigger succeeded(run)]
            performs(run, map, before, Actor::Flusher(WriteBack::started(map)), after)
                && succeeded(run),
        (Mode::MooMap, StressAction::Reclaim { bytes }) => exists|run: Seq<System>|
            #![trigger succeeded(run)]
            performs(run, map, before, Actor::Reclaimer(Reclaim::started(map, bytes)), after)
                && succeeded(run),
        (Mode::Mmap, StressAction::Xor { offset, .. }) => {
            &&& after.pages == before.pages
            &&& after.memory == worked_in(before.memory, offset as int, data)
            &&& after.file == after.memory
        },
        _ => after == before,
    }
}

/// Whether a run can go on from `now` to `next` with `reply`. Clocks and memory
/// counters may show anything; the random data is that of `draws`.
pub open spec fn goes_on(
    mode: Mode,
    map: MooMap,
    draws: Seq<Draw>,
    now: Session,
    reply: StressReply,
    next: Session,
) -> bool {
    let action = now.stress.pending();
    &&& reply.answers(action)
    &&& next.stress == now.stress.after(reply)
    &&& carried_out(mode, map, now.world, action, draws[now.drawn - 1].data, next.world)
    &&& match action {
        StressAction::Fill { amount } => {
            &&& now.drawn < draws.len()
            &&& draws[now.drawn].data.len() == amount
            &&& reply == (StressReply::Numbers {
                first: draws[now.drawn].first,
                second: draws[now.drawn].second,
            })
            &&& next.drawn == now.drawn + 1
        },
        _ => next.drawn == now.drawn,
    }
}

/// Moment `k + 1` of a run follows from moment `k`.
pub open spec fn linked(
    mode: Mode,
    map: MooMap,
    draws: Seq<Draw>,
    trace: Seq<Session>,
    k: int,
) -> bool {
    exists|reply: StressReply| #[trigger] goes_on(mode, map, draws, trace[k], reply, trace[k + 1])
}

/// The moments of a run over a blank file of the mapping's length.
pub open spec fn session(
    mode: Mode,
    map: MooMap,
    draws: Seq<Draw>,
    io_bytes: u64,
    chunk_size: usize,
    trace: Seq<Session>,
) -> bool {
    &&& 0 < trace.len()
    &&& trace[0].stress == Stress::started(map.len, io_bytes, chunk_size)
    &&& trace[0].world == World::mapped(map, blank(map.len))
    &&& trace[0].drawn == 0
    &&& forall|k: int|
        0 <= k < trace.len() - 1 ==> #[trigger] linked(mode, map, draws, trace, k)
}

/// Whether the mapping is at rest: valid, with no operation in progress.
pub open spec fn at_rest(map: MooMap, world: World) -> bool {
    (System { map, world, actors: Seq::empty() }).inv()
}

/// Once every operation has ended the mapping is at rest.
proof fn ended_operations_leave_rest(sys: System)
    requires
        sys.inv(),
        forall|i: int|
            0 <= i < sys.actors.len() ==> (#[trigger] sys.actors[i]).pending() == Action::Finish,
    ensures
        at_rest(sys.map, sys.world),
{
    laws::ended_operations_hold_nothing(sys);
}

/// Where a run stands: the bytes that the mapping will show in the end are
/// `expected`, and the file is in line with the mapping as the mode demands.
pub open spec fn on_course(
    mode: Mode,
    map: MooMap,
    draws: Seq<Draw>,
    io_bytes: u64,
    chunk_size: usize,
    expected: Seq<u8>,
    now: Session,
) -> bool {
    let run = now.stress;
    let memory = now.world.memory;
    &&& run.wf()
    &&& run.file_size == map.len
    &&& run.io_bytes == io_bytes
    &&& run.chunk_size == chunk_size
    &&& memory.len() == map.len
    &&& match mode {
        Mode::MooMap => at_rest(map, now.world),
        Mode::Mmap => now.world.file == memory,
    }
    &&& match run.phase {
        StressPhase::Xor { offset } => {
            let draw = draws[now.drawn - 1];
            &&& draw.data.len() == run.amount
            &&& offset == stress::place(draw.first, draw.second, map.len - chunk_size)
            &&& expected == all_worked_in(
                memory,
                io_bytes - run.processed,
                chunk_size as int,
                draws,
                now.drawn - 1,
            )
        },
        _ => expected == all_worked_in(
            memory,
            io_bytes - run.processed,
            chunk_size as int,
            draws,
            now.drawn,
        ),
    }
    &&& run.phase is Done ==> now.world.file == memory
}

/// An action carried out on a private mapping leaves it at rest. Working data
/// in does just that; nothing else changes what the mapping shows, and a
/// write-back leaves the file equal to it.
proof fn private_mapping_keeps_its_bytes(
    map: MooMap,
    before: World,
    action: StressAction,
    data: Seq<u8>,
    after: World,
)
    requires
        at_rest(map, before),
        carried_out(Mode::MooMap, map, before, action, data, after),
        action matches StressAction::Xor { offset, amount } ==> offset + amount <= map.len
            && data.len() == amount,
    ensures
        at_rest(map, after),
        after.memory == match action {
            StressAction::Xor { offset, .. } => worked_in(before.memory, offset as int, data),
            _ => before.memory,
        },
        action is WriteBack ==> after.file == after.memory,
{
    let rest = System { map, world: before, actors: Seq::empty() };
    match action {
        StressAction::Xor { offset, amount } => {
            let actor = Actor::Writer(Write::started(map, offset, amount));
            let run = choose|run: Seq<System>|
                #![trigger combines(run, offset, amount, data)]
                performs(run, map, before, actor, after) && combines(run, offset, amount, data);
            laws::ended_operations_leave_no_trace(rest, actor);
            laws::run_keeps_invariant(run, run.len() - 1);
            ended_operations_leave_rest(run.last());
            let _ = solo::write_alone(run, offset, amount);
            let left = after.memory.subrange(offset as int, offset + amount);
            assert forall|at: int| 0 <= at < map.len implies #[trigger] after.memory[at]
                == worked_in(before.memory, offset as int, data)[at] by {
                if offset <= at < offset + amount {
                    assert(left[at - offset] == after.memory[at]);
                }
            }
        },
        StressAction::WriteBack => {
            let actor = Actor::Flusher(WriteBack::started(map));
            let run = choose|run: Seq<System>|
                #![trigger succeeded(run)]
                performs(run, map, before, actor, after) && succeeded(run);
            laws::ended_operations_leave_no_trace(rest, actor);
            laws::run_keeps_invariant(run, run.len() - 1);
            ended_operations_leave_rest(run.last());
            operation_keeps_its_kind(run, run.len() - 1);
            let result = run.last().actors[0]->Flusher_0.outcome()->0;
            let _ = solo::write_back_alone(run, result);
        },
        StressAction::Reclaim { bytes } => {
            let actor = Actor::Reclaimer(Reclaim::started(map, bytes));
            let run = choose|run: Seq<System>|
                #![trigger succeeded(run)]
                performs(run, map, before, actor, after) && succeeded(run);
            laws::ended_operations_leave_no_trace(rest, actor);
            laws::run_keeps_invariant(run, run.len() - 1);
            ended_operations_leave_rest(run.last());
            operation_keeps_its_kind(run, run.len() - 1);
            let result = run.last().actors[0]->Reclaimer_0.outcome()->0;
            let _ = solo::reclaim_alone(run, bytes, result);
        },
        _ => {},
    }
}

/// An operation that is alone on the mapping stays the operation that it is.
proof fn operation_keeps_its_kind(run: Seq<System>, k: int)
    requires
        solo::alone(run),
        run[0].inv(),
        0 <= k < run.len(),
    ensures
        run[k].actors[0] is Flusher == run[0].actors[0] is Flusher,
        run[k].actors[0] is Reclaimer == run[0].actors[0] is Reclaimer,
    decreases k,
{
    if k > 0 {
        operation_keeps_its_kind(run, k - 1);
        assert(laws::linked(run, k - 1));
    }
}

/// Every step keeps a run on course.
proof fn step_stays_on_course(
    mode: Mode,
    map: MooMap,
    draws: Seq<Draw>,
    io_bytes: u64,
    chunk_size: usize,
    expected: Seq<u8>,
    now: Session,
    reply: StressReply,
    next: Session,
)
    requires
        on_course(mode, map, draws, io_bytes, chunk_size, expected, now),
        goes_on(mode, map, draws, now, reply, next),
    ensures
        on_course(mode, map, draws, io_bytes, chunk_size, expected, next),
{
    let action = now.stress.pending();
    let data = draws[now.drawn - 1].data;
    stress::run_works_in_everything(now.stress, reply);
    stress::chunks_stay_in_the_file(now.stress);
    match mode {
        Mode::MooMap => {
            private_mapping_keeps_its_bytes(map, now.world, action, data, next.world);
        },
        Mode::Mmap => {},
    }
    if let StressAction::Fill { .. } = action {
        vstd::arithmetic::div_mod::lemma_mod_bound(
            draws[now.drawn].first as int,
            map.len - chunk_size + 1,
        );
        vstd::arithmetic::div_mod::lemma_mod_bound(
            draws[now.drawn].second as int,
            map.len - chunk_size + 1,
        );
    }
}

/// A run is on course at every moment.
proof fn session_stays_on_course(
    mode: Mode,
    map: MooMap,
    draws: Seq<Draw>,
    io_bytes: u64,
    chunk_size: usize,
    trace: Seq<Session>,
    k: int,
)
    requires
        map.wf(),
        0 < chunk_size <= map.len,
        session(mode, map, draws, io_bytes, chunk_size, trace),
        0 <= k < trace.len(),
    ensures
        on_course(
            mode,
            map,
            draws,
            io_bytes,
            chunk_size,
            all_worked_in(blank(map.len), io_bytes as int, chunk_size as int, draws, 0),
            trace[k],
        ),
    decreases k,
{
    let expected = all_worked_in(blank(map.len), io_bytes as int, chunk_size as int, draws, 0);
    if k == 0 {
        system::opened_is_valid(map, blank(map.len));
    } else {
        session_stays_on_course(mode, map, draws, io_bytes, chunk_size, trace, k - 1);
        assert(linked(mode, map, draws, trace, k - 1));
        let reply = choose|reply: StressReply| #[trigger]
            goes_on(mode, map, draws, trace[k - 1], reply, trace[k]);
        step_stays_on_course(
            mode,
            map,
            draws,
            io_bytes,
            chunk_size,
            expected,
            trace[k - 1],
            reply,
            trace[k],
        );
    }
}

/// What a run that ends well leaves in the file: a blank file with every chunk
/// of the random stream worked in at its place. Neither the mode nor the clocks
/// nor the memory counters matter, so no write-back and no reclaim, whenever it
/// happens, changes or loses a byte.
pub proof fn run_leaves_the_random_data(
    mode: Mode,
    map: MooMap,
    draws: Seq<Draw>,
    io_bytes: u64,
    chunk_size: usize,
    trace: Seq<Session>,
)
    requires
        map.wf(),
        0 < chunk_size <= map.len,
        session(mode, map, draws, io_bytes, chunk_size, trace),
        trace.last().stress.pending() == StressAction::Finish,
    ensures
        trace.last().world.file == all_worked_in(
            blank(map.len),
            io_bytes as int,
            chunk_size as int,
            draws,
            0,
        ),
{
    session_stays_on_course(mode, map, draws, io_bytes, chunk_size, trace, trace.len() - 1);
}

/// Two runs with the same sizes over the same random stream leave the same
/// file, whatever mapping each of them exercises, and whatever clocks and
/// memory counters show meanwhile.
pub proof fn modes_leave_the_same_file(
    a: (Mode, MooMap, Seq<Session>),
    b: (Mode, MooMap, Seq<Session>),
    draws: Seq<Draw>,
    io_bytes: u64,
    chunk_size: usize,
)
    requires
        a.1.wf(),
        b.1.wf(),
        a.1.len == b.1.len,
        0 < chunk_size <= a.1.len,
        session(a.0, a.1, draws, io_bytes, chunk_size, a.2),
        session(b.0, b.1, draws, io_bytes, chunk_size, b.2),
        a.2.last().stress.pending() == StressAction::Finish,
        b.2.last().stress.pending() == StressAction::Finish,
    ensures
        a.2.last().world.file == b.2.last().world.file,
{
    run_leaves_the_random_data(a.0, a.1, draws, io_bytes, chunk_size, a.2);
    run_leaves_the_random_data(b.0, b.1, draws, io_bytes, chunk_size, b.2);
}

} // verus!
