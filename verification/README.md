# MooMap

MooMap keeps file-backed pages resident as private copy-on-write pages, writes
them back to the file in contiguous runs, and returns selected pages to the
kernel without stopping unrelated writers. There is no global lock: every page
has a gate of its own.

## Layout

`src/` is the library, verified with Verus.

- `map`, `page`, `stats`: the shape of a mapping, the state of a page, and the
  counters of an operation.
- `action`: what an operation asks of its caller, and the replies.
- `write`, `write_back`, `reclaim`, `transfer`: the operations. Each is a
  machine that asks for one action at a time and goes on from the reply.
- `world`: what the actions do to page states, mapped bytes and file.
- `system`: any number of operations on one mapping, interleaved in any order,
  and the invariant that they keep.
- `laws`: what follows for everybody who shares a mapping. Readers see only
  what writers wrote; overlapping writers take turns; a run under reclaim is
  closed from its write to its discard; no write is lost; a write-back saves
  every page that no writer holds meanwhile, and without writers it is a flush;
  a reclaim takes every page that it can have; nobody deadlocks, as long as
  every writer's turn ends by itself.
- `solo`: what one operation achieves when it is alone, down to its counters
  and to what a failure leaves behind, and that every reply brings it closer to
  its end, but for interrupted writes to the file and refused writers' claims,
  which are repeated.
- `text`, `config`, `meminfo`, `pressure`, `stress`: the stress program's
  command line, memory counters and workload.
- `session`: whole runs of the workload. Private and shared mappings end with
  the same file for the same random data.

`app/` is the program around it. It owns the memory mapping, the file, one
atomic cell per page, the clocks and the random source, and performs the
actions.

`tests/` runs the operations against a kernel kept in plain memory.

## What the proofs take for granted

The effects of the actions are those of `World::allows`: an operation on a page
state is indivisible, a write to the file copies the bytes that the mapping
shows at that moment, and discarded bytes show the file again. Nothing else
writes to the file while it is mapped. A shared mapping shows the file itself.
