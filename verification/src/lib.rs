//! A copy-on-write cache over a file mapping, with no global lock.
//!
//! A [`MooMap`](map::MooMap) describes a private, writable mapping of a whole
//! file, cut into base pages. Writers claim the pages of their range one by
//! one, change the bytes, mark the pages dirty and open them again. Write-back
//! copies dirty runs into the file without taking any gate. Reclaim gates a
//! run of dirty pages, copies it into the file, returns it to the kernel and
//! marks it clean.
//!
//! Every operation is a small machine. It names the next
//! [`Action`](action::Action), the caller performs that action against the
//! page states, the mapping or the file, and hands the
//! [`Reply`](action::Reply) back. [`world`] says what the actions do,
//! [`system`] what any interleaving of such machines keeps, [`laws`] what
//! follows for the users of a shared mapping, and [`solo`] what one machine
//! achieves on a mapping that nobody else uses meanwhile.
//!
//! The stress program's command line, memory counters and workload are in
//! [`config`], [`meminfo`], [`pressure`] and [`stress`]; [`session`] says what
//! a whole run of the workload leaves in the file.

pub mod action;
pub mod config;
pub mod laws;
pub mod map;
pub mod meminfo;
pub mod page;
pub mod pressure;
pub mod reclaim;
pub mod session;
pub mod solo;
pub mod stats;
pub mod stress;
pub mod system;
pub mod text;
pub mod transfer;
pub mod world;
pub mod write;
pub mod write_back;

pub use crate::map::MooMap;
pub use crate::stats::IoStats;
