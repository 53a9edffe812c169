use moomap::config::{parse_bytes, Command, Config, ConfigError, Mode, GIB, TIB};
use moomap::map::MapError;
use moomap::meminfo::{memory_usage, MemoryCounters, MissingCounter};
use moomap::pressure::MemoryUsage;
use moomap::stress::{
    allocation_size, xor, Stress, StressAction, StressReply, Timer,
};

#[test]
fn reclaim_uses_larger_of_physical_and_commit_pressure() {
    let gib = GIB;
    let physical_pressure = MemoryUsage {
        total: 10 * gib,
        available: gib,
        commit_limit: 20 * gib,
        committed: 10 * gib,
    };
    assert_eq!(physical_pressure.reclaim_bytes(20 * gib), 5 * gib as usize);

    let commit_pressure = MemoryUsage {
        total: 10 * gib,
        available: 5 * gib,
        commit_limit: 10 * gib,
        committed: 9 * gib,
    };
    assert_eq!(commit_pressure.reclaim_bytes(20 * gib), 5 * gib as usize);
}

#[test]
fn reclaim_stays_idle_below_both_high_water_marks() {
    let usage = MemoryUsage {
        total: 10 * GIB,
        available: 3 * GIB,
        commit_limit: 10 * GIB,
        committed: 7 * GIB,
    };
    assert_eq!(usage.reclaim_bytes(20 * GIB), 0);
}

#[test]
fn reclaim_is_capped_and_starts_above_the_mark() {
    let at_mark = MemoryUsage {
        total: 1000,
        available: 200,
        commit_limit: 1000,
        committed: 800,
    };
    assert_eq!(at_mark.reclaim_bytes(GIB), 0);
    let small = MemoryUsage {
        total: 100,
        available: 20,
        commit_limit: 100,
        committed: 0,
    };
    assert_eq!(small.reclaim_bytes(100), 0);
    let above = MemoryUsage {
        available: 199,
        ..at_mark
    };
    assert_eq!(above.reclaim_bytes(GIB), 401);
    assert_eq!(above.reclaim_bytes(150), 150);
    let committed = MemoryUsage {
        committed: 801,
        ..at_mark
    };
    assert_eq!(committed.reclaim_bytes(GIB), 401);
    let odd = MemoryUsage {
        total: 1000,
        available: 1000,
        commit_limit: 99,
        committed: 99,
    };
    assert_eq!(odd.reclaim_bytes(GIB), 99 - 39);
}

#[test]
fn marks_hold_for_the_largest_counters() {
    let full = MemoryUsage {
        total: 10,
        available: 20,
        commit_limit: u64::MAX,
        committed: u64::MAX,
    };
    let low_water = (u64::MAX as u128 * 40 / 100) as u64;
    assert_eq!(full.reclaim_bytes(u64::MAX), (u64::MAX - low_water) as usize);
    let half = MemoryUsage {
        committed: u64::MAX / 2,
        ..full
    };
    assert_eq!(half.reclaim_bytes(u64::MAX), 0);
}

#[test]
fn byte_sizes_take_suffixes_of_either_case() {
    assert_eq!(parse_bytes("0"), Ok(0));
    assert_eq!(parse_bytes("64K"), Ok(65536));
    assert_eq!(parse_bytes("64k"), Ok(65536));
    assert_eq!(parse_bytes("3M"), Ok(3 * 1024 * 1024));
    assert_eq!(parse_bytes("3m"), Ok(3 * 1024 * 1024));
    assert_eq!(parse_bytes("20G"), Ok(20 * GIB));
    assert_eq!(parse_bytes("20g"), Ok(20 * GIB));
    assert_eq!(parse_bytes("1T"), Ok(TIB));
    assert_eq!(parse_bytes("1t"), Ok(TIB));
    assert_eq!(parse_bytes("+7"), Ok(7));
    assert_eq!(parse_bytes("18446744073709551615"), Ok(u64::MAX));
    assert_eq!(GIB, 1024 * 1024 * 1024);
    assert_eq!(TIB, 1024 * GIB);
}

#[test]
fn byte_sizes_that_are_none_are_refused() {
    for text in [
        "",
        "K",
        "+",
        "+K",
        "-1",
        " 1",
        "1 ",
        "1KB",
        "1.5G",
        "0x10",
        "1é",
        "18446744073709551616",
        "99999999999999999999999",
        "16777216T",
    ] {
        assert_eq!(
            parse_bytes(text),
            Err(ConfigError::InvalidByteSize(text.to_string()))
        );
    }
    assert_eq!(parse_bytes("16777215T"), Ok(16777215 * TIB));
}

fn parse(args: &[&str]) -> Result<Command, ConfigError> {
    let args: Vec<String> = args.iter().map(|arg| arg.to_string()).collect();
    Config::parse(&args)
}

#[test]
fn no_arguments_give_the_defaults() {
    assert_eq!(
        parse(&[]),
        Ok(Command::Run(Config {
            mode: Mode::MooMap,
            path: "moomap-stress.db".to_string(),
            file_size: 20 * GIB,
            io_bytes: TIB,
            chunk_size: 64 * 1024,
        }))
    );
}

#[test]
fn options_are_read_from_left_to_right() {
    assert_eq!(
        parse(&[
            "--mode",
            "mmap",
            "--file",
            "--help",
            "--file-size",
            "1M",
            "--io-bytes",
            "0",
            "--chunk-size",
            "1K",
            "--file-size",
            "2M",
        ]),
        Ok(Command::Run(Config {
            mode: Mode::Mmap,
            path: "--help".to_string(),
            file_size: 2 * 1024 * 1024,
            io_bytes: 0,
            chunk_size: 1024,
        }))
    );
    assert_eq!(parse(&["--mode", "moomap", "-h", "nonsense"]), Ok(Command::Help));
    assert_eq!(parse(&["--help"]), Ok(Command::Help));
}

#[test]
fn bad_command_lines_are_refused() {
    assert_eq!(
        parse(&["--mode"]),
        Err(ConfigError::MissingValue("--mode".to_string()))
    );
    assert_eq!(
        parse(&["--chunk-size", "1", "--file"]),
        Err(ConfigError::MissingValue("--file".to_string()))
    );
    assert_eq!(
        parse(&["--mode", "Mmap"]),
        Err(ConfigError::UnknownMode("Mmap".to_string()))
    );
    assert_eq!(
        parse(&["--size", "1", "--help"]),
        Err(ConfigError::UnknownArgument("--size".to_string()))
    );
    assert_eq!(
        parse(&["--io-bytes", "lots"]),
        Err(ConfigError::InvalidByteSize("lots".to_string()))
    );
    assert_eq!(parse(&["--file-size", "0"]), Err(ConfigError::UnusableSizes));
    assert_eq!(parse(&["--chunk-size", "0"]), Err(ConfigError::UnusableSizes));
    assert_eq!(
        parse(&["--file-size", "4096", "--chunk-size", "4097"]),
        Err(ConfigError::UnusableSizes)
    );
    if usize::BITS == 32 {
        assert_eq!(parse(&["--chunk-size", "1T"]), Err(ConfigError::ChunkTooLarge));
    }
}

#[test]
fn options_may_come_in_any_order() {
    let settings = [
        ["--mode", "mmap"],
        ["--file", "x"],
        ["--file-size", "1M"],
        ["--io-bytes", "7"],
        ["--chunk-size", "1K"],
    ];
    let wanted = parse(&settings.concat());
    assert_eq!(
        wanted,
        Ok(Command::Run(Config {
            mode: Mode::Mmap,
            path: "x".to_string(),
            file_size: 1024 * 1024,
            io_bytes: 7,
            chunk_size: 1024,
        }))
    );
    for first in 0..settings.len() {
        let mut turned = settings;
        turned.rotate_left(first);
        assert_eq!(parse(&turned.concat()), wanted);
        turned.reverse();
        assert_eq!(parse(&turned.concat()), wanted);
    }
    assert!(parse(&["--io-bytes", "x", "--file-size", "0"]).is_err());
    assert!(parse(&["--file-size", "0", "--io-bytes", "x"]).is_err());
}

const MEMINFO: &str = "MemTotal:       16384 kB\n\
    MemFree:         1024 kB\r\n\
    MemAvailable:    8192 kB\n\
    \n\
    CommitLimit:    12288 kB\n\
    Committed_AS:\u{3000}4096\tkB";

#[test]
fn meminfo_counters_are_read() {
    let counters = memory_usage(MEMINFO).unwrap();
    assert_eq!(
        counters,
        MemoryCounters {
            total: 16384,
            available: 8192,
            commit_limit: 12288,
            committed: 4096,
        }
    );
    assert!(counters.is_convertible());
    assert_eq!(
        counters.to_bytes(),
        MemoryUsage {
            total: 16384 * 1024,
            available: 8192 * 1024,
            commit_limit: 12288 * 1024,
            committed: 4096 * 1024,
        }
    );
    let huge = MemoryCounters {
        total: u64::MAX / 1024 + 1,
        ..counters
    };
    assert!(!huge.is_convertible());
}

#[test]
fn meminfo_with_a_missing_or_broken_counter_is_refused() {
    assert_eq!(memory_usage(""), Err(MissingCounter));
    assert_eq!(
        memory_usage(&MEMINFO.replace("CommitLimit:", "CommitLimit")),
        Err(MissingCounter)
    );
    assert_eq!(memory_usage(&MEMINFO.replace("8192", "many")), Err(MissingCounter));
    let repeated = format!("{MEMINFO}\n  MemTotal: 7 kB\n");
    assert_eq!(memory_usage(&repeated).unwrap().total, 7);
    let emptied = format!("{MEMINFO}\nMemTotal:\n");
    assert_eq!(memory_usage(&emptied), Err(MissingCounter));
}

#[test]
fn order_of_meminfo_lines_does_not_matter() {
    let wanted = memory_usage(MEMINFO);
    assert!(wanted.is_ok());
    let mut lines: Vec<&str> = MEMINFO.lines().collect();
    for _ in 0..lines.len() {
        lines.rotate_left(1);
        assert_eq!(memory_usage(&lines.join("\n")), wanted);
        let padded = lines.join("\nSwapTotal: 99 kB\nMemTotal 3\n");
        assert_eq!(memory_usage(&padded), wanted);
    }
}

fn config(file_size: u64, io_bytes: u64, chunk_size: usize) -> Config {
    Config {
        mode: Mode::MooMap,
        path: String::new(),
        file_size,
        io_bytes,
        chunk_size,
    }
}

fn until_report(run: &mut Stress) {
    assert_eq!(run.action(), StressAction::Elapsed(Timer::WriteBack));
    run.step(StressReply::Millis(4999));
    assert_eq!(run.action(), StressAction::Elapsed(Timer::Reclaim));
    run.step(StressReply::Millis(29999));
    assert_eq!(run.action(), StressAction::Elapsed(Timer::Memory));
    run.step(StressReply::Millis(249));
}

#[test]
fn a_run_works_in_every_byte_and_ends_with_a_write_back() {
    let mut run = Stress::new(&config(1000, 25, 10)).unwrap();
    let mut worked = 0;
    for amount in [10, 10, 5] {
        assert_eq!(run.action(), StressAction::Fill { amount });
        run.step(StressReply::Numbers {
            first: 2000,
            second: 993,
        });
        // 2000 and 993 stand for 18 and 2 among the 991 places of a chunk.
        assert_eq!(run.action(), StressAction::Xor { offset: 2, amount });
        run.step(StressReply::Done);
        worked += amount as u64;
        assert_eq!(run.processed, worked);
        until_report(&mut run);
    }
    assert_eq!(worked, 25);
    assert_eq!(run.action(), StressAction::WriteBack);
    run.step(StressReply::Done);
    assert_eq!(run.action(), StressAction::Finish);
}

#[test]
fn progress_is_reported_once_per_gibibyte() {
    let half = GIB as usize / 2;
    let mut run = Stress::new(&config(GIB, 4 * GIB, half)).unwrap();
    for reported in [None, Some(1), None, Some(2)] {
        run.step(StressReply::Numbers {
            first: 1,
            second: 2,
        });
        run.step(StressReply::Done);
        until_report(&mut run);
        if let Some(gib) = reported {
            assert_eq!(run.action(), StressAction::Report { gib });
            run.step(StressReply::Done);
        }
        assert_eq!(run.action(), StressAction::Fill { amount: half });
    }
}

#[test]
fn write_back_and_reclaim_come_when_they_are_due() {
    let mut run = Stress::new(&config(4096, 1 << 40, 4096)).unwrap();
    run.step(StressReply::Numbers {
        first: 7,
        second: 9,
    });
    assert_eq!(
        run.action(),
        StressAction::Xor {
            offset: 0,
            amount: 4096
        }
    );
    run.step(StressReply::Done);
    run.step(StressReply::Millis(5000));
    assert_eq!(run.action(), StressAction::WriteBack);
    run.step(StressReply::Done);
    assert_eq!(run.action(), StressAction::Restart(Timer::WriteBack));
    run.step(StressReply::Done);
    run.step(StressReply::Millis(30000));
    assert_eq!(run.action(), StressAction::Reclaim { bytes: usize::MAX });
    run.step(StressReply::Done);
    assert_eq!(run.action(), StressAction::Restart(Timer::Reclaim));
    run.step(StressReply::Done);
    run.step(StressReply::Millis(250));
    assert_eq!(run.action(), StressAction::Measure);
    run.step(StressReply::Usage(MemoryUsage {
        total: 1000,
        available: 100,
        commit_limit: 1000,
        committed: 0,
    }));
    assert_eq!(run.action(), StressAction::Reclaim { bytes: 500 });
    run.step(StressReply::Done);
    assert_eq!(run.action(), StressAction::Restart(Timer::Memory));
    run.step(StressReply::Done);
    assert_eq!(run.action(), StressAction::Fill { amount: 4096 });
}

#[test]
fn a_run_without_pressure_reclaims_nothing() {
    let mut run = Stress::new(&config(4096, 8192, 4096)).unwrap();
    run.step(StressReply::Numbers {
        first: 0,
        second: 0,
    });
    run.step(StressReply::Done);
    run.step(StressReply::Millis(0));
    run.step(StressReply::Millis(0));
    run.step(StressReply::Millis(1000));
    run.step(StressReply::Usage(MemoryUsage {
        total: 1000,
        available: 900,
        commit_limit: 1000,
        committed: 0,
    }));
    assert_eq!(run.action(), StressAction::Restart(Timer::Memory));
}

#[test]
fn a_run_of_nothing_only_writes_back() {
    let run = Stress::new(&config(4096, 0, 4096)).unwrap();
    assert_eq!(run.action(), StressAction::WriteBack);
    if usize::BITS == 32 {
        assert_eq!(
            Stress::new(&config(1 << 40, 0, 4096)),
            Err(MapError::FileTooLarge)
        );
    }
}

#[test]
fn xor_combines_as_far_as_both_go() {
    let mut target = [0b1100, 0xff, 0x0f, 9];
    xor(&mut target, &[0b1010, 0xff, 0xf0]);
    assert_eq!(target, [0b0110, 0x00, 0xff, 9]);
    xor(&mut target, &[0b1010, 0xff, 0xf0]);
    assert_eq!(target, [0b1100, 0xff, 0x0f, 9]);
    xor(&mut target[..1], &[1, 2, 3]);
    assert_eq!(target, [0b1101, 0xff, 0x0f, 9]);
}

#[test]
fn allocation_sizes_keep_to_the_largest_offset() {
    assert_eq!(
        allocation_size(20 * GIB, i64::MAX),
        Some(20 * 1024 * 1024 * 1024)
    );
    assert_eq!(allocation_size(i64::MAX as u64, i64::MAX), Some(i64::MAX));
    assert_eq!(allocation_size(i64::MAX as u64 + 1, i64::MAX), None);
    let narrow = i32::MAX as i64;
    assert_eq!(allocation_size(narrow as u64, narrow), Some(narrow));
    assert_eq!(allocation_size(narrow as u64 + 1, narrow), None);
    assert_eq!(allocation_size(0, -1), None);
}
