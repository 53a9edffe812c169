//! The stress program's command line.

use crate::text;
use vstd::prelude::*;

verus! {

/// One gibibyte.
pub const GIB: u64 = 1073741824;

/// One tebibyte.
pub const TIB: u64 = 1099511627776;

/// Which mapping to exercise.
#[derive(Debug, Clone, Copy, PartialEq, Eq, Structural)]
pub enum Mode {
    /// The private, copy-on-write mapping.
    MooMap,
    /// A conventional shared mapping.
    Mmap,
}

/// What the stress program is to do.
#[derive(Debug, PartialEq, Eq)]
pub struct Config {
    /// Which mapping to exercise.
    pub mode: Mode,
    /// The file to map.
    pub path: String,
    /// The size of the file in bytes.
    pub file_size: u64,
    /// How many random bytes to work in.
    pub io_bytes: u64,
    /// How many bytes to work in at a time.
    pub chunk_size: usize,
}

/// What the command line asks for.
#[derive(Debug, PartialEq, Eq)]
pub enum Command {
    /// A run.
    Run(Config),
    /// The usage text.
    Help,
}

/// Why a command line was refused.
#[derive(Debug, PartialEq, Eq)]
pub enum ConfigError {
    /// This option lacks its value.
    MissingValue(String),
    /// There is no such mode.
    UnknownMode(String),
    /// There is no such option.
    UnknownArgument(String),
    /// This is not a byte size.
    InvalidByteSize(String),
    /// The chunk does not fit the address space.
    ChunkTooLarge,
    /// The file or the chunk is empty, or the chunk is larger than the file.
    UnusableSizes,
}

/// A [`Config`] as a value.
#[verifier::ext_equal]
pub struct ConfigView {
    /// Which mapping to exercise.
    pub mode: Mode,
    /// The file to map.
    pub path: Seq<char>,
    /// The size of the file in bytes.
    pub file_size: u64,
    /// How many random bytes to work in.
    pub io_bytes: u64,
    /// How many bytes to work in at a time.
    pub chunk_size: usize,
}

/// A [`Command`] as a value.
#[verifier::ext_equal]
pub enum CommandView {
    /// A run.
    Run(ConfigView),
    /// The usage text.
    Help,
}

/// A [`ConfigError`] as a value.
#[verifier::ext_equal]
pub enum ConfigErrorView {
    /// This option lacks its value.
    MissingValue(Seq<char>),
    /// There is no such mode.
    UnknownMode(Seq<char>),
    /// There is no such option.
    UnknownArgument(Seq<char>),
    /// This is not a byte size.
    InvalidByteSize(Seq<char>),
    /// The chunk does not fit the address space.
    ChunkTooLarge,
    /// The file or the chunk is empty, or the chunk is larger than the file.
    UnusableSizes,
}

impl View for Config {
    type V = ConfigView;

    open spec fn view(&self) -> ConfigView {
        ConfigView {
            mode: self.mode,
            path: self.path@,
            file_size: self.file_size,
            io_bytes: self.io_bytes,
            chunk_size: self.chunk_size,
        }
    }
}

impl View for Command {
    type V = CommandView;

    open spec fn view(&self) -> CommandView {
        match self {
            Command::Run(config) => CommandView::Run(config@),
            Command::Help => CommandView::Help,
        }
    }
}

impl View for ConfigError {
    type V = ConfigErrorView;

    open spec fn view(&self) -> ConfigErrorView {
        match self {
            ConfigError::MissingValue(text) => ConfigErrorView::MissingValue(text@),
            ConfigError::UnknownMode(text) => ConfigErrorView::UnknownMode(text@),
            ConfigError::UnknownArgument(text) => ConfigErrorView::UnknownArgument(text@),
            ConfigError::InvalidByteSize(text) => ConfigErrorView::InvalidByteSize(text@),
            ConfigError::ChunkTooLarge => ConfigErrorView::ChunkTooLarge,
            ConfigError::UnusableSizes => ConfigErrorView::UnusableSizes,
        }
    }
}

/// How many bytes a suffix stands for; `None` if the character is no suffix.
pub open spec fn suffix(c: char) -> Option<u64> {
    if c == 'K' || c == 'k' {
        Some(1024)
    } else if c == 'M' || c == 'm' {
        Some(1048576)
    } else if c == 'G' || c == 'g' {
        Some(GIB)
    } else if c == 'T' || c == 't' {
        Some(TIB)
    } else {
        None
    }
}

/// The number of bytes that `number` pieces of `unit` bytes make, if 64 bits hold it.
pub open spec fn scaled(number: Option<u64>, unit: u64) -> Option<u64> {
    match number {
        Some(value) => if value * unit <= u64::MAX {
            Some((value * unit) as u64)
        } else {
            None
        },
        None => None,
    }
}

/// The byte size that `text` spells: a number, and possibly a suffix.
pub open spec fn byte_size(text: Seq<char>) -> Option<u64> {
    if text.len() > 0 && suffix(text.last()) is Some {
        scaled(text::number(text.drop_last()), suffix(text.last())->0)
    } else {
        text::number(text)
    }
}

fn unit_of(c: char) -> (unit: Option<u64>)
    ensures
        unit == suffix(c),
{
    if c == 'K' || c == 'k' {
        Some(1024)
    } else if c == 'M' || c == 'm' {
        Some(1048576)
    } else if c == 'G' || c == 'g' {
        Some(GIB)
    } else if c == 'T' || c == 't' {
        Some(TIB)
    } else {
        None
    }
}

/// Reads a byte size: a number with an optional suffix `K`, `M`, `G` or `T`,
/// in either case.
///
/// # Errors
///
/// Refuses a text that is no such size, or a size beyond 64 bits.
pub fn parse_bytes(text: &str) -> (result: Result<u64, ConfigError>)
    ensures
        match result {
            Ok(bytes) => byte_size(text@) == Some(bytes),
            Err(error) => byte_size(text@) is None && error@ == ConfigErrorView::InvalidByteSize(
                text@,
            ),
        },
{
    let chars = text::chars_of(text);
    let count: usize = chars.len();
    let mut digits: usize = count;
    let mut unit: u64 = 1;
    if count > 0 {
        match unit_of(chars[count - 1]) {
            Some(found) => {
                digits = count - 1;
                unit = found;
            },
            None => {},
        }
    }
    assert(chars@.subrange(0, digits as int) =~= if digits < count {
        text@.drop_last()
    } else {
        text@
    });
    let size = match text::parse_number(chars.as_slice(), 0, digits) {
        Some(value) => value.checked_mul(unit),
        None => None,
    };
    match size {
        Some(bytes) => Ok(bytes),
        None => Err(ConfigError::InvalidByteSize(text.to_owned())),
    }
}

/// What a run does unless told otherwise.
pub open spec fn default_config() -> ConfigView {
    ConfigView {
        mode: Mode::MooMap,
        path: "moomap-stress.db"@,
        file_size: 21474836480,
        io_bytes: TIB,
        chunk_size: 65536,
    }
}

/// Whether `option` takes a value.
pub open spec fn takes_value(option: Seq<char>) -> bool {
    ||| option == "--mode"@
    ||| option == "--file"@
    ||| option == "--file-size"@
    ||| option == "--io-bytes"@
    ||| option == "--chunk-size"@
}

/// The configuration after the option `option` with the value `value`.
pub open spec fn with_option(
    config: ConfigView,
    option: Seq<char>,
    value: Seq<char>,
) -> Result<ConfigView, ConfigErrorView> {
    if option == "--mode"@ {
        if value == "moomap"@ {
            Ok(ConfigView { mode: Mode::MooMap, ..config })
        } else if value == "mmap"@ {
            Ok(ConfigView { mode: Mode::Mmap, ..config })
        } else {
            Err(ConfigErrorView::UnknownMode(value))
        }
    } else if option == "--file"@ {
        Ok(ConfigView { path: value, ..config })
    } else {
        match byte_size(value) {
            None => Err(ConfigErrorView::InvalidByteSize(value)),
            Some(bytes) => if option == "--file-size"@ {
                Ok(ConfigView { file_size: bytes, ..config })
            } else if option == "--io-bytes"@ {
                Ok(ConfigView { io_bytes: bytes, ..config })
            } else if bytes > usize::MAX {
                Err(ConfigErrorView::ChunkTooLarge)
            } else {
                Ok(ConfigView { chunk_size: bytes as usize, ..config })
            },
        }
    }
}

/// Whether a run can work with these sizes.
pub open spec fn usable(config: ConfigView) -> bool {
    &&& 0 < config.file_size
    &&& 0 < config.chunk_size
    &&& config.chunk_size <= config.file_size
}

/// What the arguments from `at` on ask for, after those before them have made
/// `config`: options from left to right, each with its value, up to the first
/// error or the first request for help.
pub open spec fn command(args: Seq<Seq<char>>, at: int, config: ConfigView) -> Result<
    CommandView,
    ConfigErrorView,
>
    decreases args.len() - at,
{
    if at >= args.len() {
        if usable(config) {
            Ok(CommandView::Run(config))
        } else {
            Err(ConfigErrorView::UnusableSizes)
        }
    } else if takes_value(args[at]) {
        if at + 1 >= args.len() {
            Err(ConfigErrorView::MissingValue(args[at]))
        } else {
            match with_option(config, args[at], args[at + 1]) {
                Ok(next) => command(args, at + 2, next),
                Err(error) => Err(error),
            }
        }
    } else if args[at] == "--help"@ || args[at] == "-h"@ {
        Ok(CommandView::Help)
    } else {
        Err(ConfigErrorView::UnknownArgument(args[at]))
    }
}

/// The texts of a list of arguments.
pub open spec fn texts(args: Seq<String>) -> Seq<Seq<char>> {
    Seq::new(args.len(), |i: int| args[i]@)
}

impl Config {
    fn set(&mut self, option: &str, value: &str) -> (result: Result<(), ConfigError>)
        requires
            takes_value(option@),
        ensures
            match result {
                Ok(_) => with_option(old(self)@, option@, value@) == Ok::<
                    ConfigView,
                    ConfigErrorView,
                >(final(self)@),
                Err(error) => with_option(old(self)@, option@, value@) == Err::<
                    ConfigView,
                    ConfigErrorView,
                >(error@),
            },
    {
        if text::same_text(option, "--mode") {
            if text::same_text(value, "moomap") {
                self.mode = Mode::MooMap;
            } else if text::same_text(value, "mmap") {
                self.mode = Mode::Mmap;
            } else {
                return Err(ConfigError::UnknownMode(value.to_owned()));
            }
            return Ok(());
        }
        if text::same_text(option, "--file") {
            self.path = value.to_owned();
            return Ok(());
        }
        let bytes: u64 = match parse_bytes(value) {
            Ok(bytes) => bytes,
            Err(error) => {
                return Err(error);
            },
        };
        if text::same_text(option, "--file-size") {
            self.file_size = bytes;
        } else if text::same_text(option, "--io-bytes") {
            self.io_bytes = bytes;
        } else if bytes > usize::MAX as u64 {
            return Err(ConfigError::ChunkTooLarge);
        } else {
            self.chunk_size = bytes as usize;
        }
        Ok(())
    }

    /// Reads the command line, without the program's name.
    ///
    /// # Errors
    ///
    /// Refuses the first argument that is no option, the first option without
    /// a value or with a value it cannot take, and sizes that no run can use.
    pub fn parse(args: &Vec<String>) -> (result: Result<Command, ConfigError>)
        ensures
            match result {
                Ok(parsed) => command(texts(args@), 0, default_config()) == Ok::<
                    CommandView,
                    ConfigErrorView,
                >(parsed@),
                Err(error) => command(texts(args@), 0, default_config()) == Err::<
                    CommandView,
                    ConfigErrorView,
                >(error@),
            },
    {
        let mut config = Config {
            mode: Mode::MooMap,
            path: "moomap-stress.db".to_owned(),
            file_size: 21474836480,
            io_bytes: TIB,
            chunk_size: 65536,
        };
        let mut at: usize = 0;
        while at < args.len()
            invariant
                at <= args@.len(),
                command(texts(args@), 0, default_config()) == command(
                    texts(args@),
                    at as int,
                    config@,
                ),
            decreases args@.len() - at,
        {
            let option = args[at].as_str();
            if text::same_text(option, "--mode") || text::same_text(option, "--file")
                || text::same_text(option, "--file-size") || text::same_text(option, "--io-bytes")
                || text::same_text(option, "--chunk-size") {
                if args.len() - at < 2 {
                    return Err(ConfigError::MissingValue(option.to_owned()));
                }
                match config.set(option, args[at + 1].as_str()) {
                    Ok(_) => {},
                    Err(error) => {
                        return Err(error);
                    },
                }
                at += 2;
            } else if text::same_text(option, "--help") || text::same_text(option, "-h") {
                return Ok(Command::Help);
            } else {
                return Err(ConfigError::UnknownArgument(option.to_owned()));
            }
        }
        if config.file_size == 0 || config.chunk_size == 0 || config.chunk_size as u64
            > config.file_size {
            return Err(ConfigError::UnusableSizes);
        }
        Ok(Command::Run(config))
    }
}

/// Every configuration that the command line yields is one that a run can
/// work with, whatever the arguments are.
pub proof fn accepted_configurations_are_usable(
    args: Seq<Seq<char>>,
    at: int,
    config: ConfigView,
    accepted: ConfigView,
)
    requires
        command(args, at, config) == Ok::<CommandView, ConfigErrorView>(CommandView::Run(accepted)),
    ensures
        usable(accepted),
        0 < accepted.chunk_size <= accepted.file_size,
    decreases args.len() - at,
{
    if at < args.len() && takes_value(args[at]) && at + 1 < args.len() {
        match with_option(config, args[at], args[at + 1]) {
            Ok(next) => accepted_configurations_are_usable(args, at + 2, next, accepted),
            Err(_) => {},
        }
    }
}

/// An option with its value.
pub type Setting = (Seq<char>, Seq<char>);

/// The command line that gives `settings` in their order.
pub open spec fn spelled_out(settings: Seq<Setting>) -> Seq<Seq<char>> {
    Seq::new(
        2 * settings.len(),
        |i: int|
            if i % 2 == 0 {
                settings[i / 2].0
            } else {
                settings[i / 2].1
            },
    )
}

/// Whether no option is given twice, and none asks for help.
pub open spec fn each_option_once(settings: Seq<Setting>) -> bool {
    &&& forall|i: int, j: int|
        0 <= i < j < settings.len() ==> (#[trigger] settings[i]).0 != (#[trigger] settings[j]).0
    &&& forall|i: int|
        0 <= i < settings.len() ==> (#[trigger] settings[i]).0 != "--help"@ && settings[i].0
            != "-h"@
}

/// The configuration after one setting; `None` if it is refused.
pub open spec fn with_setting(config: Option<ConfigView>, setting: Setting) -> Option<ConfigView> {
    match config {
        Some(config) => if takes_value(setting.0) {
            with_option(config, setting.0, setting.1).ok()
        } else {
            None
        },
        None => None,
    }
}

/// The configuration after all of `settings`; `None` if one is refused.
pub open spec fn with_settings(config: Option<ConfigView>, settings: Seq<Setting>) -> Option<
    ConfigView,
>
    decreases settings.len(),
{
    if settings.len() == 0 {
        config
    } else {
        with_settings(with_setting(config, settings[0]), settings.skip(1))
    }
}

/// What is refused stays refused.
proof fn refusal_is_final(settings: Seq<Setting>)
    ensures
        with_settings(None, settings) is None,
    decreases settings.len(),
{
    if settings.len() > 0 {
        refusal_is_final(settings.skip(1));
    }
}

/// The command line of `settings` from the `k`-th on does what they do, one
/// after the other, and ends with the test of the sizes.
proof fn settings_are_taken_in_order(settings: Seq<Setting>, k: int, config: ConfigView)
    requires
        each_option_once(settings),
        0 <= k <= settings.len(),
    ensures
        ({
            let outcome = command(spelled_out(settings), 2 * k, config);
            match with_settings(Some(config), settings.skip(k)) {
                Some(last) => outcome == if usable(last) {
                    Ok::<CommandView, ConfigErrorView>(CommandView::Run(last))
                } else {
                    Err::<CommandView, ConfigErrorView>(ConfigErrorView::UnusableSizes)
                },
                None => outcome is Err,
            }
        }),
    decreases settings.len() - k,
{
    let args = spelled_out(settings);
    let rest = settings.skip(k);
    if k < settings.len() {
        let (option, value) = settings[k];
        assert(rest.skip(1) =~= settings.skip(k + 1));
        refusal_is_final(rest.skip(1));
        if takes_value(option) {
            if let Ok(next) = with_option(config, option, value) {
                settings_are_taken_in_order(settings, k + 1, next);
            }
        }
    }
}

/// Two settings of different options can change places.
proof fn settings_commute(config: Option<ConfigView>, a: Setting, b: Setting)
    requires
        a.0 != b.0,
    ensures
        with_setting(with_setting(config, a), b) == with_setting(with_setting(config, b), a),
{
}

/// Any setting can be moved to the front.
proof fn setting_moves_to_front(config: Option<ConfigView>, settings: Seq<Setting>, i: int)
    requires
        each_option_once(settings),
        0 <= i < settings.len(),
    ensures
        with_settings(config, settings) == with_settings(
            with_setting(config, settings[i]),
            settings.remove(i),
        ),
    decreases settings.len(),
{
    if i > 0 {
        let rest = settings.skip(1);
        let others = settings.remove(i);
        setting_moves_to_front(with_setting(config, settings[0]), rest, i - 1);
        settings_commute(config, settings[0], settings[i]);
        assert(others.skip(1) =~= rest.remove(i - 1));
    }
}

/// Settings of different options do the same in any order.
proof fn settings_in_any_order(config: Option<ConfigView>, a: Seq<Setting>, b: Seq<Setting>)
    requires
        each_option_once(a),
        each_option_once(b),
        a.to_multiset() == b.to_multiset(),
    ensures
        with_settings(config, a) == with_settings(config, b),
    decreases a.len(),
{
    broadcast use vstd::seq_lib::group_to_multiset_ensures;

    assert(a.len() == a.to_multiset().len() && b.len() == b.to_multiset().len());
    if a.len() > 0 {
        assert(a.to_multiset().count(a[0]) > 0);
        let i = choose|i: int| 0 <= i < b.len() && b[i] == a[0];
        let rest = a.remove(0);
        setting_moves_to_front(config, b, i);
        settings_in_any_order(with_setting(config, a[0]), rest, b.remove(i));
    }
}

/// Options may come in any order: two command lines that give the same options
/// with the same values, each option once, either both ask for the same run or
/// are both refused. Unknown options are refused in either.
pub proof fn options_may_come_in_any_order(
    a: Seq<Setting>,
    b: Seq<Setting>,
    config: ConfigView,
)
    requires
        each_option_once(a),
        a.to_multiset() == b.to_multiset(),
    ensures
        match command(spelled_out(a), 0, config) {
            Ok(asked) => command(spelled_out(b), 0, config) == Ok::<CommandView, ConfigErrorView>(
                asked,
            ),
            Err(_) => command(spelled_out(b), 0, config) is Err,
        },
        command(spelled_out(a), 0, config) != Ok::<CommandView, ConfigErrorView>(
            CommandView::Help,
        ),
{
    reordered_options_come_once(a, b);
    settings_in_any_order(Some(config), a, b);
    settings_are_taken_in_order(a, 0, config);
    settings_are_taken_in_order(b, 0, config);
    assert(a.skip(0) =~= a);
    assert(b.skip(0) =~= b);
}

/// In another order, too, no option is given twice.
proof fn reordered_options_come_once(a: Seq<Setting>, b: Seq<Setting>)
    requires
        each_option_once(a),
        a.to_multiset() == b.to_multiset(),
    ensures
        each_option_once(b),
    decreases a.len(),
{
    broadcast use vstd::seq_lib::group_to_multiset_ensures;

    if b.len() > 0 {
        assert(b.to_multiset().count(b[0]) > 0);
        let i = choose|i: int| 0 <= i < a.len() && a[i] == b[0];
        let rest = b.remove(0);
        reordered_options_come_once(a.remove(i), rest);
        assert forall|j: int| 0 < j < b.len() implies (#[trigger] b[j]).0 != b[0].0 by {
            assert(rest[j - 1] == b[j]);
            assert(rest.to_multiset().count(b[j]) > 0);
        }
        assert forall|j: int, k: int| 0 <= j < k < b.len() implies (#[trigger] b[j]).0
            != (#[trigger] b[k]).0 by {
            if j > 0 {
                assert(rest[j - 1] == b[j] && rest[k - 1] == b[k]);
            }
        }
        assert forall|j: int| 0 <= j < b.len() implies (#[trigger] b[j]).0 != "--help"@ && b[j].0
            != "-h"@ by {
            if j > 0 {
                assert(rest[j - 1] == b[j]);
            }
        }
    }
}

/// The options are different texts.
proof fn options_differ()
    ensures
        "--mode"@ != "--file"@,
        "--mode"@ != "--file-size"@,
        "--mode"@ != "--io-bytes"@,
        "--mode"@ != "--chunk-size"@,
        "--file"@ != "--file-size"@,
        "--file"@ != "--io-bytes"@,
        "--file"@ != "--chunk-size"@,
        "--file-size"@ != "--io-bytes"@,
        "--file-size"@ != "--chunk-size"@,
        "--io-bytes"@ != "--chunk-size"@,
        "--help"@ != "--mode"@,
        "--help"@ != "--file"@,
        "--help"@ != "--file-size"@,
        "--help"@ != "--io-bytes"@,
        "--help"@ != "--chunk-size"@,
        "-h"@ != "--mode"@,
        "-h"@ != "--file"@,
        "-h"@ != "--file-size"@,
        "-h"@ != "--io-bytes"@,
        "-h"@ != "--chunk-size"@,
        "moomap"@ != "mmap"@,
{
    reveal_strlit("--mode");
    reveal_strlit("--file");
    reveal_strlit("--file-size");
    reveal_strlit("--io-bytes");
    reveal_strlit("--chunk-size");
    reveal_strlit("--help");
    reveal_strlit("-h");
    reveal_strlit("moomap");
    reveal_strlit("mmap");
    assert("--mode"@[2] == 'm' && "--file"@[2] == 'f' && "--help"@[2] == 'h');
    assert("--mode"@.len() == 6 && "--file"@.len() == 6 && "--help"@.len() == 6);
    assert("--file-size"@.len() == 11 && "--io-bytes"@.len() == 10);
    assert("--chunk-size"@.len() == 12 && "-h"@.len() == 2);
    assert("moomap"@.len() == 6 && "mmap"@.len() == 4);
}

/// A byte size is its number of pieces, and its suffix says how many bytes a piece
/// has: each suffix stands for 1024 times what the one before it stands for, in
/// either case. What is not a number is no size with a suffix either, and no size
/// exceeds 64 bits.
pub proof fn suffixes_count_in_steps_of_1024(number: Seq<char>)
    ensures
        ({
            let pieces = text::number(number);
            let sized = |suffix: char, step: nat|
                match byte_size(number.push(suffix)) {
                    Some(bytes) => pieces is Some && bytes == pieces->0 * step,
                    None => pieces is None || pieces->0 * step > u64::MAX,
                };
            &&& sized('K', 1024) && sized('k', 1024)
            &&& sized('M', 1024 * 1024) && sized('m', 1024 * 1024)
            &&& sized('G', 1024 * 1024 * 1024) && sized('g', 1024 * 1024 * 1024)
            &&& sized('T', 1024 * 1024 * 1024 * 1024) && sized('t', 1024 * 1024 * 1024 * 1024)
        }),
{
    assert(forall|c: char| #[trigger] number.push(c).drop_last() =~= number);
    assert(forall|c: char| #[trigger] number.push(c).last() == c);
}

/// Without a suffix a byte size is just its number; nothing but the eight letters
/// is a suffix.
pub proof fn sizes_without_suffix_are_numbers(number: Seq<char>)
    requires
        number.len() > 0 ==> {
            let c = number.last();
            &&& c != 'K' && c != 'k' && c != 'M' && c != 'm'
            &&& c != 'G' && c != 'g' && c != 'T' && c != 't'
        },
    ensures
        byte_size(number) == text::number(number),
{
}

/// A byte size is read back from its decimal digits, with each suffix.
pub proof fn sizes_are_read_back(n: u64)
    ensures
        byte_size(text::decimal(n as nat)) == Some(n),
        n * 1024 <= u64::MAX ==> byte_size(text::decimal(n as nat).push('K')) == Some(
            (n * 1024) as u64,
        ),
{
    let digits = text::decimal(n as nat);
    text::numbers_are_read_back(n as nat);
    assert('0' <= digits[digits.len() - 1] <= '9');
    sizes_without_suffix_are_numbers(digits);
    suffixes_count_in_steps_of_1024(digits);
}

/// An option sets its own field to what its value says, and no other: a size to
/// exactly the bytes that the value spells, the file to the value itself, the mode
/// to the one of that name. Any other value is refused, with the value in the
/// error.
pub proof fn options_set_their_own_field(config: ConfigView, value: Seq<char>)
    ensures
        match with_option(config, "--io-bytes"@, value) {
            Ok(next) => {
                &&& byte_size(value) == Some(next.io_bytes)
                &&& next == (ConfigView { io_bytes: next.io_bytes, ..config })
            },
            Err(error) => byte_size(value) is None && error == ConfigErrorView::InvalidByteSize(
                value,
            ),
        },
        match with_option(config, "--file-size"@, value) {
            Ok(next) => {
                &&& byte_size(value) == Some(next.file_size)
                &&& next == (ConfigView { file_size: next.file_size, ..config })
            },
            Err(error) => byte_size(value) is None && error == ConfigErrorView::InvalidByteSize(
                value,
            ),
        },
        match with_option(config, "--chunk-size"@, value) {
            Ok(next) => {
                &&& byte_size(value) == Some(next.chunk_size as u64)
                &&& next == (ConfigView { chunk_size: next.chunk_size, ..config })
            },
            Err(error) => match byte_size(value) {
                Some(bytes) => bytes > usize::MAX && error == ConfigErrorView::ChunkTooLarge,
                None => error == ConfigErrorView::InvalidByteSize(value),
            },
        },
        with_option(config, "--file"@, value) == Ok::<ConfigView, ConfigErrorView>(
            ConfigView { path: value, ..config },
        ),
        match with_option(config, "--mode"@, value) {
            Ok(next) => {
                &&& value == "moomap"@ && next.mode == Mode::MooMap || value == "mmap"@
                    && next.mode == Mode::Mmap
                &&& next == (ConfigView { mode: next.mode, ..config })
            },
            Err(error) => value != "moomap"@ && value != "mmap"@ && error
                == ConfigErrorView::UnknownMode(value),
        },
{
    options_differ();
}

/// What stands before them does not matter to arguments.
proof fn arguments_move_along(args: Seq<Seq<char>>, at: int, k: int, config: ConfigView)
    requires
        0 <= at <= args.len(),
        0 <= k <= args.len() - at + 1,
    ensures
        command(args, at + k, config) == command(args.skip(at), k, config),
    decreases args.len() - at + 1 - k,
{
    let rest = args.skip(at);
    if k < rest.len() && takes_value(rest[k]) && k + 1 < rest.len() {
        if let Ok(next) = with_option(config, rest[k], rest[k + 1]) {
            arguments_move_along(args, at, k + 2, next);
        }
    }
}

/// The first arguments decide, and the others go on from what they made: an
/// option with its value changes the configuration that the rest starts from, a
/// value that the option cannot take ends the reading, and so do an option without
/// a value, a request for help and anything that is no option. Without arguments
/// the sizes decide.
pub proof fn arguments_are_read_from_the_left(args: Seq<Seq<char>>, config: ConfigView)
    ensures
        args.len() == 0 ==> command(args, 0, config) == if config.file_size > 0
            && config.chunk_size > 0 && config.chunk_size <= config.file_size {
            Ok::<CommandView, ConfigErrorView>(CommandView::Run(config))
        } else {
            Err::<CommandView, ConfigErrorView>(ConfigErrorView::UnusableSizes)
        },
        args.len() > 0 ==> ({
            let first = args[0];
            let outcome = command(args, 0, config);
            if first == "--mode"@ || first == "--file"@ || first == "--file-size"@ || first
                == "--io-bytes"@ || first == "--chunk-size"@ {
                if args.len() == 1 {
                    outcome == Err::<CommandView, ConfigErrorView>(
                        ConfigErrorView::MissingValue(first),
                    )
                } else {
                    match with_option(config, first, args[1]) {
                        Ok(next) => outcome == command(args.skip(2), 0, next),
                        Err(error) => outcome == Err::<CommandView, ConfigErrorView>(error),
                    }
                }
            } else if first == "--help"@ || first == "-h"@ {
                outcome == Ok::<CommandView, ConfigErrorView>(CommandView::Help)
            } else {
                outcome == Err::<CommandView, ConfigErrorView>(
                    ConfigErrorView::UnknownArgument(first),
                )
            }
        }),
{
    if args.len() > 1 {
        if let Ok(next) = with_option(config, args[0], args[1]) {
            arguments_move_along(args, 2, 0, next);
        }
    }
    options_differ();
}

/// Each field of a configuration is its own: where settings leave an option out,
/// its field stays as it was; where they give it once, they decide it.
proof fn settings_decide_their_fields(config: ConfigView, settings: Seq<Setting>, i: int)
    requires
        each_option_once(settings),
        with_settings(Some(config), settings) is Some,
        0 <= i < settings.len(),
    ensures
        ({
            let last = with_settings(Some(config), settings)->0;
            let (option, value) = settings[i];
            &&& takes_value(option)
            &&& option == "--io-bytes"@ ==> byte_size(value) == Some(last.io_bytes)
            &&& option == "--file-size"@ ==> byte_size(value) == Some(last.file_size)
            &&& option == "--chunk-size"@ ==> byte_size(value) == Some(last.chunk_size as u64)
            &&& option == "--file"@ ==> last.path == value
            &&& option == "--mode"@ ==> (value == "moomap"@ && last.mode == Mode::MooMap) || (value
                == "mmap"@ && last.mode == Mode::Mmap)
        }),
{
    let (option, value) = settings[i];
    let rest = settings.remove(i);
    setting_moves_to_front(Some(config), settings, i);
    refusal_is_final(rest);
    options_set_their_own_field(config, value);
    let next = with_setting(Some(config), settings[i])->0;
    assert forall|j: int| 0 <= j < rest.len() implies (#[trigger] rest[j]).0 != option by {
        if j < i {
            assert(rest[j] == settings[j]);
        } else {
            assert(rest[j] == settings[j + 1]);
        }
    }
    left_out_fields_stay(next, rest, option);
}

/// Settings without an option leave its field alone.
proof fn left_out_fields_stay(config: ConfigView, settings: Seq<Setting>, option: Seq<char>)
    requires
        forall|j: int| 0 <= j < settings.len() ==> (#[trigger] settings[j]).0 != option,
        with_settings(Some(config), settings) is Some,
    ensures
        ({
            let last = with_settings(Some(config), settings)->0;
            &&& option == "--io-bytes"@ ==> last.io_bytes == config.io_bytes
            &&& option == "--file-size"@ ==> last.file_size == config.file_size
            &&& option == "--chunk-size"@ ==> last.chunk_size == config.chunk_size
            &&& option == "--file"@ ==> last.path == config.path
            &&& option == "--mode"@ ==> last.mode == config.mode
        }),
    decreases settings.len(),
{
    if settings.len() > 0 {
        let rest = settings.skip(1);
        refusal_is_final(rest);
        options_differ();
        options_set_their_own_field(config, settings[0].1);
        let next = with_setting(Some(config), settings[0])->0;
        assert forall|j: int| 0 <= j < rest.len() implies (#[trigger] rest[j]).0 != option by {
            assert(rest[j] == settings[j + 1]);
        }
        left_out_fields_stay(next, rest, option);
    }
}

/// A run does what its command line says: every option that is given decides its
/// own field, exactly as its value spells it, and every option that is left out
/// leaves its field as it was.
pub proof fn run_does_what_its_options_say(
    settings: Seq<Setting>,
    config: ConfigView,
    accepted: ConfigView,
    option: Seq<char>,
)
    requires
        each_option_once(settings),
        command(spelled_out(settings), 0, config) == Ok::<CommandView, ConfigErrorView>(
            CommandView::Run(accepted),
        ),
    ensures
        0 < accepted.chunk_size <= accepted.file_size,
        forall|i: int|
            0 <= i < settings.len() ==> ({
                let (option, value) = #[trigger] settings[i];
                ||| option == "--io-bytes"@ && byte_size(value) == Some(accepted.io_bytes)
                ||| option == "--file-size"@ && byte_size(value) == Some(accepted.file_size)
                ||| option == "--chunk-size"@ && byte_size(value) == Some(
                    accepted.chunk_size as u64,
                )
                ||| option == "--file"@ && accepted.path == value
                ||| option == "--mode"@ && value == "moomap"@ && accepted.mode == Mode::MooMap
                ||| option == "--mode"@ && value == "mmap"@ && accepted.mode == Mode::Mmap
            }),
        (forall|i: int| 0 <= i < settings.len() ==> (#[trigger] settings[i]).0 != option) ==> {
            &&& option == "--io-bytes"@ ==> accepted.io_bytes == config.io_bytes
            &&& option == "--file-size"@ ==> accepted.file_size == config.file_size
            &&& option == "--chunk-size"@ ==> accepted.chunk_size == config.chunk_size
            &&& option == "--file"@ ==> accepted.path == config.path
            &&& option == "--mode"@ ==> accepted.mode == config.mode
        },
{
    settings_are_taken_in_order(settings, 0, config);
    assert(settings.skip(0) =~= settings);
    assert forall|i: int| 0 <= i < settings.len() implies ({
        let (option, value) = #[trigger] settings[i];
        ||| option == "--io-bytes"@ && byte_size(value) == Some(accepted.io_bytes)
        ||| option == "--file-size"@ && byte_size(value) == Some(accepted.file_size)
        ||| option == "--chunk-size"@ && byte_size(value) == Some(accepted.chunk_size as u64)
        ||| option == "--file"@ && accepted.path == value
        ||| option == "--mode"@ && value == "moomap"@ && accepted.mode == Mode::MooMap
        ||| option == "--mode"@ && value == "mmap"@ && accepted.mode == Mode::Mmap
    }) by {
        settings_decide_their_fields(config, settings, i);
    }
    if forall|i: int| 0 <= i < settings.len() ==> (#[trigger] settings[i]).0 != option {
        left_out_fields_stay(config, settings, option);
    }
}

/// Without options a run works one tebibyte into a file of twenty gibibytes, in
/// chunks of 64 kibibytes, through the private mapping.
pub proof fn defaults_are_usable_as_they_are()
    ensures
        ({
            let config = default_config();
            &&& command(Seq::empty(), 0, config) == Ok::<CommandView, ConfigErrorView>(
                CommandView::Run(config),
            )
            &&& config.mode == Mode::MooMap
            &&& config.path == "moomap-stress.db"@
            &&& config.file_size == 20 * 1024 * 1024 * 1024
            &&& config.io_bytes == 1024 * 1024 * 1024 * 1024
            &&& config.chunk_size == 64 * 1024
        }),
{
}

/// The views show every field as it is.
pub proof fn views_show_every_field(
    config: Config,
    command: Command,
    error: ConfigError,
    args: Seq<String>,
)
    ensures
        config@.mode == config.mode,
        config@.path == config.path@,
        config@.file_size == config.file_size,
        config@.io_bytes == config.io_bytes,
        config@.chunk_size == config.chunk_size,
        command matches Command::Run(run) ==> command@ == CommandView::Run(run@),
        command is Help <==> command@ is Help,
        match error {
            ConfigError::MissingValue(text) => error@ == ConfigErrorView::MissingValue(text@),
            ConfigError::UnknownMode(text) => error@ == ConfigErrorView::UnknownMode(text@),
            ConfigError::UnknownArgument(text) => error@ == ConfigErrorView::UnknownArgument(text@),
            ConfigError::InvalidByteSize(text) => error@ == ConfigErrorView::InvalidByteSize(text@),
            ConfigError::ChunkTooLarge => error@ is ChunkTooLarge,
            ConfigError::UnusableSizes => error@ is UnusableSizes,
        },
        texts(args).len() == args.len(),
        forall|i: int| 0 <= i < args.len() ==> #[trigger] texts(args)[i] == args[i]@,
{
}

} // verus!
