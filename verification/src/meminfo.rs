//! Reading the kernel's memory counters.

use crate::pressure::MemoryUsage;
use crate::text;
use vstd::prelude::*;
use vstd::slice::slice_subrange;

verus! {

/// The counters as the kernel reports them, in KiB.
#[derive(Debug, Clone, Copy, PartialEq, Eq, Structural)]
pub struct MemoryCounters {
    /// Physical memory.
    pub total: u64,
    /// Physical memory that can still be used.
    pub available: u64,
    /// How much memory may be committed.
    pub commit_limit: u64,
    /// How much memory is committed.
    pub committed: u64,
}

/// A counter is missing, or is not a number.
#[derive(Debug, Clone, Copy, PartialEq, Eq, Structural)]
pub struct MissingCounter;

/// The end of the line that begins at `from`: the next line feed, or the end of the text.
pub open spec fn line_end(text: Seq<char>, from: int) -> int
    decreases text.len() - from,
{
    if from < 0 || from >= text.len() || text[from] == '\n' {
        from
    } else {
        line_end(text, from + 1)
    }
}

/// The lines of `text` from the one that begins at `from` on.
pub open spec fn lines_from(text: Seq<char>, from: int) -> Seq<Seq<char>>
    decreases text.len() + 1 - from,
    when 0 <= from
{
    if from >= text.len() {
        Seq::empty()
    } else {
        let end = line_end(text, from);
        proof {
            line_end_is_ahead(text, from);
        }
        seq![text.subrange(from, end)] + lines_from(text, end + 1)
    }
}

/// The lines of `text`.
pub open spec fn lines(text: Seq<char>) -> Seq<Seq<char>> {
    lines_from(text, 0)
}

/// The first place from `from` on that is not space; the end of the line if there is none.
pub open spec fn space_end(line: Seq<char>, from: int) -> int
    decreases line.len() - from,
{
    if from >= line.len() || !text::is_space(line[from]) {
        from
    } else {
        space_end(line, from + 1)
    }
}

/// The first place from `from` on that is space; the end of the line if there is none.
pub open spec fn word_end(line: Seq<char>, from: int) -> int
    decreases line.len() - from,
{
    if from >= line.len() || text::is_space(line[from]) {
        from
    } else {
        word_end(line, from + 1)
    }
}

/// The first word of `line` from `from` on; empty if there is none.
pub open spec fn word_from(line: Seq<char>, from: int) -> Seq<char> {
    let start = space_end(line, from);
    line.subrange(start, word_end(line, start))
}

/// The first word of `line`; empty if it has none.
pub open spec fn first_word(line: Seq<char>) -> Seq<char> {
    word_from(line, 0)
}

/// The second word of `line`; empty if it has none.
pub open spec fn second_word(line: Seq<char>) -> Seq<char> {
    word_from(line, word_end(line, space_end(line, 0)))
}

/// The value of the counter `key` in `lines`: the last line whose first word
/// is `key` decides, and its second word is the value. Without such a line, or
/// with a second word that is no number, there is none.
pub open spec fn counter(lines: Seq<Seq<char>>, key: Seq<char>) -> Option<u64>
    decreases lines.len(),
{
    if lines.len() == 0 {
        None
    } else if first_word(lines.last()) == key {
        text::number(second_word(lines.last()))
    } else {
        counter(lines.drop_last(), key)
    }
}

/// The value of the counter `key` in `text`.
pub open spec fn counter_in(text: Seq<char>, key: Seq<char>) -> Option<u64> {
    counter(lines(text), key)
}

/// The four counters in `text`; `None` if one is missing or is not a number.
pub open spec fn counters_in(text: Seq<char>) -> Option<MemoryCounters> {
    match (
        counter_in(text, "MemTotal:"@),
        counter_in(text, "MemAvailable:"@),
        counter_in(text, "CommitLimit:"@),
        counter_in(text, "Committed_AS:"@),
    ) {
        (Some(total), Some(available), Some(commit_limit), Some(committed)) => Some(
            MemoryCounters { total, available, commit_limit, committed },
        ),
        _ => None,
    }
}

/// A line does not end before it begins.
pub proof fn line_end_is_ahead(text: Seq<char>, from: int)
    requires
        0 <= from <= text.len(),
    ensures
        from <= line_end(text, from) <= text.len(),
    decreases text.len() - from,
{
    if from < text.len() && text[from] != '\n' {
        line_end_is_ahead(text, from + 1);
    }
}

/// What one more line says of a counter.
proof fn counter_line_by_line(lines: Seq<Seq<char>>, line: Seq<char>, key: Seq<char>)
    ensures
        counter(lines.push(line), key) == if first_word(line) == key {
            text::number(second_word(line))
        } else {
            counter(lines, key)
        },
{
    assert(lines.push(line).drop_last() =~= lines);
}

fn find_line_end(chars: &Vec<char>, from: usize) -> (end: usize)
    requires
        from <= chars@.len(),
    ensures
        end == line_end(chars@, from as int),
        from <= end <= chars@.len(),
{
    let mut i: usize = from;
    while i < chars.len() && chars[i] != '\n'
        invariant
            from <= i <= chars@.len(),
            line_end(chars@, from as int) == line_end(chars@, i as int),
        decreases chars@.len() - i,
    {
        i += 1;
    }
    i
}

fn skip_space(line: &[char], from: usize) -> (at: usize)
    requires
        from <= line@.len(),
    ensures
        at == space_end(line@, from as int),
        from <= at <= line@.len(),
{
    let mut i: usize = from;
    while i < line.len() && text::separates(line[i])
        invariant
            from <= i <= line@.len(),
            space_end(line@, from as int) == space_end(line@, i as int),
        decreases line@.len() - i,
    {
        i += 1;
    }
    i
}

fn skip_word(line: &[char], from: usize) -> (at: usize)
    requires
        from <= line@.len(),
    ensures
        at == word_end(line@, from as int),
        from <= at <= line@.len(),
{
    let mut i: usize = from;
    while i < line.len() && !text::separates(line[i])
        invariant
            from <= i <= line@.len(),
            word_end(line@, from as int) == word_end(line@, i as int),
        decreases line@.len() - i,
    {
        i += 1;
    }
    i
}

/// Reads the memory counters out of the text of `/proc/meminfo`.
///
/// # Errors
///
/// Refuses a text in which one of the four counters is missing or is not a number.
pub fn memory_usage(info: &str) -> (result: Result<MemoryCounters, MissingCounter>)
    ensures
        match result {
            Ok(counters) => {
                &&& counters_in(info@) == Some(counters)
                &&& counter_in(info@, "MemTotal:"@) == Some(counters.total)
                &&& counter_in(info@, "MemAvailable:"@) == Some(counters.available)
                &&& counter_in(info@, "CommitLimit:"@) == Some(counters.commit_limit)
                &&& counter_in(info@, "Committed_AS:"@) == Some(counters.committed)
            },
            Err(_) => {
                &&& counters_in(info@) is None
                &&& counter_in(info@, "MemTotal:"@) is None || counter_in(
                    info@,
                    "MemAvailable:"@,
                ) is None || counter_in(info@, "CommitLimit:"@) is None || counter_in(
                    info@,
                    "Committed_AS:"@,
                ) is None
            },
        },
{
    let chars = text::chars_of(info);
    let mut total: Option<u64> = None;
    let mut available: Option<u64> = None;
    let mut commit_limit: Option<u64> = None;
    let mut committed: Option<u64> = None;
    let mut from: usize = 0;
    let ghost mut seen: Seq<Seq<char>> = Seq::empty();
    proof {
        keys_differ();
    }
    while from < chars.len()
        invariant
            from <= chars@.len(),
            chars@ == info@,
            seen + lines_from(info@, from as int) == lines(info@),
            total == counter(seen, "MemTotal:"@),
            available == counter(seen, "MemAvailable:"@),
            commit_limit == counter(seen, "CommitLimit:"@),
            committed == counter(seen, "Committed_AS:"@),
        decreases chars@.len() - from,
    {
        let end = find_line_end(&chars, from);
        let line = slice_subrange(chars.as_slice(), from, end);
        proof {
            keys_differ();
            counter_line_by_line(seen, line@, "MemTotal:"@);
            counter_line_by_line(seen, line@, "MemAvailable:"@);
            counter_line_by_line(seen, line@, "CommitLimit:"@);
            counter_line_by_line(seen, line@, "Committed_AS:"@);
            seen = seen.push(line@);
            assert(seen + lines_from(info@, end + 1) =~= lines(info@));
        }
        let key = skip_space(line, 0);
        let key_end = skip_word(line, key);
        let value = skip_space(line, key_end);
        let value_end = skip_word(line, value);
        let amount = text::parse_number(line, value, value_end);
        if text::spells(line, key, key_end, "MemTotal:") {
            total = amount;
        } else if text::spells(line, key, key_end, "MemAvailable:") {
            available = amount;
        } else if text::spells(line, key, key_end, "CommitLimit:") {
            commit_limit = amount;
        } else if text::spells(line, key, key_end, "Committed_AS:") {
            committed = amount;
        }
        if end == chars.len() {
            from = end;
        } else {
            from = end + 1;
        }
    }
    match (total, available, commit_limit, committed) {
        (Some(total), Some(available), Some(commit_limit), Some(committed)) => Ok(
            MemoryCounters { total, available, commit_limit, committed },
        ),
        _ => Err(MissingCounter),
    }
}

/// The four keys are different.
proof fn keys_differ()
    ensures
        "MemTotal:"@ != "MemAvailable:"@,
        "MemTotal:"@ != "CommitLimit:"@,
        "MemTotal:"@ != "Committed_AS:"@,
        "MemAvailable:"@ != "CommitLimit:"@,
        "MemAvailable:"@ != "Committed_AS:"@,
        "CommitLimit:"@ != "Committed_AS:"@,
{
    reveal_strlit("MemTotal:");
    reveal_strlit("MemAvailable:");
    reveal_strlit("CommitLimit:");
    reveal_strlit("Committed_AS:");
    assert("MemTotal:"@[3] != "MemAvailable:"@[3]);
    assert("CommitLimit:"@[6] != "Committed_AS:"@[6]);
}

/// Whether `word` is the key of one of the four counters.
pub open spec fn is_key(word: Seq<char>) -> bool {
    ||| word == "MemTotal:"@
    ||| word == "MemAvailable:"@
    ||| word == "CommitLimit:"@
    ||| word == "Committed_AS:"@
}

/// The lines of `text` that begin with the key of a counter, in their order.
pub open spec fn telling_lines(text: Seq<char>) -> Seq<Seq<char>> {
    lines(text).filter(|line: Seq<char>| is_key(first_word(line)))
}

/// Whether no key begins two lines.
pub open spec fn each_key_once(lines: Seq<Seq<char>>) -> bool {
    forall|i: int, j: int|
        0 <= i < j < lines.len() && is_key(first_word(#[trigger] lines[i])) ==> first_word(
            lines[i],
        ) != first_word(#[trigger] lines[j])
}

/// Where each key begins at most one line, that line decides.
proof fn only_line_decides(lines: Seq<Seq<char>>, i: int)
    requires
        each_key_once(lines),
        0 <= i < lines.len(),
        is_key(first_word(lines[i])),
    ensures
        counter(lines, first_word(lines[i])) == text::number(second_word(lines[i])),
    decreases lines.len(),
{
    if i < lines.len() - 1 {
        only_line_decides(lines.drop_last(), i);
    }
}

/// Without a line that begins with `key` there is no such counter.
proof fn no_line_no_counter(lines: Seq<Seq<char>>, key: Seq<char>)
    requires
        forall|i: int| 0 <= i < lines.len() ==> first_word(#[trigger] lines[i]) != key,
    ensures
        counter(lines, key) is None,
    decreases lines.len(),
{
    if lines.len() > 0 {
        no_line_no_counter(lines.drop_last(), key);
    }
}

/// Texts with the same lines about the counters agree on each of them.
proof fn same_lines_same_counter(a: Seq<char>, b: Seq<char>, key: Seq<char>)
    requires
        each_key_once(lines(a)),
        each_key_once(lines(b)),
        telling_lines(a).to_multiset() == telling_lines(b).to_multiset(),
        is_key(key),
    ensures
        counter_in(a, key) == counter_in(b, key),
{
    if exists|i: int| 0 <= i < lines(a).len() && first_word(#[trigger] lines(a)[i]) == key {
        let i = choose|i: int|
            0 <= i < lines(a).len() && first_word(#[trigger] lines(a)[i]) == key;
        let j = telling_line_is_in_both(a, b, i);
        only_line_decides(lines(a), i);
        only_line_decides(lines(b), j);
    } else {
        no_line_no_counter(lines(a), key);
        assert forall|j: int| 0 <= j < lines(b).len() implies first_word(#[trigger] lines(b)[j])
            != key by {
            if first_word(lines(b)[j]) == key {
                let _ = telling_line_is_in_both(b, a, j);
            }
        }
        no_line_no_counter(lines(b), key);
    }
}

/// A line about a counter of one of two such texts is a line of the other.
proof fn telling_line_is_in_both(a: Seq<char>, b: Seq<char>, i: int) -> (j: int)
    requires
        telling_lines(a).to_multiset() == telling_lines(b).to_multiset(),
        0 <= i < lines(a).len(),
        is_key(first_word(lines(a)[i])),
    ensures
        0 <= j < lines(b).len(),
        lines(b)[j] == lines(a)[i],
{
    let telling = |line: Seq<char>| is_key(first_word(line));
    let line = lines(a)[i];
    lines(a).lemma_filter_contains(telling, i);
    vstd::seq_lib::to_multiset_contains(telling_lines(a), line);
    vstd::seq_lib::to_multiset_contains(telling_lines(b), line);
    lines(b).lemma_filter_contains_rev(telling, line);
    choose|j: int| 0 <= j < lines(b).len() && lines(b)[j] == line
}

/// Neither the order of the lines nor lines about other things matter: where
/// each key begins at most one line, two texts with the same lines about the
/// four counters, in whatever order and whatever else they hold, give the same
/// counters or are both refused.
pub proof fn order_of_lines_does_not_matter(a: Seq<char>, b: Seq<char>)
    requires
        each_key_once(lines(a)),
        each_key_once(lines(b)),
        telling_lines(a).to_multiset() == telling_lines(b).to_multiset(),
    ensures
        counters_in(a) == counters_in(b),
{
    same_lines_same_counter(a, b, "MemTotal:"@);
    same_lines_same_counter(a, b, "MemAvailable:"@);
    same_lines_same_counter(a, b, "CommitLimit:"@);
    same_lines_same_counter(a, b, "Committed_AS:"@);
}

impl MemoryCounters {
    /// Whether every counter can be shown in bytes.
    pub open spec fn fits_bytes(self) -> bool {
        &&& self.total * 1024 <= u64::MAX
        &&& self.available * 1024 <= u64::MAX
        &&& self.commit_limit * 1024 <= u64::MAX
        &&& self.committed * 1024 <= u64::MAX
    }

    /// Returns whether every counter can be shown in bytes.
    pub fn is_convertible(&self) -> (fits: bool)
        ensures
            fits == self.fits_bytes(),
    {
        let most: u64 = u64::MAX / 1024;
        self.total <= most && self.available <= most && self.commit_limit <= most && self.committed
            <= most
    }

    /// Returns the counters in bytes.
    pub fn to_bytes(&self) -> (usage: MemoryUsage)
        requires
            self.fits_bytes(),
        ensures
            usage.total == self.total * 1024,
            usage.available == self.available * 1024,
            usage.commit_limit == self.commit_limit * 1024,
            usage.committed == self.committed * 1024,
    {
        MemoryUsage {
            total: self.total * 1024,
            available: self.available * 1024,
            commit_limit: self.commit_limit * 1024,
            committed: self.committed * 1024,
        }
    }
}

/// A line ends where its first line feed stands.
proof fn line_end_is_the_line_feed(text: Seq<char>, from: int, end: int)
    requires
        0 <= from <= end <= text.len(),
        forall|i: int| from <= i < end ==> #[trigger] text[i] != '\n',
        end == text.len() || text[end] == '\n',
    ensures
        line_end(text, from) == end,
    decreases end - from,
{
    if from < end {
        line_end_is_the_line_feed(text, from + 1, end);
    }
}

/// What stands before it does not matter to the end of a line.
proof fn line_end_moves_along(front: Seq<char>, text: Seq<char>, from: int)
    requires
        0 <= from <= text.len(),
    ensures
        line_end(front + text, front.len() + from) == front.len() + line_end(text, from),
    decreases text.len() - from,
{
    if from < text.len() && text[from] != '\n' {
        line_end_moves_along(front, text, from + 1);
    }
}

/// What stands before them does not matter to lines.
proof fn lines_move_along(front: Seq<char>, text: Seq<char>, from: int)
    requires
        0 <= from,
    ensures
        lines_from(front + text, front.len() + from) == lines_from(text, from),
    decreases text.len() + 1 - from,
{
    if from < text.len() {
        let end = line_end(text, from);
        line_end_is_ahead(text, from);
        line_end_moves_along(front, text, from);
        lines_move_along(front, text, end + 1);
        assert((front + text).subrange(front.len() + from, front.len() + end) =~= text.subrange(
            from,
            end,
        ));
    }
}

/// Text is cut into lines at its line feeds, and nowhere else: what stands before
/// the first line feed is the first line, and the rest is cut in the same way.
/// Text without a line feed is one line, and no text is none.
pub proof fn lines_are_cut_at_line_feeds(line: Seq<char>, rest: Seq<char>)
    requires
        !line.contains('\n'),
    ensures
        lines(line + seq!['\n'] + rest) == seq![line] + lines(rest),
        lines(line) == if line.len() == 0 {
            Seq::<Seq<char>>::empty()
        } else {
            seq![line]
        },
{
    let front = line + seq!['\n'];
    let text = front + rest;
    assert(forall|i: int| 0 <= i < line.len() ==> #[trigger] text[i] == line[i]);
    assert(text[line.len() as int] == '\n');
    line_end_is_the_line_feed(text, 0, line.len() as int);
    line_end_is_the_line_feed(line, 0, line.len() as int);
    assert(text.subrange(0, line.len() as int) =~= line);
    lines_move_along(front, rest, 0);
    assert(lines(text) =~= seq![line] + lines(rest));
    if line.len() > 0 {
        assert(line.subrange(0, line.len() as int) =~= line);
        assert(lines_from(line, line.len() as int + 1) =~= Seq::<Seq<char>>::empty());
        assert(lines(line) =~= seq![line]);
    }
}

/// Whether `text` is nothing but space.
pub open spec fn all_space(text: Seq<char>) -> bool {
    forall|i: int| 0 <= i < text.len() ==> text::is_space(#[trigger] text[i])
}

/// Whether `text` is one word.
pub open spec fn is_word(text: Seq<char>) -> bool {
    &&& 0 < text.len()
    &&& forall|i: int| 0 <= i < text.len() ==> !text::is_space(#[trigger] text[i])
}

/// Space ends where something else begins.
proof fn space_ends_at(line: Seq<char>, from: int, end: int)
    requires
        0 <= from <= end <= line.len(),
        forall|i: int| from <= i < end ==> text::is_space(#[trigger] line[i]),
        end == line.len() || !text::is_space(line[end]),
    ensures
        space_end(line, from) == end,
    decreases end - from,
{
    if from < end {
        space_ends_at(line, from + 1, end);
    }
}

/// A word ends where space begins.
proof fn word_ends_at(line: Seq<char>, from: int, end: int)
    requires
        0 <= from <= end <= line.len(),
        forall|i: int| from <= i < end ==> !text::is_space(#[trigger] line[i]),
        end == line.len() || text::is_space(line[end]),
    ensures
        word_end(line, from) == end,
    decreases end - from,
{
    if from < end {
        word_ends_at(line, from + 1, end);
    }
}

/// Words are read as they were written: space before, between and behind them
/// does not matter, and more words behind the second do not either.
pub proof fn words_are_read_as_written(
    pad: Seq<char>,
    key: Seq<char>,
    gap: Seq<char>,
    value: Seq<char>,
    tail: Seq<char>,
)
    requires
        all_space(pad),
        is_word(key),
        all_space(gap),
        0 < gap.len(),
        is_word(value),
        tail.len() == 0 || text::is_space(tail[0]),
    ensures
        first_word(pad + key + gap + value + tail) == key,
        second_word(pad + key + gap + value + tail) == value,
{
    let line = pad + key + gap + value + tail;
    let a = pad.len() as int;
    let b = a + key.len();
    let c = b + gap.len();
    let d = c + value.len();
    assert(forall|i: int| 0 <= i < a ==> #[trigger] line[i] == pad[i]);
    assert(forall|i: int| a <= i < b ==> #[trigger] line[i] == key[i - a]);
    assert(forall|i: int| b <= i < c ==> #[trigger] line[i] == gap[i - b]);
    assert(forall|i: int| c <= i < d ==> #[trigger] line[i] == value[i - c]);
    assert(forall|i: int| d <= i < line.len() ==> #[trigger] line[i] == tail[i - d]);
    space_ends_at(line, 0, a);
    word_ends_at(line, a, b);
    space_ends_at(line, b, c);
    word_ends_at(line, c, d);
    assert(line.subrange(a, b) =~= key);
    assert(line.subrange(c, d) =~= value);
}

/// A line with fewer than two words lacks the second, and one with nothing but
/// space lacks both.
pub proof fn missing_words_are_empty(pad: Seq<char>, key: Seq<char>, tail: Seq<char>)
    requires
        all_space(pad),
        is_word(key),
        all_space(tail),
    ensures
        first_word(pad) == Seq::<char>::empty(),
        second_word(pad) == Seq::<char>::empty(),
        first_word(pad + key + tail) == key,
        second_word(pad + key + tail) == Seq::<char>::empty(),
{
    let line = pad + key + tail;
    let a = pad.len() as int;
    let b = a + key.len();
    assert(forall|i: int| 0 <= i < a ==> #[trigger] line[i] == pad[i]);
    assert(forall|i: int| a <= i < b ==> #[trigger] line[i] == key[i - a]);
    assert(forall|i: int| b <= i < line.len() ==> #[trigger] line[i] == tail[i - b]);
    space_ends_at(pad, 0, a);
    space_ends_at(line, 0, a);
    word_ends_at(line, a, b);
    space_ends_at(line, b, line.len() as int);
    assert(line.subrange(a, b) =~= key);
}

/// Whether line `i` decides the counter `key`, and gives it the value `value`: it
/// begins with the key, and no later line does.
pub open spec fn decides(lines: Seq<Seq<char>>, key: Seq<char>, i: int, value: Option<u64>) -> bool {
    &&& 0 <= i < lines.len()
    &&& first_word(lines[i]) == key
    &&& text::number(second_word(lines[i])) == value
    &&& forall|j: int| i < j < lines.len() ==> first_word(#[trigger] lines[j]) != key
}

/// A counter is what the last line that begins with its key says; without such a
/// line there is none.
pub proof fn last_line_of_a_key_decides(lines: Seq<Seq<char>>, key: Seq<char>)
    ensures
        forall|i: int, value: Option<u64>| #[trigger]
            decides(lines, key, i, value) ==> counter(lines, key) == value,
        (forall|i: int| 0 <= i < lines.len() ==> first_word(#[trigger] lines[i]) != key)
            ==> counter(lines, key) is None,
        counter(lines, key) is Some ==> exists|i: int| #[trigger]
            decides(lines, key, i, counter(lines, key)),
    decreases lines.len(),
{
    if lines.len() > 0 {
        let last = lines.len() - 1;
        let before = lines.drop_last();
        last_line_of_a_key_decides(before, key);
        if first_word(lines[last]) == key {
            assert(decides(lines, key, last, counter(lines, key)));
        } else {
            assert forall|i: int, value: Option<u64>| #[trigger]
                decides(lines, key, i, value) implies counter(lines, key) == value by {
                assert(decides(before, key, i, value));
            }
            if forall|i: int| 0 <= i < lines.len() ==> first_word(#[trigger] lines[i]) != key {
                assert forall|i: int| 0 <= i < before.len() implies first_word(
                    #[trigger] before[i],
                ) != key by {
                    assert(before[i] == lines[i]);
                }
            }
            if counter(lines, key) is Some {
                let i = choose|i: int| #[trigger] decides(before, key, i, counter(before, key));
                assert forall|j: int| i < j < lines.len() implies first_word(#[trigger] lines[j])
                    != key by {
                    if j < last {
                        assert(before[j] == lines[j]);
                    }
                }
                assert(decides(lines, key, i, counter(lines, key)));
            }
        }
    }
}

/// Each counter comes from its own line: the four are there exactly if each has a
/// line that gives it a number, and then each of them is that number.
pub proof fn counters_come_from_their_own_lines(
    text: Seq<char>,
    total: (int, u64),
    available: (int, u64),
    commit_limit: (int, u64),
    committed: (int, u64),
)
    requires
        decides(lines(text), "MemTotal:"@, total.0, Some(total.1)),
        decides(lines(text), "MemAvailable:"@, available.0, Some(available.1)),
        decides(lines(text), "CommitLimit:"@, commit_limit.0, Some(commit_limit.1)),
        decides(lines(text), "Committed_AS:"@, committed.0, Some(committed.1)),
    ensures
        counters_in(text) matches Some(counters) && {
            &&& counters.total == total.1
            &&& counters.available == available.1
            &&& counters.commit_limit == commit_limit.1
            &&& counters.committed == committed.1
        },
{
    last_line_of_a_key_decides(lines(text), "MemTotal:"@);
    last_line_of_a_key_decides(lines(text), "MemAvailable:"@);
    last_line_of_a_key_decides(lines(text), "CommitLimit:"@);
    last_line_of_a_key_decides(lines(text), "Committed_AS:"@);
}

/// A text is refused if one of the four keys begins no line, or if the last line
/// that it begins gives no number.
pub proof fn every_counter_is_needed(text: Seq<char>, key: Seq<char>)
    requires
        key == "MemTotal:"@ || key == "MemAvailable:"@ || key == "CommitLimit:"@ || key
            == "Committed_AS:"@,
        (forall|i: int| 0 <= i < lines(text).len() ==> first_word(#[trigger] lines(text)[i]) != key)
            || exists|i: int| #[trigger] decides(lines(text), key, i, None),
    ensures
        counters_in(text) is None,
{
    last_line_of_a_key_decides(lines(text), key);
}

/// Another line leaves a counter alone: it may be exchanged for any line that does
/// not begin with the counter's key either.
pub proof fn other_lines_leave_a_counter_alone(
    lines: Seq<Seq<char>>,
    i: int,
    line: Seq<char>,
    key: Seq<char>,
)
    requires
        0 <= i < lines.len(),
        first_word(lines[i]) != key,
        first_word(line) != key,
    ensures
        counter(lines.update(i, line), key) == counter(lines, key),
    decreases lines.len(),
{
    let changed = lines.update(i, line);
    if i < lines.len() - 1 {
        other_lines_leave_a_counter_alone(lines.drop_last(), i, line, key);
        assert(changed.drop_last() =~= lines.drop_last().update(i, line));
    } else {
        assert(changed.drop_last() =~= lines.drop_last());
    }
}

/// A counter is the number written on its line, whatever the number is: a line
/// made of the key, space and the number's digits gives the counter that number.
pub proof fn counters_are_read_back(
    lines: Seq<Seq<char>>,
    i: int,
    key: Seq<char>,
    gap: Seq<char>,
    value: u64,
    tail: Seq<char>,
)
    requires
        0 <= i < lines.len(),
        is_word(key),
        all_space(gap),
        0 < gap.len(),
        tail.len() == 0 || text::is_space(tail[0]),
        lines[i] == key + gap + text::decimal(value as nat) + tail,
        forall|j: int| i < j < lines.len() ==> first_word(#[trigger] lines[j]) != key,
    ensures
        decides(lines, key, i, Some(value)),
        counter(lines, key) == Some(value),
{
    let digits = text::decimal(value as nat);
    text::numbers_are_read_back(value as nat);
    words_are_read_as_written(Seq::empty(), key, gap, digits, tail);
    assert(Seq::<char>::empty() + key + gap + digits + tail =~= lines[i]);
    last_line_of_a_key_decides(lines, key);
    assert(decides(lines, key, i, Some(value)));
}

/// The four keys are words, so that a line can begin with them.
pub proof fn keys_are_words(key: Seq<char>)
    requires
        key == "MemTotal:"@ || key == "MemAvailable:"@ || key == "CommitLimit:"@ || key
            == "Committed_AS:"@,
    ensures
        is_word(key),
{
    reveal_strlit("MemTotal:");
    reveal_strlit("MemAvailable:");
    reveal_strlit("CommitLimit:");
    reveal_strlit("Committed_AS:");
}

/// Counters can be shown in bytes exactly if a 64-bit number holds each of them.
pub proof fn convertible_counters_fit(counters: MemoryCounters)
    ensures
        counters.fits_bytes() <==> {
            &&& counters.total <= 18014398509481983
            &&& counters.available <= 18014398509481983
            &&& counters.commit_limit <= 18014398509481983
            &&& counters.committed <= 18014398509481983
        },
{
}

} // verus!
