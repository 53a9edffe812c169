//! Reading characters, words and numbers out of text.

use vstd::prelude::*;

verus! {

/// The characters of `text`, in order.
pub fn chars_of(text: &str) -> (chars: Vec<char>)
    ensures
        chars@ == text@,
{
    let mut chars: Vec<char> = Vec::new();
    for c in it: text.chars()
        invariant
            it.seq() == text@,
            chars@ == text@.take(it.index() as int),
    {
        chars.push(c);
    }
    chars
}

/// Whether the characters `from..to` of `chars` spell `word`.
pub fn spells(chars: &[char], from: usize, to: usize, word: &str) -> (same: bool)
    requires
        from <= to <= chars@.len(),
    ensures
        same == (chars@.subrange(from as int, to as int) == word@),
{
    let wanted = chars_of(word);
    if wanted.len() != to - from {
        return false;
    }
    let mut i: usize = 0;
    while i < wanted.len()
        invariant
            i <= wanted@.len(),
            wanted@ == word@,
            wanted@.len() == to - from,
            from <= to <= chars@.len(),
            forall|k: int| 0 <= k < i ==> chars@[from + k] == #[trigger] wanted@[k],
        decreases wanted@.len() - i,
    {
        if chars[from + i] != wanted[i] {
            return false;
        }
        i += 1;
    }
    assert(chars@.subrange(from as int, to as int) =~= word@);
    true
}

/// Whether two texts are the same.
pub fn same_text(a: &str, b: &str) -> (same: bool)
    ensures
        same == (a@ == b@),
{
    let chars = chars_of(a);
    assert(chars@.subrange(0, chars@.len() as int) =~= a@);
    spells(chars.as_slice(), 0, chars.len(), b)
}

/// Whether `c` separates words: the characters with Unicode's `White_Space` property.
pub open spec fn is_space(c: char) -> bool {
    ||| '\u{9}' <= c <= '\u{d}'
    ||| c == ' '
    ||| c == '\u{85}'
    ||| c == '\u{a0}'
    ||| c == '\u{1680}'
    ||| '\u{2000}' <= c <= '\u{200a}'
    ||| c == '\u{2028}'
    ||| c == '\u{2029}'
    ||| c == '\u{202f}'
    ||| c == '\u{205f}'
    ||| c == '\u{3000}'
}

/// Whether `c` separates words.
pub fn separates(c: char) -> (space: bool)
    ensures
        space == is_space(c),
{
    ('\u{9}' <= c && c <= '\u{d}') || c == ' ' || c == '\u{85}' || c == '\u{a0}' || c == '\u{1680}'
        || ('\u{2000}' <= c && c <= '\u{200a}') || c == '\u{2028}' || c == '\u{2029}' || c
        == '\u{202f}' || c == '\u{205f}' || c == '\u{3000}'
}

/// Whether `c` is a decimal digit.
pub open spec fn is_digit(c: char) -> bool {
    '0' <= c <= '9'
}

/// The number that a row of digits stands for.
pub open spec fn digits_value(digits: Seq<char>) -> int
    decreases digits.len(),
{
    if digits.len() == 0 {
        0
    } else {
        digits_value(digits.drop_last()) * 10 + (digits.last() as int - '0' as int)
    }
}

/// The characters behind a leading plus sign, if there is one.
pub open spec fn unsigned_part(text: Seq<char>) -> Seq<char> {
    if text.len() > 0 && text[0] == '+' {
        text.skip(1)
    } else {
        text
    }
}

/// The number that `text` spells: an optional plus sign and at least one
/// digit, nothing else, and no more than a 64-bit number holds.
pub open spec fn number(text: Seq<char>) -> Option<u64> {
    let digits = unsigned_part(text);
    if digits.len() > 0 && (forall|i: int| 0 <= i < digits.len() ==> is_digit(#[trigger] digits[i]))
        && digits_value(digits) <= u64::MAX {
        Some(digits_value(digits) as u64)
    } else {
        None
    }
}

/// A row of digits stands for no less than its beginning does.
proof fn prefix_is_no_greater(digits: Seq<char>, count: int)
    requires
        0 <= count <= digits.len(),
        forall|i: int| 0 <= i < digits.len() ==> is_digit(#[trigger] digits[i]),
    ensures
        0 <= digits_value(digits.take(count)) <= digits_value(digits),
    decreases digits.len(),
{
    if digits.len() > 0 {
        let shorter = digits.drop_last();
        if count < digits.len() {
            prefix_is_no_greater(shorter, count);
            assert(shorter.take(count) =~= digits.take(count));
        } else {
            prefix_is_no_greater(shorter, shorter.len() as int);
            assert(digits.take(count) =~= digits);
        }
    }
}

/// Reads the number that the characters `from..to` of `chars` spell.
pub fn parse_number(chars: &[char], from: usize, to: usize) -> (value: Option<u64>)
    requires
        from <= to <= chars@.len(),
    ensures
        value == number(chars@.subrange(from as int, to as int)),
{
    let ghost text = chars@.subrange(from as int, to as int);
    let mut start: usize = from;
    if from < to && chars[from] == '+' {
        start = from + 1;
    }
    let ghost digits = unsigned_part(text);
    if start == to {
        return None;
    }
    let mut value: u64 = 0;
    let mut i: usize = start;
    while i < to
        invariant
            from <= start <= i <= to <= chars@.len(),
            text == chars@.subrange(from as int, to as int),
            digits == unsigned_part(text),
            digits == chars@.subrange(start as int, to as int),
            forall|k: int| 0 <= k < i - start ==> is_digit(#[trigger] digits[k]),
            value == digits_value(digits.take(i - start)),
        decreases to - i,
    {
        let c = chars[i];
        let ghost k = i - start;
        if c < '0' || c > '9' {
            assert(!is_digit(digits[k]));
            return None;
        }
        let digit: u64 = (c as u64) - ('0' as u64);
        assert(digits.take(k + 1).drop_last() =~= digits.take(k));
        proof {
            if forall|j: int| 0 <= j < digits.len() ==> is_digit(#[trigger] digits[j]) {
                prefix_is_no_greater(digits, k + 1);
            }
        }
        match value.checked_mul(10) {
            None => {
                return None;
            },
            Some(shifted) => {
                match shifted.checked_add(digit) {
                    None => {
                        return None;
                    },
                    Some(next) => {
                        value = next;
                    },
                }
            },
        }
        i += 1;
    }
    assert(digits.take(to - start) =~= digits);
    Some(value)
}

/// The characters that separate words are these, by their code points: the
/// control characters from tab to carriage return, the space, and Unicode's other
/// white space.
pub proof fn spaces_by_code_point(c: char)
    ensures
        is_space(c) <==> ({
            let code = c as u32;
            ||| 0x09 <= code <= 0x0d
            ||| code == 0x20 || code == 0x85 || code == 0xa0 || code == 0x1680
            ||| 0x2000 <= code <= 0x200a
            ||| code == 0x2028 || code == 0x2029 || code == 0x202f || code == 0x205f || code
                == 0x3000
        }),
{
}

/// The decimal digits of `n`, the highest first.
pub open spec fn decimal(n: nat) -> Seq<char>
    decreases n,
{
    if n < 10 {
        seq![(48 + n) as char]
    } else {
        decimal(n / 10).push((48 + n % 10) as char)
    }
}

/// Whether `text` is made of the digits from 0 to 9.
pub open spec fn all_digits(text: Seq<char>) -> bool {
    forall|i: int| 0 <= i < text.len() ==> '0' <= #[trigger] text[i] <= '9'
}

/// A number is read digit by digit: one more digit makes it ten times as large
/// and adds the digit, and beyond 64 bits there is no number any more.
pub proof fn number_is_read_digit_by_digit(digits: Seq<char>, c: char)
    requires
        all_digits(digits),
        '0' <= c <= '9',
    ensures
        ({
            let digit = c as int - 48;
            let before = if digits.len() == 0 {
                Some(0u64)
            } else {
                number(digits)
            };
            number(digits.push(c)) == match before {
                Some(value) => if value * 10 + digit <= u64::MAX {
                    Some((value * 10 + digit) as u64)
                } else {
                    None
                },
                None => None,
            }
        }),
{
    let longer = digits.push(c);
    assert(longer.drop_last() =~= digits);
    prefix_is_no_greater(digits, digits.len() as int);
    assert(digits.take(digits.len() as int) =~= digits);
    assert forall|i: int| 0 <= i < longer.len() implies is_digit(#[trigger] longer[i]) by {}
}

/// A number is read back from its decimal digits, and what exceeds 64 bits is
/// none.
pub proof fn numbers_are_read_back(n: nat)
    ensures
        all_digits(decimal(n)),
        0 < decimal(n).len(),
        number(decimal(n)) == if n <= u64::MAX {
            Some(n as u64)
        } else {
            None
        },
    decreases n,
{
    if n < 10 {
        number_is_read_digit_by_digit(Seq::empty(), (48 + n) as char);
        assert(Seq::empty().push((48 + n) as char) =~= decimal(n));
    } else {
        numbers_are_read_back(n / 10);
        number_is_read_digit_by_digit(decimal(n / 10), (48 + n % 10) as char);
    }
}

/// A plus sign in front changes nothing, and a number is spelled by at least one
/// digit behind it, and by nothing else.
pub proof fn numbers_are_digits_behind_a_plus(text: Seq<char>)
    ensures
        text.len() > 0 && text[0] != '+' ==> number(seq!['+'] + text) == number(text),
        number(text) is Some ==> ({
            let digits = if text[0] == '+' {
                text.skip(1)
            } else {
                text
            };
            0 < digits.len() && all_digits(digits)
        }),
        number(Seq::empty()) is None,
        number(seq!['+']) is None,
{
    assert((seq!['+'] + text).skip(1) =~= text);
    if number(text) is Some {
        let digits = unsigned_part(text);
        assert forall|i: int| 0 <= i < digits.len() implies '0' <= #[trigger] digits[i] <= '9' by {
            assert(is_digit(digits[i]));
        }
    }
}

} // verus!
