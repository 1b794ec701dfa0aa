//! Reading a move from a line that a player has typed: two numbers, the row
//! and the column, each counted from 1, with one blank between them.

use vstd::prelude::*;
use vstd::string::*;

verus! {

/// Why a line names no move.
#[derive(Copy, Clone, PartialEq, Eq, Structural, Debug)]
pub enum InputError {
    /// The line does not hold two entries with one blank between them.
    BadInput,
    /// The first entry is no number from 0 to 255.
    Row,
    /// The second entry is no number from 0 to 255.
    Col,
}

/// White space, as Unicode defines it.
pub open spec fn is_space(c: char) -> bool {
    ||| '\u{9}' <= c <= '\u{d}'
    ||| c == ' '
    ||| c == '\u{85}'
    ||| c == '\u{a0}'
    ||| c == '\u{1680}'
    ||| '\u{2000}' <= c <= '\u{200a}'
    ||| c == '\u{2028}'
    ||| c == '\u{2029}'
    ||| c == '\u{202f}'
    ||| c == '\u{205f}'
    ||| c == '\u{3000}'
}

/// `s` without the white space at its beginning.
pub open spec fn trimmed_start(s: Seq<char>) -> Seq<char>
    decreases s.len(),
{
    if s.len() > 0 && is_space(s.first()) {
        trimmed_start(s.drop_first())
    } else {
        s
    }
}

/// `s` without the white space at its end.
pub open spec fn trimmed_end(s: Seq<char>) -> Seq<char>
    decreases s.len(),
{
    if s.len() > 0 && is_space(s.last()) {
        trimmed_end(s.drop_last())
    } else {
        s
    }
}

/// `s` without the white space at its beginning and at its end.
pub open spec fn trimmed(s: Seq<char>) -> Seq<char> {
    trimmed_end(trimmed_start(s))
}

/// The place of the first blank in `s`, or the length of `s` if it holds no
/// blank.
pub open spec fn gap(s: Seq<char>) -> int
    decreases s.len(),
{
    if s.len() == 0 || s.first() == ' ' {
        0
    } else {
        1 + gap(s.drop_first())
    }
}

/// Whether `c` is one of the ten decimal digits.
pub open spec fn is_digit(c: char) -> bool {
    '0' <= c <= '9'
}

/// The number that the digit `c` stands for.
pub open spec fn digit_value(c: char) -> nat {
    (c as u32 - '0' as u32) as nat
}

/// The number that a run of decimal digits stands for.
pub open spec fn value(digits: Seq<char>) -> nat
    decreases digits.len(),
{
    if digits.len() == 0 {
        0
    } else {
        10 * value(digits.drop_last()) + digit_value(digits.last())
    }
}

/// Whether every character of `s` is a decimal digit.
pub open spec fn all_digits(s: Seq<char>) -> bool {
    forall|i: int| 0 <= i < s.len() ==> is_digit(#[trigger] s[i])
}

/// An entry without the plus sign that may stand at its beginning.
pub open spec fn unsigned(entry: Seq<char>) -> Seq<char> {
    if entry.len() > 0 && entry.first() == '+' {
        entry.drop_first()
    } else {
        entry
    }
}

/// The number that an entry stands for: one or more decimal digits, which
/// a plus sign may precede, with a value of 255 at most. Any other entry is
/// no number.
pub open spec fn number(entry: Seq<char>) -> Option<u8> {
    let digits = unsigned(entry);
    if digits.len() > 0 && all_digits(digits) && value(digits) <= 255 {
        Some(value(digits) as u8)
    } else {
        None
    }
}

/// The row or column, counted from 0, that a player means by `n`, counted
/// from 1. A player who types 0 means none: it becomes 255, which is beyond
/// every board.
pub open spec fn from_zero(n: u8) -> u8 {
    if n == 0 {
        255
    } else {
        (n - 1) as u8
    }
}

/// The move that a line names: row and column, both counted from 0. The
/// white space around the line does not count. What is left must hold
/// exactly one blank; what stands before it is the row and what stands
/// after it is the column, each a number counted from 1.
pub open spec fn move_of(line: Seq<char>) -> Result<(u8, u8), InputError> {
    let text = trimmed(line);
    let k = gap(text);
    if k >= text.len() || gap(text.skip(k + 1)) < text.len() - (k + 1) {
        Err(InputError::BadInput)
    } else {
        match (number(text.take(k)), number(text.skip(k + 1))) {
            (None, _) => Err(InputError::Row),
            (Some(_), None) => Err(InputError::Col),
            (Some(row), Some(col)) => Ok((from_zero(row), from_zero(col))),
        }
    }
}

/// A run of white space at the beginning of `s` is all that
/// `trimmed_start` takes away, if what follows it is no white space.
pub proof fn lemma_trimmed_start(s: Seq<char>, a: int)
    requires
        0 <= a <= s.len(),
        forall|i: int| 0 <= i < a ==> is_space(#[trigger] s[i]),
        a < s.len() ==> !is_space(s[a]),
    ensures
        trimmed_start(s) == s.skip(a),
    decreases a,
{
    if a == 0 {
        assert(s.skip(0) =~= s);
    } else {
        let rest = s.drop_first();
        assert forall|i: int| 0 <= i < a - 1 implies is_space(#[trigger] rest[i]) by {
            assert(rest[i] == s[i + 1]);
        }
        lemma_trimmed_start(rest, a - 1);
        assert(rest.skip(a - 1) =~= s.skip(a));
    }
}

/// A run of white space at the end of `s` is all that `trimmed_end` takes
/// away, if what precedes it is no white space.
pub proof fn lemma_trimmed_end(s: Seq<char>, b: int)
    requires
        0 <= b <= s.len(),
        forall|i: int| b <= i < s.len() ==> is_space(#[trigger] s[i]),
        0 < b ==> !is_space(s[b - 1]),
    ensures
        trimmed_end(s) == s.take(b),
    decreases s.len() - b,
{
    if b == s.len() {
        assert(s.take(b) =~= s);
    } else {
        let rest = s.drop_last();
        lemma_trimmed_end(rest, b);
        assert(rest.take(b) =~= s.take(b));
    }
}

/// The first blank of `s` is at `k` if there is a blank at `k` and none
/// before it; and `s` has no blank if `k` is its length.
pub proof fn lemma_gap(s: Seq<char>, k: int)
    requires
        0 <= k <= s.len(),
        forall|i: int| 0 <= i < k ==> #[trigger] s[i] != ' ',
        k < s.len() ==> s[k] == ' ',
    ensures
        gap(s) == k,
    decreases k,
{
    if k > 0 {
        let rest = s.drop_first();
        assert forall|i: int| 0 <= i < k - 1 implies #[trigger] rest[i] != ' ' by {
            assert(rest[i] == s[i + 1]);
        }
        lemma_gap(rest, k - 1);
    }
}

/// The first digits of a run stand for no more than the whole run.
proof fn lemma_value_grows(digits: Seq<char>, n: int)
    requires
        0 <= n <= digits.len(),
    ensures
        value(digits.take(n)) <= value(digits),
    decreases digits.len(),
{
    if n == digits.len() {
        assert(digits.take(n) =~= digits);
    } else {
        lemma_value_grows(digits.drop_last(), n);
        assert(digits.drop_last().take(n) =~= digits.take(n));
    }
}

/// Whether `c` is white space.
fn white(c: char) -> (res: bool)
    ensures
        res == is_space(c),
{
    (c >= '\u{9}' && c <= '\u{d}') || c == ' ' || c == '\u{85}' || c == '\u{a0}' || c == '\u{1680}'
        || (c >= '\u{2000}' && c <= '\u{200a}') || c == '\u{2028}' || c == '\u{2029}' || c
        == '\u{202f}' || c == '\u{205f}' || c == '\u{3000}'
}

/// The characters of `line`, one by one.
fn characters(line: &str) -> (chars: Vec<char>)
    ensures
        chars@ == line@,
{
    let mut chars: Vec<char> = Vec::new();
    for c in it: line.chars()
        invariant
            chars@ == it.seq().take(it.index() as int),
    {
        chars.push(c);
    }
    chars
}

/// Where `chars` begins and ends once the white space around it is taken
/// away.
fn trim(chars: &Vec<char>) -> (bounds: (usize, usize))
    ensures
        bounds.0 <= bounds.1 <= chars.len(),
        chars@.subrange(bounds.0 as int, bounds.1 as int) == trimmed(chars@),
{
    let mut start: usize = 0;
    while start < chars.len() && white(chars[start])
        invariant
            start <= chars.len(),
            forall|i: int| 0 <= i < start ==> is_space(#[trigger] chars@[i]),
        decreases chars.len() - start,
    {
        start += 1;
    }
    let mut end: usize = chars.len();
    while end > start && white(chars[end - 1])
        invariant
            start <= end <= chars.len(),
            forall|i: int| end <= i < chars.len() ==> is_space(#[trigger] chars@[i]),
        decreases end,
    {
        end -= 1;
    }
    proof {
        let s = chars@;
        lemma_trimmed_start(s, start as int);
        let rest = s.skip(start as int);
        assert forall|i: int| end - start <= i < rest.len() implies is_space(#[trigger] rest[i]) by {
            assert(rest[i] == s[i + start]);
        }
        lemma_trimmed_end(rest, end - start);
        assert(rest.take(end - start) =~= s.subrange(start as int, end as int));
    }
    (start, end)
}

/// The place of the first blank among the characters from `from` up to
/// `to`, or `to` if there is none.
fn find_gap(chars: &Vec<char>, from: usize, to: usize) -> (k: usize)
    requires
        from <= to <= chars.len(),
    ensures
        from <= k <= to,
        k - from == gap(chars@.subrange(from as int, to as int)),
{
    let mut k: usize = from;
    while k < to && chars[k] != ' '
        invariant
            from <= k <= to <= chars.len(),
            forall|i: int| from <= i < k ==> #[trigger] chars@[i] != ' ',
        decreases to - k,
    {
        k += 1;
    }
    proof {
        let s = chars@.subrange(from as int, to as int);
        assert forall|i: int| 0 <= i < k - from implies #[trigger] s[i] != ' ' by {
            assert(s[i] == chars@[i + from]);
        }
        lemma_gap(s, k - from);
    }
    k
}

/// The number that the characters from `from` up to `to` stand for.
fn number_in(chars: &Vec<char>, from: usize, to: usize) -> (res: Option<u8>)
    requires
        from <= to <= chars.len(),
    ensures
        res == number(chars@.subrange(from as int, to as int)),
{
    let ghost entry = chars@.subrange(from as int, to as int);
    let mut i: usize = from;
    if i < to && chars[i] == '+' {
        i += 1;
    }
    let first: usize = i;
    let ghost digits = chars@.subrange(first as int, to as int);
    proof {
        if first > from {
            assert(entry.first() == '+');
            assert(entry.drop_first() =~= digits);
        } else {
            assert(entry =~= digits);
            assert(entry.len() > 0 ==> entry.first() == chars@[from as int]);
        }
    }
    if i == to {
        return None;
    }
    let mut acc: u16 = 0;
    while i < to
        invariant
            from <= first <= i <= to <= chars.len(),
            entry == chars@.subrange(from as int, to as int),
            digits == chars@.subrange(first as int, to as int),
            digits == unsigned(entry),
            forall|j: int| 0 <= j < i - first ==> is_digit(#[trigger] digits[j]),
            acc == value(digits.take(i - first)),
            acc <= 255,
        decreases to - i,
    {
        let c = chars[i];
        if !(c >= '0' && c <= '9') {
            proof {
                assert(digits[i - first] == c);
                assert(!is_digit(digits[i - first]));
                assert(!all_digits(digits));
            }
            return None;
        }
        proof {
            let upto = digits.take(i - first + 1);
            assert(upto.drop_last() =~= digits.take(i - first));
            assert(upto.last() == c);
        }
        acc = acc * 10 + (c as u32 - '0' as u32) as u16;
        if acc > 255 {
            proof {
                lemma_value_grows(digits, i - first + 1);
            }
            return None;
        }
        i += 1;
    }
    proof {
        assert(digits.take(to - first) =~= digits);
    }
    Some(acc as u8)
}

/// Reads the move that `line` names. The row and the column are typed
/// counted from 1 and given back counted from 0.
pub fn parse_move(line: &str) -> (res: Result<(u8, u8), InputError>)
    ensures
        res == move_of(line@),
{
    let chars = characters(line);
    let (start, end) = trim(&chars);
    let ghost text = trimmed(chars@);
    let k = find_gap(&chars, start, end);
    if k >= end {
        return Err(InputError::BadInput);
    }
    proof {
        assert(text.skip(k - start + 1) =~= chars@.subrange(k + 1, end as int));
        assert(text.take(k - start) =~= chars@.subrange(start as int, k as int));
    }
    let second = find_gap(&chars, k + 1, end);
    if second < end {
        return Err(InputError::BadInput);
    }
    let row = match number_in(&chars, start, k) {
        Some(n) => n,
        None => {
            return Err(InputError::Row);
        },
    };
    let col = match number_in(&chars, k + 1, end) {
        Some(n) => n,
        None => {
            return Err(InputError::Col);
        },
    };
    Ok((zero_based(row), zero_based(col)))
}

/// Turns a number counted from 1 into one counted from 0.
fn zero_based(n: u8) -> (res: u8)
    ensures
        res == from_zero(n),
{
    if n == 0 {
        255
    } else {
        n - 1
    }
}

} // verus!
