//! The property report of a single unit: newline-separated `Key=Value`
//! lines.

use crate::systemd::{ServiceStatus, StatusRecord};
use crate::text::chars_of;
use vstd::prelude::*;
use vstd::slice::slice_subrange;

verus! {

/// The length of the first line of a text: the position of its first
/// newline, or its whole length when it holds none.
pub open spec fn line_end(text: Seq<char>) -> int
    decreases text.len(),
{
    if text.len() == 0 || text[0] == '\n' {
        0
    } else {
        1 + line_end(text.skip(1))
    }
}

/// A line without the carriage return that ends it, if one does.
pub open spec fn without_return(line: Seq<char>) -> Seq<char> {
    if line.len() > 0 && line.last() == '\r' {
        line.drop_last()
    } else {
        line
    }
}

/// The lines of a text. A line ends at a newline, which is not part of
/// it, nor is a carriage return just before the newline; what follows the
/// last newline is a line only if it is not empty.
pub open spec fn lines(text: Seq<char>) -> Seq<Seq<char>>
    decreases text.len(),
{
    if text.len() == 0 {
        Seq::empty()
    } else {
        let n = line_end(text);
        if 0 <= n < text.len() {
            seq![without_return(text.take(n))] + lines(text.skip(n + 1))
        } else {
            seq![text]
        }
    }
}

/// A line after every leading repetition of `key` is removed.
pub open spec fn strip_all(line: Seq<char>, key: Seq<char>) -> Seq<char>
    decreases line.len(),
{
    if key.len() > 0 && key.is_prefix_of(line) {
        strip_all(line.skip(key.len() as int), key)
    } else {
        line
    }
}

/// The value of the last line that starts with `key`.
pub open spec fn last_value(lines: Seq<Seq<char>>, key: Seq<char>) -> Option<Seq<char>>
    decreases lines.len(),
{
    if lines.len() == 0 {
        None
    } else if key.is_prefix_of(lines.last()) {
        Some(strip_all(lines.last(), key))
    } else {
        last_value(lines.drop_last(), key)
    }
}

/// Whether a character is a decimal digit.
pub open spec fn is_digit(c: char) -> bool {
    '0' <= c && c <= '9'
}

/// The number that a sequence of decimal digits writes.
pub open spec fn decimal_value(digits: Seq<char>) -> nat
    decreases digits.len(),
{
    if digits.len() == 0 {
        0
    } else {
        (decimal_value(digits.drop_last()) * 10 + (digits.last() as u32 - '0' as u32)) as nat
    }
}

/// Whether every character is a decimal digit.
pub open spec fn all_digits(s: Seq<char>) -> bool {
    forall|i: int| 0 <= i < s.len() ==> is_digit(#[trigger] s[i])
}

/// A text without the `+` that leads it, if one does.
pub open spec fn without_plus(s: Seq<char>) -> Seq<char> {
    if s.len() > 0 && s[0] == '+' {
        s.skip(1)
    } else {
        s
    }
}

/// The unsigned 32-bit number that a text writes: an optional `+`, then
/// one or more decimal digits whose value fits.
pub open spec fn parse_u32(s: Seq<char>) -> Option<u32> {
    let digits = without_plus(s);
    if digits.len() > 0 && all_digits(digits) && decimal_value(digits) <= u32::MAX {
        Some(decimal_value(digits) as u32)
    } else {
        None
    }
}

/// The process identifier of the last line that starts with `MainPID=`
/// and holds a number.
pub open spec fn last_pid(lines: Seq<Seq<char>>) -> Option<u32>
    decreases lines.len(),
{
    if lines.len() == 0 {
        None
    } else if "MainPID="@.is_prefix_of(lines.last()) && parse_u32(
        strip_all(lines.last(), "MainPID="@),
    ) is Some {
        parse_u32(strip_all(lines.last(), "MainPID="@))
    } else {
        last_pid(lines.drop_last())
    }
}

/// Whether two runs of characters are the same.
fn same_chars(a: &[char], b: &[char]) -> (r: bool)
    ensures
        r == (a@ == b@),
{
    if a.len() != b.len() {
        return false;
    }
    let mut i: usize = 0;
    while i < a.len()
        invariant
            i <= a.len(),
            a.len() == b.len(),
            forall|j: int| 0 <= j < i ==> a@[j] == b@[j],
        decreases a.len() - i,
    {
        if a[i] != b[i] {
            return false;
        }
        i += 1;
    }
    assert(a@ =~= b@);
    true
}

/// Whether `line` starts with `key`.
fn starts_with(line: &[char], key: &[char]) -> (r: bool)
    ensures
        r == key@.is_prefix_of(line@),
{
    if key.len() > line.len() {
        return false;
    }
    same_chars(slice_subrange(line, 0, key.len()), key)
}

/// Removes every leading repetition of `key` from `line`.
fn strip_prefixes<'a>(line: &'a [char], key: &[char]) -> (r: &'a [char])
    requires
        key@.len() > 0,
    ensures
        r@ == strip_all(line@, key@),
{
    let mut rest = line;
    while starts_with(rest, key)
        invariant
            key@.len() > 0,
            strip_all(line@, key@) == strip_all(rest@, key@),
        decreases rest@.len(),
    {
        rest = slice_subrange(rest, key.len(), rest.len());
    }
    rest
}

/// Among digits, a prefix writes a number no larger than the whole.
proof fn lemma_decimal_prefix(digits: Seq<char>, k: int)
    requires
        0 <= k <= digits.len(),
        all_digits(digits),
    ensures
        decimal_value(digits.take(k)) <= decimal_value(digits),
    decreases digits.len() - k,
{
    if k == digits.len() {
        assert(digits.take(k) == digits);
    } else {
        lemma_decimal_prefix(digits, k + 1);
        assert(digits.take(k + 1).drop_last() == digits.take(k));
    }
}

/// Reads an unsigned 32-bit number.
fn parse_number(s: &[char]) -> (r: Option<u32>)
    ensures
        r == parse_u32(s@),
{
    let digits = if s.len() > 0 && s[0] == '+' {
        slice_subrange(s, 1, s.len())
    } else {
        s
    };
    if digits.len() == 0 {
        return None;
    }
    let mut value: u64 = 0;
    let mut i: usize = 0;
    while i < digits.len()
        invariant
            i <= digits.len(),
            forall|j: int| 0 <= j < i ==> is_digit(#[trigger] digits@[j]),
            value == decimal_value(digits@.take(i as int)),
            value <= u32::MAX,
            digits@.len() > 0,
            digits@ == without_plus(s@),
        decreases digits.len() - i,
    {
        let c: char = digits[i];
        if c < '0' || c > '9' {
            return None;
        }
        let code: u32 = c as u32;
        assert(digits@.take(i as int + 1).drop_last() == digits@.take(i as int));
        let next: u64 = value * 10 + (code - 48) as u64;
        if next > 0xffff_ffff {
            proof {
                if all_digits(digits@) {
                    lemma_decimal_prefix(digits@, i as int + 1);
                }
            }
            return None;
        }
        value = next;
        i += 1;
    }
    assert(digits@.take(i as int) == digits@);
    Some(value as u32)
}

/// The state that a property report gives of the unit `name`: active and
/// running as the last `ActiveState=` and `SubState=` lines say, with the
/// process identifier of the last `MainPID=` line that holds a number.
pub open spec fn status_of(name: Seq<char>, report: Seq<char>) -> StatusRecord {
    StatusRecord {
        name,
        active: last_value(lines(report), "ActiveState="@) == Some("active"@),
        running: last_value(lines(report), "SubState="@) == Some("running"@),
        pid: last_pid(lines(report)),
    }
}

/// A text whose first newline stands at `n`, or that has length `n` and
/// holds none, has a first line of length `n`.
proof fn lemma_line_end(text: Seq<char>, n: int)
    requires
        0 <= n <= text.len(),
        forall|k: int| 0 <= k < n ==> text[k] != '\n',
        n < text.len() ==> text[n] == '\n',
    ensures
        line_end(text) == n,
    decreases n,
{
    if n > 0 {
        lemma_line_end(text.skip(1), n - 1);
    }
}

/// Reads the property report of the unit `service_name`.
pub fn parse_status(service_name: &str, report: &str) -> (r: ServiceStatus)
    ensures
        r@ == status_of(service_name@, report@),
{
    let chars = chars_of(report);
    let active_key = chars_of("ActiveState=");
    let sub_key = chars_of("SubState=");
    let pid_key = chars_of("MainPID=");
    let active_word = chars_of("active");
    let running_word = chars_of("running");
    proof {
        reveal_strlit("ActiveState=");
        reveal_strlit("SubState=");
        reveal_strlit("MainPID=");
    }
    let mut active = false;
    let mut running = false;
    let mut pid: Option<u32> = None;
    let ghost mut done: Seq<Seq<char>> = Seq::empty();
    let mut pos: usize = 0;
    assert(chars@.skip(0) == chars@);
    while pos < chars.len()
        invariant
            pos <= chars.len(),
            active_key@ == "ActiveState="@,
            sub_key@ == "SubState="@,
            pid_key@ == "MainPID="@,
            active_word@ == "active"@,
            running_word@ == "running"@,
            active_key@.len() > 0,
            sub_key@.len() > 0,
            pid_key@.len() > 0,
            lines(chars@) == done + lines(chars@.skip(pos as int)),
            active == (last_value(done, "ActiveState="@) == Some("active"@)),
            running == (last_value(done, "SubState="@) == Some("running"@)),
            pid == last_pid(done),
        decreases chars.len() - pos,
    {
        let mut end: usize = pos;
        while end < chars.len() && chars[end] != '\n'
            invariant
                pos <= end <= chars.len(),
                forall|k: int| pos <= k < end ==> chars@[k] != '\n',
            decreases chars.len() - end,
        {
            end += 1;
        }
        let ghost rest = chars@.skip(pos as int);
        proof {
            lemma_line_end(rest, end - pos);
        }
        let terminated = end < chars.len();
        let mut stop: usize = end;
        if terminated && stop > pos && chars[stop - 1] == '\r' {
            stop -= 1;
        }
        let line = slice_subrange(chars.as_slice(), pos, stop);
        let next: usize = if terminated {
            end + 1
        } else {
            end
        };
        proof {
            if terminated {
                assert(line@ == without_return(rest.take(end - pos)));
                assert(rest.skip(end - pos + 1) == chars@.skip(next as int));
            }
            assert(done.push(line@).drop_last() == done);
        }
        if starts_with(line, active_key.as_slice()) {
            active = same_chars(strip_prefixes(line, active_key.as_slice()), active_word.as_slice());
        }
        if starts_with(line, sub_key.as_slice()) {
            running = same_chars(strip_prefixes(line, sub_key.as_slice()), running_word.as_slice());
        }
        if starts_with(line, pid_key.as_slice()) {
            if let Some(number) = parse_number(strip_prefixes(line, pid_key.as_slice())) {
                pid = Some(number);
            }
        }
        proof {
            done = done.push(line@);
        }
        pos = next;
    }
    ServiceStatus { name: service_name.to_owned(), active, running, pid }
}

} // verus!
