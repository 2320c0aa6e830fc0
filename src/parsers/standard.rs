use vstd::prelude::*;
use crate::parsers::{LogEntry, EntryView};
use crate::text::{find_from, chars_of, find_char, lemma_find_from_first, lemma_find_from_found};
use crate::utils::time::{datetime_seconds, parse_timestamp, TIMESTAMP_FORMAT};

verus! {

/// Where the parts of a standard line `DATE TIME [LEVEL] MESSAGE` sit: the end of the
/// timestamp text (the second space), the `[` after it, and the first `]` after that.
pub open spec fn standard_layout(line: Seq<char>) -> Option<(int, int, int)> {
    match find_from(line, ' ', 0) {
        None => None,
        Some(i) => match find_from(line, ' ', i + 1) {
            None => None,
            Some(j) => match find_from(line, '[', j + 1) {
                None => None,
                Some(a) => match find_from(line, ']', a + 1) {
                    None => None,
                    Some(b) => Some((j, a, b)),
                },
            },
        },
    }
}

/// The message of a standard line whose level closes at `b`: what follows the `]` and one
/// separating character, or nothing.
pub open spec fn message_after(line: Seq<char>, b: int) -> Seq<char> {
    if b + 2 <= line.len() {
        line.subrange(b + 2, line.len() as int)
    } else {
        Seq::empty()
    }
}

/// The entry that a standard line stands for, or none.
pub open spec fn standard_entry(line: Seq<char>) -> Option<EntryView> {
    match standard_layout(line) {
        None => None,
        Some((j, a, b)) => Some(
            EntryView {
                timestamp: datetime_seconds(line.take(j), TIMESTAMP_FORMAT@),
                level: line.subrange(a + 1, b),
                message: message_after(line, b),
                source: None,
            },
        ),
    }
}

/// A well-formed line `DATE TIME [LEVEL] MESSAGE`, where the date and the time hold no space
/// and the level no `]`, reads back as exactly that level and that message, with the
/// timestamp that `DATE TIME` spells.
pub proof fn lemma_standard_round_trip(
    date: Seq<char>,
    time: Seq<char>,
    level: Seq<char>,
    message: Seq<char>,
)
    requires
        !date.contains(' '),
        !time.contains(' '),
        !level.contains(']'),
    ensures
        standard_entry(date + seq![' '] + time + seq![' ', '['] + level + seq![']', ' '] + message)
            == Some(
            EntryView {
                timestamp: datetime_seconds(date + seq![' '] + time, TIMESTAMP_FORMAT@),
                level,
                message,
                source: None,
            },
        ),
{
    let line = date + seq![' '] + time + seq![' ', '['] + level + seq![']', ' '] + message;
    let i = date.len() as int;
    let j = i + 1 + time.len();
    let a = j + 1;
    let b = a + 1 + level.len();
    assert forall|m: int| 0 <= m < i implies line[m] != ' ' by {
        assert(line[m] == date[m]);
    }
    lemma_find_from_first(line, ' ', 0, i);
    assert forall|m: int| i + 1 <= m < j implies line[m] != ' ' by {
        assert(line[m] == time[m - i - 1]);
    }
    lemma_find_from_first(line, ' ', i + 1, j);
    lemma_find_from_first(line, '[', j + 1, a);
    assert forall|m: int| a + 1 <= m < b implies line[m] != ']' by {
        assert(line[m] == level[m - a - 1]);
    }
    lemma_find_from_first(line, ']', a + 1, b);
    assert(line.take(j) =~= date + seq![' '] + time);
    assert(line.subrange(a + 1, b) =~= level);
    assert(line.subrange(b + 2, line.len() as int) =~= message);
}

/// A line without a `[`, or without a `]`, is not a standard line.
pub proof fn lemma_standard_needs_brackets(line: Seq<char>)
    requires
        !line.contains('[') || !line.contains(']'),
    ensures
        standard_entry(line) is None,
{
    if let Some(i) = find_from(line, ' ', 0) {
        if let Some(j) = find_from(line, ' ', i + 1) {
            lemma_find_from_found(line, '[', j + 1);
            if let Some(a) = find_from(line, '[', j + 1) {
                lemma_find_from_found(line, ']', a + 1);
                if let Some(b) = find_from(line, ']', a + 1) {
                    assert(line[a] == '[' && line[b] == ']');
                }
            }
        }
    }
}

/// Parses a line of the form `YYYY-MM-DD HH:MM:SS [LEVEL] message`. A timestamp that does
/// not read leaves the entry without one; a missing `[` or `]` rejects the line.
pub fn parse_line(line: &str) -> (r: Option<LogEntry>)
    ensures
        match r {
            Some(e) => standard_entry(line@) == Some(e@),
            None => standard_entry(line@) is None,
        },
{
    let cs = chars_of(line);
    let n = cs.len();
    let i = match find_char(&cs, ' ', 0) {
        Some(i) => i,
        None => return None,
    };
    let j = match find_char(&cs, ' ', i + 1) {
        Some(j) => j,
        None => return None,
    };
    let a = match find_char(&cs, '[', j + 1) {
        Some(a) => a,
        None => return None,
    };
    let b = match find_char(&cs, ']', a + 1) {
        Some(b) => b,
        None => return None,
    };
    let timestamp = parse_timestamp(line.substring_char(0, j), TIMESTAMP_FORMAT);
    let level = line.substring_char(a + 1, b).to_owned();
    let message = if n - b >= 2 {
        line.substring_char(b + 2, n).to_owned()
    } else {
        String::new()
    };
    let e = LogEntry { timestamp, level, message, source: None };
    assert(line@.take(j as int) == line@.subrange(0, j as int));
    Some(e)
}

} // verus!
