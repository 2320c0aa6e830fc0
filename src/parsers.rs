pub mod standard;
pub mod json;

use vstd::prelude::*;
use crate::utils::time::{Timestamp, seconds_of};
use crate::parsers::standard::{parse_line, standard_entry};
use crate::parsers::json::{parse_json_line, json_document, json_entry};

verus! {

/// One log line in normalized form.
#[derive(Clone, Debug)]
pub struct LogEntry {
    pub timestamp: Option<Timestamp>,
    pub level: String,
    pub message: String,
    pub source: Option<String>,
}

/// A log entry as mathematical values.
pub ghost struct EntryView {
    pub timestamp: Option<int>,
    pub level: Seq<char>,
    pub message: Seq<char>,
    pub source: Option<Seq<char>>,
}

impl View for LogEntry {
    type V = EntryView;

    open spec fn view(&self) -> EntryView {
        EntryView {
            timestamp: seconds_of(self.timestamp),
            level: self.level@,
            message: self.message@,
            source: match self.source {
                Some(s) => Some(s@),
                None => None,
            },
        }
    }
}

/// A line format that the dispatcher knows.
#[derive(Clone, Copy, Debug, PartialEq, Eq, Structural)]
pub enum LineFormat {
    /// `YYYY-MM-DD HH:MM:SS [LEVEL] message`
    Standard,
    /// One JSON object per line.
    Json,
}

/// The formats tried on each line, in order.
pub const FORMATS: [LineFormat; 2] = [LineFormat::Standard, LineFormat::Json];

/// The entry that `line` stands for in `format`, or none.
pub open spec fn format_entry(format: LineFormat, line: Seq<char>) -> Option<EntryView> {
    match format {
        LineFormat::Standard => standard_entry(line),
        LineFormat::Json => match json_document(line) {
            Some(f) => Some(json_entry(f)),
            None => None,
        },
    }
}

/// The entry from the first of `formats` that reads `line`, or none.
pub open spec fn dispatch(formats: Seq<LineFormat>, line: Seq<char>) -> Option<EntryView>
    decreases formats.len(),
{
    if formats.len() == 0 {
        None
    } else {
        match format_entry(formats[0], line) {
            Some(e) => Some(e),
            None => dispatch(formats.drop_first(), line),
        }
    }
}

/// The entries of the lines that some format reads, in order.
pub open spec fn parsed_entries(lines: Seq<Seq<char>>) -> Seq<EntryView>
    decreases lines.len(),
{
    if lines.len() == 0 {
        Seq::empty()
    } else {
        match dispatch(FORMATS@, lines.last()) {
            Some(e) => parsed_entries(lines.drop_last()).push(e),
            None => parsed_entries(lines.drop_last()),
        }
    }
}

/// The number of lines that no format reads.
pub open spec fn skipped_lines(lines: Seq<Seq<char>>) -> nat
    decreases lines.len(),
{
    if lines.len() == 0 {
        0
    } else {
        skipped_lines(lines.drop_last()) + if dispatch(FORMATS@, lines.last()) is None {
            1nat
        } else {
            0nat
        }
    }
}

/// Texts held in a vector, as character sequences.
pub open spec fn lines_view(v: Seq<String>) -> Seq<Seq<char>> {
    v.map_values(|s: String| s@)
}

impl LineFormat {
    /// Reads `line` in this format.
    pub fn parse(&self, line: &str) -> (r: Option<LogEntry>)
        ensures
            match format_entry(*self, line@) {
                Some(v) => r matches Some(e) && e@ == v,
                None => r is None,
            },
    {
        match self {
            LineFormat::Standard => parse_line(line),
            LineFormat::Json => parse_json_line(line),
        }
    }
}

/// Reads `line` with the first of `formats` that accepts it.
pub fn parse_with(formats: &[LineFormat], line: &str) -> (r: Option<LogEntry>)
    ensures
        match dispatch(formats@, line@) {
            Some(v) => r matches Some(e) && e@ == v,
            None => r is None,
        },
{
    let mut i: usize = 0;
    assert(formats@.subrange(0, formats@.len() as int) =~= formats@);
    while i < formats.len()
        invariant
            i <= formats@.len(),
            dispatch(formats@, line@) == dispatch(formats@.subrange(i as int, formats@.len() as int), line@),
        decreases formats@.len() - i,
    {
        let ghost rest = formats@.subrange(i as int, formats@.len() as int);
        assert(rest.drop_first() =~= formats@.subrange(i + 1, formats@.len() as int));
        assert(rest[0] == formats@[i as int]);
        match formats[i].parse(line) {
            Some(e) => return Some(e),
            None => {},
        }
        i = i + 1;
    }
    None
}

/// Reads one line, trying the standard format first and then JSON.
pub fn parse_entry(line: &str) -> (r: Option<LogEntry>)
    ensures
        match dispatch(FORMATS@, line@) {
            Some(v) => r matches Some(e) && e@ == v,
            None => r is None,
        },
{
    parse_with(&FORMATS, line)
}

/// The entries read from a sequence of lines, with the number of lines that no format read.
pub struct ParsedLines {
    pub entries: Vec<LogEntry>,
    pub skipped: usize,
}

/// Reads each line with the first format that accepts it; lines that none accepts are
/// counted and left out.
pub fn parse_lines(lines: &Vec<String>) -> (r: ParsedLines)
    ensures
        r.entries@.map_values(|e: LogEntry| e@) == parsed_entries(lines_view(lines@)),
        r.skipped == skipped_lines(lines_view(lines@)),
{
    let ghost lv = lines_view(lines@);
    let mut entries: Vec<LogEntry> = Vec::new();
    let mut skipped: usize = 0;
    let mut i: usize = 0;
    while i < lines.len()
        invariant
            i <= lines@.len(),
            lv == lines_view(lines@),
            entries@.map_values(|e: LogEntry| e@) == parsed_entries(lv.take(i as int)),
            skipped == skipped_lines(lv.take(i as int)),
            skipped <= i,
        decreases lines@.len() - i,
    {
        assert(lv.take(i + 1).drop_last() =~= lv.take(i as int));
        assert(lv.take(i + 1).last() == lines@[i as int]@);
        match parse_entry(lines[i].as_str()) {
            Some(e) => {
                entries.push(e);
                assert(entries@.map_values(|e: LogEntry| e@) =~= parsed_entries(lv.take(i as int)).push(e@));
            },
            None => {
                skipped = skipped + 1;
            },
        }
        i = i + 1;
    }
    assert(lv.take(i as int) =~= lv);
    ParsedLines { entries, skipped }
}

} // verus!
