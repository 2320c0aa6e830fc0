use vstd::prelude::*;
use crate::text::chars_of;
use crate::parsers::{LogEntry, EntryView};
use crate::analyzer::frequency::{counts_view, tally, count_key, lemma_tally_total};
use crate::analyzer::ranking::{is_top, top_entries, lemma_top_unique};
use crate::analyzer::statistics::entries_view;

verus! {

/// Whether `c` separates words: Unicode's White_Space property, as std reads it.
pub uninterp spec fn white_space(c: char) -> bool;

/// Relies on `char::is_whitespace`: whether `c` has Unicode's White_Space property.
#[verifier::external_body]
fn is_white(c: char) -> (r: bool)
    ensures
        r == white_space(c),
{
    c.is_whitespace()
}

/// Where the words of `s` lie: for each maximal run of characters that are not white space,
/// its start and end, in order.
pub open spec fn spans(s: Seq<char>) -> Seq<(int, int)>
    decreases s.len(),
{
    if s.len() == 0 {
        Seq::empty()
    } else {
        let n = s.len() as int;
        let before = spans(s.drop_last());
        if white_space(s[n - 1]) {
            before
        } else if n >= 2 && !white_space(s[n - 2]) {
            before.update(before.len() - 1, (before.last().0, n))
        } else {
            before.push((n - 1, n))
        }
    }
}

/// The whitespace-separated words of `s`, in order.
pub open spec fn words(s: Seq<char>) -> Seq<Seq<char>> {
    spans(s).map_values(|sp: (int, int)| s.subrange(sp.0, sp.1))
}

/// Words joined with single spaces.
pub open spec fn join_words(ws: Seq<Seq<char>>) -> Seq<char>
    decreases ws.len(),
{
    if ws.len() == 0 {
        Seq::empty()
    } else if ws.len() == 1 {
        ws[0]
    } else {
        join_words(ws.drop_last()) + seq![' '] + ws.last()
    }
}

/// The first word of a message, if it has one.
pub open spec fn first_word(m: Seq<char>) -> Option<Seq<char>> {
    if words(m).len() > 0 {
        Some(words(m)[0])
    } else {
        None
    }
}

/// The first three words of a message (or all, if fewer) joined by single spaces, unless
/// that is empty.
pub open spec fn word_prefix(m: Seq<char>) -> Option<Seq<char>> {
    let ws = words(m);
    let p = join_words(if ws.len() < 3 { ws } else { ws.take(3) });
    if p.len() > 0 {
        Some(p)
    } else {
        None
    }
}

/// Spans held in a vector, as integers.
pub open spec fn spans_view(v: Seq<(usize, usize)>) -> Seq<(int, int)> {
    v.map_values(|sp: (usize, usize)| (sp.0 as int, sp.1 as int))
}

proof fn lemma_spans_last(s: Seq<char>)
    requires
        s.len() > 0,
        !white_space(s.last()),
    ensures
        spans(s).len() > 0,
        spans(s).last().1 == s.len(),
    decreases s.len(),
{
    let n = s.len() as int;
    if n >= 2 && !white_space(s[n - 2]) {
        lemma_spans_last(s.drop_last());
    }
}

/// Finds the words of `cs`.
fn word_spans(cs: &Vec<char>) -> (r: Vec<(usize, usize)>)
    ensures
        spans_view(r@) == spans(cs@),
        forall|k: int| 0 <= k < r@.len() ==> (#[trigger] r@[k]).0 < r@[k].1 <= cs@.len(),
{
    let mut out: Vec<(usize, usize)> = Vec::new();
    let mut prev_white = true;
    let mut i: usize = 0;
    while i < cs.len()
        invariant
            i <= cs@.len(),
            spans_view(out@) == spans(cs@.take(i as int)),
            forall|k: int| 0 <= k < out@.len() ==> (#[trigger] out@[k]).0 < out@[k].1 <= i,
            i > 0 ==> prev_white == white_space(cs@[i - 1]),
            i == 0 ==> prev_white,
        decreases cs@.len() - i,
    {
        let ghost s = cs@.take(i + 1);
        assert(s.drop_last() =~= cs@.take(i as int));
        let c = cs[i];
        let w = is_white(c);
        if !w {
            if !prev_white {
                proof {
                    lemma_spans_last(cs@.take(i as int));
                }
                let last = out.len() - 1;
                let start = out[last].0;
                out.set(last, (start, i + 1));
                assert(spans_view(out@) =~= spans(s));
            } else {
                out.push((i, i + 1));
                assert(spans_view(out@) =~= spans(s));
            }
        }
        prev_white = w;
        i = i + 1;
    }
    assert(cs@.take(i as int) =~= cs@);
    out
}

/// The first word of `message` and its prefix of up to three words, where present.
pub fn leading_words(message: &str) -> (r: (Option<String>, Option<String>))
    ensures
        match r.0 {
            Some(w) => first_word(message@) == Some(w@),
            None => first_word(message@) is None,
        },
        match r.1 {
            Some(p) => word_prefix(message@) == Some(p@),
            None => word_prefix(message@) is None,
        },
{
    let cs = chars_of(message);
    let sp = word_spans(&cs);
    let ghost ws = words(message@);
    let m = if sp.len() < 3 {
        sp.len()
    } else {
        3
    };
    let mut prefix = String::new();
    let mut k: usize = 0;
    while k < m
        invariant
            m <= sp@.len(),
            m <= 3,
            spans_view(sp@) == spans(message@),
            ws == words(message@),
            forall|q: int| 0 <= q < sp@.len() ==> (#[trigger] sp@[q]).0 < sp@[q].1 <= message@.len(),
            k <= m,
            prefix@ == join_words(ws.take(k as int)),
        decreases m - k,
    {
        let w = message.substring_char(sp[k].0, sp[k].1);
        assert(w@ == ws[k as int]);
        if k > 0 {
            prefix.append(" ");
        }
        prefix.append(w);
        proof {
            let next = ws.take(k + 1);
            assert(next.drop_last() =~= ws.take(k as int));
            if k == 0 {
                assert(prefix@ =~= join_words(next));
            } else {
                reveal_strlit(" ");
                assert(prefix@ =~= join_words(next));
            }
        }
        k = k + 1;
    }
    assert(ws.len() == sp@.len());
    if sp.len() < 3 {
        assert(ws.take(m as int) =~= ws);
    }
    let first = if sp.len() > 0 {
        Some(message.substring_char(sp[0].0, sp[0].1).to_owned())
    } else {
        None
    };
    let pre = if prefix.as_str().is_empty() {
        None
    } else {
        Some(prefix)
    };
    (first, pre)
}

/// How many of the most frequent words and prefixes a summary keeps.
pub const TOP_COUNT: usize = 5;

/// The recurring words and prefixes of a sequence of messages.
pub struct PatternAnalysis {
    /// The most frequent first words, with their counts.
    pub top_patterns: Vec<(String, usize)>,
    /// The most frequent prefixes of up to three words, with their counts.
    pub top_prefixes: Vec<(String, usize)>,
}

/// The first word of each message that has one, in order.
pub open spec fn first_words(es: Seq<EntryView>) -> Seq<Seq<char>>
    decreases es.len(),
{
    if es.len() == 0 {
        Seq::empty()
    } else {
        match first_word(es.last().message) {
            Some(w) => first_words(es.drop_last()).push(w),
            None => first_words(es.drop_last()),
        }
    }
}

/// The word prefix of each message that has one, in order.
pub open spec fn prefixes(es: Seq<EntryView>) -> Seq<Seq<char>>
    decreases es.len(),
{
    if es.len() == 0 {
        Seq::empty()
    } else {
        match word_prefix(es.last().message) {
            Some(p) => prefixes(es.drop_last()).push(p),
            None => prefixes(es.drop_last()),
        }
    }
}

/// `pa` summarizes `es`: the `TOP_COUNT` most frequent first words and prefixes, most
/// frequent first, ties in order of first appearance.
pub open spec fn summarizes(es: Seq<EntryView>, pa: PatternAnalysis) -> bool {
    &&& is_top(tally(first_words(es)), TOP_COUNT as nat, counts_view(pa.top_patterns@))
    &&& is_top(tally(prefixes(es)), TOP_COUNT as nat, counts_view(pa.top_prefixes@))
}

proof fn lemma_collected_len(es: Seq<EntryView>)
    ensures
        first_words(es).len() <= es.len(),
        prefixes(es).len() <= es.len(),
    decreases es.len(),
{
    if es.len() > 0 {
        lemma_collected_len(es.drop_last());
    }
}

/// A summary is a function of the entries and their order: two summaries of the same
/// entries hold the same lists, in the same order.
pub proof fn lemma_summary_deterministic(es: Seq<EntryView>, a: PatternAnalysis, b: PatternAnalysis)
    requires
        summarizes(es, a),
        summarizes(es, b),
    ensures
        counts_view(a.top_patterns@) == counts_view(b.top_patterns@),
        counts_view(a.top_prefixes@) == counts_view(b.top_prefixes@),
{
    lemma_top_unique(tally(first_words(es)), TOP_COUNT as nat, counts_view(a.top_patterns@), counts_view(b.top_patterns@));
    lemma_top_unique(tally(prefixes(es)), TOP_COUNT as nat, counts_view(a.top_prefixes@), counts_view(b.top_prefixes@));
}

/// Finds the most frequent first words and word prefixes of the messages.
pub fn summarize(entries: &[LogEntry]) -> (pa: PatternAnalysis)
    ensures
        summarizes(entries_view(entries@), pa),
{
    let ghost ev = entries_view(entries@);
    let mut words: Vec<(String, usize)> = Vec::new();
    let mut pres: Vec<(String, usize)> = Vec::new();
    let mut i: usize = 0;
    while i < entries.len()
        invariant
            i <= entries@.len(),
            ev == entries_view(entries@),
            counts_view(words@) == tally(first_words(ev.take(i as int))),
            counts_view(pres@) == tally(prefixes(ev.take(i as int))),
        decreases entries@.len() - i,
    {
        let ghost before = ev.take(i as int);
        assert(ev.take(i + 1).drop_last() =~= before);
        assert(ev.take(i + 1).last() == entries@[i as int]@);
        proof {
            lemma_collected_len(before);
            lemma_tally_total(first_words(before));
            lemma_tally_total(prefixes(before));
        }
        let (first, prefix) = leading_words(entries[i].message.as_str());
        match first {
            Some(w) => {
                assert(first_words(before).push(w@).drop_last() =~= first_words(before));
                count_key(&mut words, &w);
            },
            None => {},
        }
        match prefix {
            Some(p) => {
                assert(prefixes(before).push(p@).drop_last() =~= prefixes(before));
                count_key(&mut pres, &p);
            },
            None => {},
        }
        i = i + 1;
    }
    assert(ev.take(i as int) =~= ev);
    PatternAnalysis { top_patterns: top_entries(&words, TOP_COUNT), top_prefixes: top_entries(&pres, TOP_COUNT) }
}

} // verus!
