use vstd::prelude::*;
use vstd::relations::sorted_by;
use crate::parsers::{LogEntry, EntryView};
use crate::utils::time::Timestamp;
use crate::analyzer::frequency::{counts_view, tally};
use crate::analyzer::statistics::{
    compute_statistics, entries_view, levels, instants, least, greatest, gap_sum, MeanInterval,
    lemma_gap_sum_telescopes,
};
use crate::analyzer::patterns::{PatternAnalysis, summarize, summarizes};

verus! {

/// Analyses a sequence of log entries as a whole.
pub struct StandardAnalyzer;

/// What an analysis finds.
pub struct AnalysisResults {
    pub total_entries: usize,
    /// Each distinct level with its number of entries, in first-seen order.
    pub level_counts: Vec<(String, usize)>,
    /// Timing figures, present when at least two entries have a timestamp.
    pub time_metrics: Option<TimeMetrics>,
    pub pattern_analysis: PatternAnalysis,
}

/// Timing figures over the timestamped entries, taken in chronological order.
#[derive(Clone, Copy, Debug)]
pub struct TimeMetrics {
    pub start_time: Timestamp,
    pub end_time: Timestamp,
    pub total_duration_seconds: u64,
    pub avg_time_diff: MeanInterval,
    pub max_time_diff_seconds: u64,
    pub min_time_diff_seconds: u64,
}

/// Instants held in a vector, as integers.
pub open spec fn as_ints(v: Seq<i64>) -> Seq<int> {
    v.map_values(|x: i64| x as int)
}

/// The gaps between consecutive elements of a non-empty sequence.
pub open spec fn gaps(s: Seq<int>) -> Seq<int> {
    Seq::new((s.len() - 1) as nat, |i: int| s[i + 1] - s[i])
}

/// What the timing figures report of a sequence of instants.
pub open spec fn metrics_match(m: Option<TimeMetrics>, ts: Seq<int>) -> bool {
    let s = ts.sort();
    match m {
        Some(m) => {
            &&& ts.len() >= 2
            &&& m.start_time.seconds == s[0]
            &&& m.end_time.seconds == s.last()
            &&& m.total_duration_seconds == s.last() - s[0]
            &&& m.avg_time_diff.total_seconds == gap_sum(s)
            &&& m.avg_time_diff.intervals == ts.len() - 1
            &&& m.max_time_diff_seconds == greatest(gaps(s))
            &&& m.min_time_diff_seconds == least(gaps(s))
        },
        None => ts.len() < 2,
    }
}

/// Relies on `slice::sort_unstable` for `i64`: the same values, in ascending order.
#[verifier::external_body]
fn sort_ascending(v: &mut Vec<i64>)
    ensures
        final(v)@.len() == old(v)@.len(),
        as_ints(final(v)@) == as_ints(old(v)@).sort(),
{
    v.sort_unstable();
}

/// Gathers the instants of the entries that have one, in input order.
fn instants_of(entries: &[LogEntry]) -> (r: Vec<i64>)
    ensures
        as_ints(r@) == instants(entries_view(entries@)),
{
    let ghost ev = entries_view(entries@);
    let mut out: Vec<i64> = Vec::new();
    let mut i: usize = 0;
    while i < entries.len()
        invariant
            i <= entries@.len(),
            ev == entries_view(entries@),
            as_ints(out@) == instants(ev.take(i as int)),
        decreases entries@.len() - i,
    {
        assert(ev.take(i + 1).drop_last() =~= ev.take(i as int));
        assert(ev.take(i + 1).last() == entries@[i as int]@);
        match entries[i].timestamp {
            Some(t) => {
                out.push(t.seconds);
                assert(as_ints(out@) =~= instants(ev.take(i as int)).push(t.seconds as int));
            },
            None => {},
        }
        i = i + 1;
    }
    assert(ev.take(i as int) =~= ev);
    out
}

/// Measures the instants of the entries once put in chronological order.
fn time_metrics(entries: &[LogEntry]) -> (m: Option<TimeMetrics>)
    ensures
        metrics_match(m, instants(entries_view(entries@))),
{
    let mut times = instants_of(entries);
    let ghost ts = instants(entries_view(entries@));
    if times.len() < 2 {
        return None;
    }
    sort_ascending(&mut times);
    let ghost s = ts.sort();
    proof {
        ts.lemma_sort_ensures();
        lemma_gap_sum_telescopes(s);
    }
    let n = times.len();
    assert(as_ints(times@) == s);
    assert(forall|a: int, b: int| 0 <= a < b < n ==> times@[a] <= times@[b]) by {
        assert forall|a: int, b: int| 0 <= a < b < n implies times@[a] <= times@[b] by {
            assert(s[a] == times@[a] as int && s[b] == times@[b] as int);
            let leq = |x: int, y: int| x <= y;
            assert(sorted_by(s, leq));
            assert(leq(s[a], s[b]));
        }
    }
    let ghost g = gaps(s);
    let first_gap = (times[1] as i128 - times[0] as i128) as u64;
    let mut lo = first_gap;
    let mut hi = first_gap;
    assert(g.take(1) =~= seq![g[0]]);
    let mut i: usize = 2;
    while i < n
        invariant
            2 <= i <= n,
            n == times@.len(),
            as_ints(times@) == s,
            g == gaps(s),
            forall|a: int, b: int| 0 <= a < b < n ==> times@[a] <= times@[b],
            lo == least(g.take(i - 1)),
            hi == greatest(g.take(i - 1)),
        decreases n - i,
    {
        let d = (times[i] as i128 - times[i - 1] as i128) as u64;
        assert(g.take(i as int).drop_last() =~= g.take(i - 1));
        assert(g.take(i as int).last() == d);
        if d < lo {
            lo = d;
        }
        if d > hi {
            hi = d;
        }
        i = i + 1;
    }
    assert(g.take(n - 1) =~= g);
    let start = times[0];
    let end = times[n - 1];
    let duration = (end as i128 - start as i128) as u64;
    Some(TimeMetrics {
        start_time: Timestamp { seconds: start },
        end_time: Timestamp { seconds: end },
        total_duration_seconds: duration,
        avg_time_diff: MeanInterval { total_seconds: duration, intervals: n - 1 },
        max_time_diff_seconds: hi,
        min_time_diff_seconds: lo,
    })
}

/// What an analysis reports of entries `es`.
pub open spec fn analysis_matches(r: AnalysisResults, es: Seq<EntryView>) -> bool {
    &&& r.total_entries == es.len()
    &&& counts_view(r.level_counts@) == tally(levels(es))
    &&& metrics_match(r.time_metrics, instants(es))
    &&& summarizes(es, r.pattern_analysis)
}

impl StandardAnalyzer {
    /// Counts levels, measures timing and finds recurring message patterns.
    pub fn analyze(entries: &[LogEntry]) -> (r: AnalysisResults)
        ensures
            analysis_matches(r, entries_view(entries@)),
    {
        let stats = compute_statistics(entries);
        AnalysisResults {
            total_entries: stats.total_entries,
            level_counts: stats.level_counts,
            time_metrics: time_metrics(entries),
            pattern_analysis: summarize(entries),
        }
    }
}

} // verus!
