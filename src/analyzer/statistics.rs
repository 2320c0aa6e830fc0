use vstd::prelude::*;
use crate::parsers::{LogEntry, EntryView};
use crate::utils::time::Timestamp;
use crate::analyzer::frequency::{
    counts_view, tally, total, count_key, lemma_tally_total, key_index_from,
};
use crate::text::text_is;

verus! {

/// Aggregate figures over a sequence of log entries.
pub struct LogStatistics {
    pub total_entries: usize,
    /// Each distinct level with its number of entries, in first-seen order.
    pub level_counts: Vec<(String, usize)>,
    /// The earliest and latest instants, present when some entry has a timestamp.
    pub time_span: Option<TimeSpan>,
    /// The mean gap between chronologically consecutive instants, present when at least two
    /// entries have a timestamp.
    pub average_time_diff: Option<MeanInterval>,
}

/// The instants that bound a set of entries. The span runs from the earliest instant to the
/// latest whatever the order of the input, so its duration is never negative.
#[derive(Clone, Copy, Debug)]
pub struct TimeSpan {
    pub first_entry: Timestamp,
    pub last_entry: Timestamp,
    pub duration_seconds: u64,
}

/// A mean gap in seconds, held exactly as `total_seconds / intervals`.
#[derive(Clone, Copy, Debug)]
pub struct MeanInterval {
    pub total_seconds: u64,
    pub intervals: usize,
}

/// A sequence of entries as mathematical values.
pub open spec fn entries_view(es: Seq<LogEntry>) -> Seq<EntryView> {
    es.map_values(|e: LogEntry| e@)
}

/// The level of each entry, in order.
pub open spec fn levels(es: Seq<EntryView>) -> Seq<Seq<char>> {
    es.map_values(|e: EntryView| e.level)
}

/// The instants of the entries that carry one, in input order.
pub open spec fn instants(es: Seq<EntryView>) -> Seq<int>
    decreases es.len(),
{
    if es.len() == 0 {
        Seq::empty()
    } else {
        let before = instants(es.drop_last());
        match es.last().timestamp {
            Some(t) => before.push(t),
            None => before,
        }
    }
}

/// The smallest element of a non-empty sequence.
pub open spec fn least(s: Seq<int>) -> int
    decreases s.len(),
{
    if s.len() <= 1 {
        s[0]
    } else if s.last() < least(s.drop_last()) {
        s.last()
    } else {
        least(s.drop_last())
    }
}

/// The largest element of a non-empty sequence.
pub open spec fn greatest(s: Seq<int>) -> int
    decreases s.len(),
{
    if s.len() <= 1 {
        s[0]
    } else if s.last() > greatest(s.drop_last()) {
        s.last()
    } else {
        greatest(s.drop_last())
    }
}

/// The sum of the gaps between consecutive elements.
pub open spec fn gap_sum(s: Seq<int>) -> int
    decreases s.len(),
{
    if s.len() < 2 {
        0
    } else {
        gap_sum(s.drop_last()) + (s.last() - s[s.len() - 2])
    }
}

/// What the time span reports of a sequence of instants.
pub open spec fn span_matches(span: Option<TimeSpan>, ts: Seq<int>) -> bool {
    match span {
        Some(sp) => ts.len() > 0 && sp.first_entry.seconds == least(ts) && sp.last_entry.seconds
            == greatest(ts) && sp.duration_seconds == greatest(ts) - least(ts),
        None => ts.len() == 0,
    }
}

/// What the mean interval reports of a sequence of instants: the span over the number of
/// gaps, which is the mean of the gaps between them once sorted.
pub open spec fn mean_matches(mean: Option<MeanInterval>, ts: Seq<int>) -> bool {
    match mean {
        Some(m) => ts.len() >= 2 && m.total_seconds == greatest(ts) - least(ts) && m.intervals
            == ts.len() - 1,
        None => ts.len() < 2,
    }
}

proof fn lemma_bounds(s: Seq<int>)
    requires
        s.len() > 0,
    ensures
        forall|i: int| 0 <= i < s.len() ==> least(s) <= #[trigger] s[i] <= greatest(s),
        exists|i: int| 0 <= i < s.len() && s[i] == least(s),
        exists|i: int| 0 <= i < s.len() && s[i] == greatest(s),
    decreases s.len(),
{
    if s.len() > 1 {
        let p = s.drop_last();
        lemma_bounds(p);
        let i = choose|i: int| 0 <= i < p.len() && p[i] == least(p);
        let j = choose|j: int| 0 <= j < p.len() && p[j] == greatest(p);
        assert(s[i] == p[i]);
        assert(s[j] == p[j]);
        assert forall|k: int| 0 <= k < s.len() implies least(s) <= #[trigger] s[k] <= greatest(s) by {
            if k < s.len() - 1 {
                assert(s[k] == p[k]);
            }
        }
        if s.last() < least(p) {
            assert(s[s.len() - 1] == least(s));
        } else {
            assert(s[i] == least(s));
        }
        if s.last() > greatest(p) {
            assert(s[s.len() - 1] == greatest(s));
        } else {
            assert(s[j] == greatest(s));
        }
    } else {
        assert(s[0] == least(s));
        assert(s[0] == greatest(s));
    }
}

/// The gaps between consecutive elements add up to the distance from the first to the last.
pub proof fn lemma_gap_sum_telescopes(s: Seq<int>)
    requires
        s.len() > 0,
    ensures
        gap_sum(s) == s.last() - s[0],
    decreases s.len(),
{
    if s.len() >= 2 {
        lemma_gap_sum_telescopes(s.drop_last());
    }
}

proof fn lemma_even_spacing(s: Seq<int>, d: int)
    requires
        s.len() > 0,
        forall|i: int| 0 < i < s.len() ==> #[trigger] s[i] - s[i - 1] == d,
    ensures
        s.last() - s[0] == (s.len() - 1) * d,
    decreases s.len(),
{
    if s.len() >= 2 {
        let p = s.drop_last();
        assert forall|i: int| 0 < i < p.len() implies #[trigger] p[i] - p[i - 1] == d by {
            assert(s[i] - s[i - 1] == d);
        }
        lemma_even_spacing(p, d);
        assert(p.last() == s[s.len() - 2] && p[0] == s[0]);
        assert(s[s.len() - 1] - s[s.len() - 2] == d);
        assert((s.len() - 1) * d == (p.len() - 1) * d + d) by (nonlinear_arith)
            requires
                p.len() == s.len() - 1,
        ;
    } else {
        assert((s.len() - 1) * d == 0) by (nonlinear_arith)
            requires
                s.len() == 1,
        ;
    }
}

/// The counts of levels add up to the number of entries.
pub proof fn lemma_level_counts_total(es: Seq<EntryView>)
    ensures
        total(tally(levels(es))) == es.len(),
{
    lemma_tally_total(levels(es));
}

proof fn lemma_ascending_bounds(ts: Seq<int>, d: int)
    requires
        ts.len() >= 2,
        forall|i: int, j: int| 0 <= i < j < ts.len() ==> ts[i] < ts[j],
    ensures
        least(ts) == ts[0],
        greatest(ts) == ts.last(),
        greatest(ts) - least(ts) == gap_sum(ts),
        (forall|i: int| 0 < i < ts.len() ==> #[trigger] ts[i] - ts[i - 1] == d) ==> greatest(ts) - least(ts)
            == (ts.len() - 1) * d,
{
    lemma_bounds(ts);
    let i = choose|i: int| 0 <= i < ts.len() && ts[i] == least(ts);
    let j = choose|j: int| 0 <= j < ts.len() && ts[j] == greatest(ts);
    if i != 0 {
        assert(ts[0] < ts[i]);
    }
    if j != ts.len() - 1 {
        assert(ts[j] < ts[ts.len() - 1]);
    }
    lemma_gap_sum_telescopes(ts);
    if forall|i: int| 0 < i < ts.len() ==> #[trigger] ts[i] - ts[i - 1] == d {
        lemma_even_spacing(ts, d);
    }
}

/// For entries whose instants run in strictly ascending order `t0 < t1 < ... < tn`, the mean
/// interval reported is `(tn - t0) / n`, which is the mean of the gaps between consecutive
/// instants; with even spacing `d` it is exactly `d`.
pub proof fn lemma_ascending_mean(es: Seq<EntryView>, mean: Option<MeanInterval>, d: int)
    requires
        instants(es).len() >= 2,
        forall|i: int, j: int|
            0 <= i < j < instants(es).len() ==> instants(es)[i] < instants(es)[j],
        mean_matches(mean, instants(es)),
    ensures
        mean matches Some(m) && m.intervals == instants(es).len() - 1 && m.total_seconds
            == instants(es).last() - instants(es)[0] && m.total_seconds == gap_sum(instants(es)),
        (forall|i: int|
            0 < i < instants(es).len() ==> #[trigger] instants(es)[i] - instants(es)[i - 1] == d)
            ==> mean->0.total_seconds == mean->0.intervals * d,
{
    lemma_ascending_bounds(instants(es), d);
}

/// Counts entries by level and measures the time they cover.
pub fn compute_statistics(entries: &[LogEntry]) -> (s: LogStatistics)
    ensures
        s.total_entries == entries@.len(),
        counts_view(s.level_counts@) == tally(levels(entries_view(entries@))),
        span_matches(s.time_span, instants(entries_view(entries@))),
        mean_matches(s.average_time_diff, instants(entries_view(entries@))),
{
    let ghost ev = entries_view(entries@);
    let mut level_counts: Vec<(String, usize)> = Vec::new();
    let mut lo: i64 = 0;
    let mut hi: i64 = 0;
    let mut k: usize = 0;
    let mut i: usize = 0;
    while i < entries.len()
        invariant
            i <= entries@.len(),
            ev == entries_view(entries@),
            counts_view(level_counts@) == tally(levels(ev.take(i as int))),
            k == instants(ev.take(i as int)).len(),
            k <= i,
            k > 0 ==> lo == least(instants(ev.take(i as int))) && hi == greatest(
                instants(ev.take(i as int)),
            ),
        decreases entries@.len() - i,
    {
        let e = &entries[i];
        assert(ev.take(i + 1).drop_last() =~= ev.take(i as int));
        assert(levels(ev.take(i + 1)).drop_last() =~= levels(ev.take(i as int)));
        assert(ev.take(i + 1).last() == e@);
        proof {
            lemma_tally_total(levels(ev.take(i as int)));
        }
        count_key(&mut level_counts, &e.level);
        match e.timestamp {
            Some(t) => {
                proof {
                    let before = instants(ev.take(i as int));
                    assert(instants(ev.take(i + 1)) == before.push(t.seconds as int));
                    assert(before.push(t.seconds as int).drop_last() =~= before);
                }
                if k == 0 || t.seconds < lo {
                    lo = t.seconds;
                }
                if k == 0 || t.seconds > hi {
                    hi = t.seconds;
                }
                k = k + 1;
            },
            None => {},
        }
        i = i + 1;
    }
    assert(ev.take(i as int) =~= ev);
    let ghost ts = instants(ev);
    let time_span = if k > 0 {
        proof {
            lemma_bounds(ts);
        }
        let d = (hi as i128 - lo as i128) as u64;
        Some(TimeSpan { first_entry: Timestamp { seconds: lo }, last_entry: Timestamp { seconds: hi }, duration_seconds: d })
    } else {
        None
    };
    let average_time_diff = match time_span {
        Some(sp) => if k >= 2 {
            Some(MeanInterval { total_seconds: sp.duration_seconds, intervals: k - 1 })
        } else {
            None
        },
        None => None,
    };
    LogStatistics { total_entries: entries.len(), level_counts, time_span, average_time_diff }
}

impl LogStatistics {
    /// The number of entries at `level`, or none when no entry has it.
    pub fn count_for(&self, level: &str) -> (r: Option<usize>)
        ensures
            match key_index_from(counts_view(self.level_counts@), level@, 0) {
                Some(i) => r == Some(self.level_counts@[i].1),
                None => r is None,
            },
    {
        let ghost t = counts_view(self.level_counts@);
        let mut i: usize = 0;
        while i < self.level_counts.len()
            invariant
                t == counts_view(self.level_counts@),
                i <= self.level_counts@.len(),
                key_index_from(t, level@, 0) == key_index_from(t, level@, i as int),
            decreases self.level_counts@.len() - i,
        {
            if text_is(&self.level_counts[i].0, level) {
                assert(t[i as int].0 == level@);
                return Some(self.level_counts[i].1);
            }
            i = i + 1;
        }
        None
    }
}

} // verus!
