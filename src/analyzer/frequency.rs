use vstd::prelude::*;

verus! {

/// A frequency table: each distinct key with how often it was seen, in first-seen order.
pub type Counts = Seq<(Seq<char>, nat)>;

/// A table of executable counts as mathematical values.
pub open spec fn counts_view(v: Seq<(String, usize)>) -> Counts {
    v.map_values(|p: (String, usize)| (p.0@, p.1 as nat))
}

/// Position of `k` in the table, searching from `from`.
pub open spec fn key_index_from(t: Counts, k: Seq<char>, from: int) -> Option<int>
    decreases t.len() - from,
{
    if from < 0 || from >= t.len() {
        None
    } else if t[from].0 == k {
        Some(from)
    } else {
        key_index_from(t, k, from + 1)
    }
}

/// The table after one more sighting of `k`: its count grows by one, or it joins the end.
pub open spec fn bump(t: Counts, k: Seq<char>) -> Counts {
    match key_index_from(t, k, 0) {
        Some(i) => t.update(i, (k, t[i].1 + 1)),
        None => t.push((k, 1nat)),
    }
}

/// The frequency table of a sequence of keys.
pub open spec fn tally(keys: Seq<Seq<char>>) -> Counts
    decreases keys.len(),
{
    if keys.len() == 0 {
        Seq::empty()
    } else {
        bump(tally(keys.drop_last()), keys.last())
    }
}

/// The sum of all counts in a table.
pub open spec fn total(t: Counts) -> nat
    decreases t.len(),
{
    if t.len() == 0 {
        0
    } else {
        total(t.drop_last()) + t.last().1
    }
}

proof fn lemma_key_index_from_range(t: Counts, k: Seq<char>, from: int)
    requires
        0 <= from,
    ensures
        key_index_from(t, k, from) matches Some(i) ==> from <= i < t.len() && t[i].0 == k,
        key_index_from(t, k, from) is None ==> forall|j: int|
            from <= j < t.len() ==> t[j].0 != k,
    decreases t.len() - from,
{
    if from >= 0 && from < t.len() && t[from].0 != k {
        lemma_key_index_from_range(t, k, from + 1);
    }
}

proof fn lemma_total_update(t: Counts, i: int, p: (Seq<char>, nat))
    requires
        0 <= i < t.len(),
    ensures
        total(t.update(i, p)) + t[i].1 == total(t) + p.1,
    decreases t.len(),
{
    if i < t.len() - 1 {
        lemma_total_update(t.drop_last(), i, p);
        assert(t.update(i, p).drop_last() =~= t.drop_last().update(i, p));
    } else {
        assert(t.update(i, p).drop_last() =~= t.drop_last());
    }
}

proof fn lemma_entry_le_total(t: Counts, i: int)
    requires
        0 <= i < t.len(),
    ensures
        t[i].1 <= total(t),
    decreases t.len(),
{
    if i < t.len() - 1 {
        lemma_entry_le_total(t.drop_last(), i);
    }
}

/// Counting a key adds exactly one to the total.
pub proof fn lemma_bump_total(t: Counts, k: Seq<char>)
    ensures
        total(bump(t, k)) == total(t) + 1,
{
    lemma_key_index_from_range(t, k, 0);
    match key_index_from(t, k, 0) {
        Some(i) => lemma_total_update(t, i, (k, t[i].1 + 1)),
        None => assert(t.push((k, 1nat)).drop_last() =~= t),
    }
}

/// The counts of a frequency table add up to the number of keys counted.
pub proof fn lemma_tally_total(keys: Seq<Seq<char>>)
    ensures
        total(tally(keys)) == keys.len(),
    decreases keys.len(),
{
    if keys.len() > 0 {
        lemma_tally_total(keys.drop_last());
        lemma_bump_total(tally(keys.drop_last()), keys.last());
    }
}

/// Records one more sighting of `key` in `table`.
pub fn count_key(table: &mut Vec<(String, usize)>, key: &String)
    requires
        total(counts_view(old(table)@)) < usize::MAX,
    ensures
        counts_view(final(table)@) == bump(counts_view(old(table)@), key@),
{
    let ghost t0 = counts_view(table@);
    let mut i: usize = 0;
    while i < table.len()
        invariant
            t0 == counts_view(table@),
            t0 == counts_view(old(table)@),
            total(t0) < usize::MAX,
            i <= table.len(),
            key_index_from(t0, key@, 0) == key_index_from(t0, key@, i as int),
        decreases table.len() - i,
    {
        if table[i].0 == *key {
            let c = table[i].1;
            assert(t0[i as int].0 == key@);
            assert(key_index_from(t0, key@, 0) == Some(i as int));
            proof {
                lemma_entry_le_total(t0, i as int);
            }
            table.set(i, (key.clone(), c + 1));
            assert(counts_view(table@) =~= t0.update(i as int, (key@, t0[i as int].1 + 1)));
            return;
        }
        i = i + 1;
    }
    table.push((key.clone(), 1));
    assert(counts_view(table@) =~= t0.push((key@, 1nat)));
}

} // verus!
