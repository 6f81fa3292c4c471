use vstd::prelude::*;

verus! {

/// The keys of a list of entries, as character sequences.
pub open spec fn key_seq<V>(s: Seq<(String, V)>) -> Seq<Seq<char>> {
    s.map_values(|e: (String, V)| e.0@)
}

/// The keys of a list of modelled entries.
pub open spec fn model_keys<V>(s: Seq<(Seq<char>, V)>) -> Seq<Seq<char>> {
    s.map_values(|e: (Seq<char>, V)| e.0)
}

/// Entries seen through `f` on their values, keys by their characters.
pub open spec fn entries_view<V, W>(s: Seq<(String, V)>, f: spec_fn(V) -> W) -> Seq<(Seq<char>, W)> {
    s.map_values(|e: (String, V)| (e.0@, f(e.1)))
}

/// The least index at or after `lo` that holds `k`, or `keys.len()` when there is none.
pub open spec fn first_index(keys: Seq<Seq<char>>, k: Seq<char>, lo: int) -> int
    decreases keys.len() - lo,
{
    if lo >= keys.len() || lo < 0 {
        keys.len() as int
    } else if keys[lo] == k {
        lo
    } else {
        first_index(keys, k, lo + 1)
    }
}

/// Whether no two entries share a key.
pub open spec fn unique_keys<V>(s: Seq<(Seq<char>, V)>) -> bool {
    forall|i: int, j: int| 0 <= i < j < s.len() ==> s[i].0 != s[j].0
}

/// The value stored under `k`, if any.
pub open spec fn value_at<V>(s: Seq<(Seq<char>, V)>, k: Seq<char>) -> Option<V> {
    let i = first_index(model_keys(s), k, 0);
    if i < s.len() {
        Some(s[i].1)
    } else {
        None
    }
}

/// `s` with `v` stored under `k`: the entry that holds `k` is replaced in place, or a
/// new entry goes at the end.
pub open spec fn put<V>(s: Seq<(Seq<char>, V)>, k: Seq<char>, v: V) -> Seq<(Seq<char>, V)> {
    let i = first_index(model_keys(s), k, 0);
    if i < s.len() {
        s.update(i, (k, v))
    } else {
        s.push((k, v))
    }
}

/// `acc` with each entry of `src` stored in turn.
pub open spec fn put_all<V>(acc: Seq<(Seq<char>, V)>, src: Seq<(Seq<char>, V)>) -> Seq<(Seq<char>, V)>
    decreases src.len(),
{
    if src.len() == 0 {
        acc
    } else {
        put(put_all(acc, src.drop_last()), src.last().0, src.last().1)
    }
}

/// What `put_entry` makes of a list of entries.
pub open spec fn put_raw<V>(s: Seq<(String, V)>, k: String, v: V) -> Seq<(String, V)> {
    let i = first_index(key_seq(s), k@, 0);
    if i < s.len() {
        s.update(i, (k, v))
    } else {
        s.push((k, v))
    }
}

pub proof fn lemma_first_index(keys: Seq<Seq<char>>, k: Seq<char>, lo: int)
    requires
        0 <= lo <= keys.len(),
    ensures
        lo <= first_index(keys, k, lo) <= keys.len(),
        first_index(keys, k, lo) < keys.len() ==> keys[first_index(keys, k, lo)] == k,
        forall|j: int| lo <= j < first_index(keys, k, lo) ==> keys[j] != k,
    decreases keys.len() - lo,
{
    if lo < keys.len() && keys[lo] != k {
        lemma_first_index(keys, k, lo + 1);
    }
}

/// A position known to hold the first `k` from `lo` on is what `first_index` gives.
pub proof fn lemma_first_index_at(keys: Seq<Seq<char>>, k: Seq<char>, lo: int, at: int)
    requires
        0 <= lo <= at <= keys.len(),
        at < keys.len() ==> keys[at] == k,
        forall|j: int| lo <= j < at ==> keys[j] != k,
    ensures
        first_index(keys, k, lo) == at,
    decreases at - lo,
{
    if lo < at {
        lemma_first_index_at(keys, k, lo + 1, at);
    }
}

/// Seeing entries through a view commutes with storing one.
pub proof fn lemma_put_view<V, W>(s: Seq<(String, V)>, k: String, v: V, f: spec_fn(V) -> W)
    ensures
        entries_view(put_raw(s, k, v), f) == put(entries_view(s, f), k@, f(v)),
{
    assert(model_keys(entries_view(s, f)) =~= key_seq(s));
    lemma_first_index(key_seq(s), k@, 0);
    let i = first_index(key_seq(s), k@, 0);
    if i < s.len() {
        assert(entries_view(put_raw(s, k, v), f) =~= put(entries_view(s, f), k@, f(v)));
    } else {
        assert(entries_view(put_raw(s, k, v), f) =~= put(entries_view(s, f), k@, f(v)));
    }
}

/// Storing under a key keeps keys unique, and the key then holds the stored value.
pub proof fn lemma_put_unique<V>(s: Seq<(Seq<char>, V)>, k: Seq<char>, v: V)
    requires
        unique_keys(s),
    ensures
        unique_keys(put(s, k, v)),
        value_at(put(s, k, v), k) == Some(v),
{
    let keys = model_keys(s);
    lemma_first_index(keys, k, 0);
    let i = first_index(keys, k, 0);
    let t = put(s, k, v);
    if i < s.len() {
        assert(keys[i] == s[i].0);
        assert(model_keys(t) =~= keys);
    } else {
        assert forall|j: int| 0 <= j < s.len() implies s[j].0 != k by {
            assert(keys[j] == s[j].0);
        }
        assert(model_keys(t)[s.len() as int] == k);
        lemma_first_index_at(model_keys(t), k, 0, s.len() as int);
    }
}

/// The index of the first entry keyed `k`, or the number of entries.
pub fn find_key<V>(entries: &Vec<(String, V)>, k: &String) -> (r: usize)
    ensures
        r as int == first_index(key_seq(entries@), k@, 0),
{
    let n = entries.len();
    let mut i: usize = 0;
    while i < n
        invariant
            n == entries@.len(),
            i <= n,
            first_index(key_seq(entries@), k@, 0) == first_index(key_seq(entries@), k@, i as int),
        decreases n - i,
    {
        if entries[i].0 == *k {
            return i;
        }
        i = i + 1;
    }
    i
}

/// Stores `v` under `k`, replacing the entry that holds `k` or adding one at the end.
pub fn put_entry<V>(entries: &mut Vec<(String, V)>, k: String, v: V)
    ensures
        final(entries)@ == put_raw(old(entries)@, k, v),
{
    let i = find_key(entries, &k);
    if i < entries.len() {
        entries.set(i, (k, v));
    } else {
        entries.push((k, v));
    }
}

} // verus!
