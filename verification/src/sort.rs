//! Stable sorting of row indices by a day number, as `sort_by_key` does.
use vstd::prelude::*;

verus! {

/// `x` placed after the last element whose key is at most `x`'s key, in a
/// sequence sorted by key: one step of a stable insertion sort.
pub open spec fn insert_by_key(s: Seq<usize>, x: usize, key: Seq<i32>) -> Seq<usize>
    decreases s.len(),
{
    if s.len() == 0 || key[s.last() as int] <= key[x as int] {
        s.push(x)
    } else {
        insert_by_key(s.drop_last(), x, key).push(s.last())
    }
}

/// The rows stably sorted by `key[row]`: rows with equal keys keep their order.
pub open spec fn sort_by_key(rows: Seq<usize>, key: Seq<i32>) -> Seq<usize>
    decreases rows.len(),
{
    if rows.len() == 0 {
        rows
    } else {
        insert_by_key(sort_by_key(rows.drop_last(), key), rows.last(), key)
    }
}

proof fn lemma_insert_at(s: Seq<usize>, x: usize, key: Seq<i32>, j: int)
    requires
        0 <= j <= s.len(),
        forall|k: int| j <= k < s.len() ==> key[#[trigger] s[k] as int] > key[x as int],
        j > 0 ==> key[s[j - 1] as int] <= key[x as int],
    ensures
        insert_by_key(s, x, key) == s.insert(j, x),
    decreases s.len() - j,
{
    if j == s.len() {
        assert(s.insert(j, x) =~= s.push(x));
    } else {
        assert(key[s.last() as int] > key[x as int]);
        let t = s.drop_last();
        assert forall|k: int| j <= k < t.len() implies key[#[trigger] t[k] as int] > key[x as int] by {
            assert(t[k] == s[k]);
        }
        lemma_insert_at(t, x, key, j);
        assert(t.insert(j, x).push(s.last()) =~= s.insert(j, x));
    }
}

/// Sorts the rows stably by `key[row]`.
pub fn sort_rows_by_key(rows: &Vec<usize>, key: &Vec<i32>) -> (r: Vec<usize>)
    requires
        forall|i: int| 0 <= i < rows.len() ==> rows[i] < key.len(),
    ensures
        r@ == sort_by_key(rows@, key@),
{
    let mut r: Vec<usize> = Vec::new();
    let mut i: usize = 0;
    while i < rows.len()
        invariant
            i <= rows.len(),
            forall|k: int| 0 <= k < rows.len() ==> rows[k] < key.len(),
            r@ == sort_by_key(rows@.subrange(0, i as int), key@),
            forall|k: int| 0 <= k < r.len() ==> r[k] < key.len(),
        decreases rows.len() - i,
    {
        let x = rows[i];
        let mut j: usize = r.len();
        while j > 0 && key[r[j - 1]] > key[x]
            invariant
                j <= r.len(),
                x < key.len(),
                forall|k: int| 0 <= k < r.len() ==> r[k] < key.len(),
                forall|k: int| j <= k < r.len() ==> key@[#[trigger] r@[k] as int] > key@[x as int],
            decreases j,
        {
            j = j - 1;
        }
        proof {
            lemma_insert_at(r@, x, key@, j as int);
            assert(rows@.subrange(0, i + 1).drop_last() =~= rows@.subrange(0, i as int));
        }
        r.insert(j, x);
        i = i + 1;
    }
    assert(rows@.subrange(0, rows.len() as int) =~= rows@);
    r
}

/// Whether the rows come in ascending order of `key[row]`.
pub open spec fn sorted_by_key(s: Seq<usize>, key: Seq<i32>) -> bool {
    forall|i: int, j: int| 0 <= i < j < s.len() ==> key[#[trigger] s[i] as int] <= key[#[trigger] s[j] as int]
}

proof fn lemma_insert_by_key(s: Seq<usize>, x: usize, key: Seq<i32>)
    requires
        sorted_by_key(s, key),
    ensures
        sorted_by_key(insert_by_key(s, x, key), key),
        insert_by_key(s, x, key).to_multiset() =~= s.to_multiset().insert(x),
    decreases s.len(),
{
    vstd::seq_lib::to_multiset_build(s, x);
    if s.len() == 0 || key[s.last() as int] <= key[x as int] {
        let r = s.push(x);
        assert forall|i: int, j: int| 0 <= i < j < r.len() implies key[#[trigger] r[i] as int] <= key[#[trigger] r[j] as int] by {
            if j == s.len() {
                assert(r[i] == s[i]);
                if i < s.len() - 1 {
                    assert(key[s[i] as int] <= key[s[s.len() - 1] as int]);
                }
            } else {
                assert(r[i] == s[i] && r[j] == s[j]);
            }
        }
    } else {
        let dl = s.drop_last();
        let last = s.last();
        assert(sorted_by_key(dl, key)) by {
            assert forall|i: int, j: int| 0 <= i < j < dl.len() implies key[#[trigger] dl[i] as int] <= key[#[trigger] dl[j] as int] by {
                assert(dl[i] == s[i] && dl[j] == s[j]);
            }
        }
        lemma_insert_by_key(dl, x, key);
        let ins = insert_by_key(dl, x, key);
        let r = ins.push(last);
        vstd::seq_lib::to_multiset_build(ins, last);
        vstd::seq_lib::to_multiset_build(dl, last);
        assert(dl.push(last) =~= s);
        assert forall|k: int| 0 <= k < ins.len() implies key[#[trigger] ins[k] as int] <= key[last as int] by {
            let e = ins[k];
            vstd::seq_lib::to_multiset_contains(ins, e);
            vstd::seq_lib::to_multiset_contains(dl, e);
            assert(ins.contains(e));
            if e != x {
                assert(dl.to_multiset().insert(x).count(e) == dl.to_multiset().count(e));
                assert(dl.contains(e));
                let idx = choose|idx: int| 0 <= idx < dl.len() && dl[idx] == e;
                assert(s[idx] == e);
                assert(key[s[idx] as int] <= key[s[s.len() - 1] as int]);
            }
        }
        assert forall|i: int, j: int| 0 <= i < j < r.len() implies key[#[trigger] r[i] as int] <= key[#[trigger] r[j] as int] by {
            if j == ins.len() {
                assert(r[i] == ins[i]);
            } else {
                assert(r[i] == ins[i] && r[j] == ins[j]);
            }
        }
    }
}

/// Sorting by key puts the rows in ascending order of their keys and keeps
/// exactly the rows it was given.
pub proof fn law_sort_by_key(rows: Seq<usize>, key: Seq<i32>)
    ensures
        sorted_by_key(sort_by_key(rows, key), key),
        sort_by_key(rows, key).to_multiset() =~= rows.to_multiset(),
    decreases rows.len(),
{
    if rows.len() == 0 {
        assert(rows.to_multiset() =~= vstd::multiset::Multiset::empty()) by {
            vstd::seq_lib::to_multiset_len(rows);
        }
        vstd::seq_lib::to_multiset_len(sort_by_key(rows, key));
    } else {
        law_sort_by_key(rows.drop_last(), key);
        lemma_insert_by_key(sort_by_key(rows.drop_last(), key), rows.last(), key);
        vstd::seq_lib::to_multiset_build(rows.drop_last(), rows.last());
        assert(rows.drop_last().push(rows.last()) =~= rows);
    }
}

} // verus!
