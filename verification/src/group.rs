//! Grouping of rows by a key.  Groups come in the order in which their keys
//! first appear, and each group lists its rows in the order they came.
use vstd::prelude::*;

verus! {

/// The spec form of a key: its words and its numbers.
pub type KeyView = (Seq<Seq<char>>, Seq<int>);

/// A grouping key made of words and numbers; two keys are the same when
/// all their words and all their numbers agree.
pub struct RowKey {
    pub words: Vec<String>,
    pub numbers: Vec<i128>,
}

impl RowKey {
    pub open spec fn key_view(&self) -> KeyView {
        (self.words@.map_values(|w: String| w@), self.numbers@.map_values(|n: i128| n as int))
    }

    pub fn same_key(&self, other: &RowKey) -> (r: bool)
        ensures
            r == (self.key_view() == other.key_view()),
    {
        if self.words.len() != other.words.len() || self.numbers.len() != other.numbers.len() {
            proof {
                if self.key_view() == other.key_view() {
                    assert(self.key_view().0.len() == other.key_view().0.len());
                    assert(self.key_view().1.len() == other.key_view().1.len());
                }
            }
            return false;
        }
        let mut i: usize = 0;
        while i < self.words.len()
            invariant
                i <= self.words@.len() == other.words@.len(),
                forall|j: int| 0 <= j < i ==> self.words@[j]@ == other.words@[j]@,
            decreases self.words.len() - i,
        {
            if self.words[i] != other.words[i] {
                proof {
                    assert(self.key_view().0[i as int] != other.key_view().0[i as int]);
                }
                return false;
            }
            i = i + 1;
        }
        let mut j: usize = 0;
        while j < self.numbers.len()
            invariant
                j <= self.numbers@.len() == other.numbers@.len(),
                forall|k: int| 0 <= k < j ==> self.numbers@[k] == other.numbers@[k],
            decreases self.numbers.len() - j,
        {
            if self.numbers[j] != other.numbers[j] {
                proof {
                    assert(self.key_view().1[j as int] != other.key_view().1[j as int]);
                }
                return false;
            }
            j = j + 1;
        }
        assert(self.key_view().0 =~= other.key_view().0);
        assert(self.key_view().1 =~= other.key_view().1);
        true
    }
}

pub open spec fn keys_view(keys: Seq<RowKey>) -> Seq<KeyView> {
    keys.map_values(|k: RowKey| k.key_view())
}

pub open spec fn groups_view(groups: Seq<Vec<usize>>) -> Seq<Seq<usize>> {
    groups.map_values(|g: Vec<usize>| g@)
}

/// The first group whose first row has key `k`, or -1.
pub open spec fn find_group(groups: Seq<Seq<usize>>, keys: Seq<KeyView>, k: KeyView) -> int
    decreases groups.len(),
{
    if groups.len() == 0 {
        -1
    } else {
        let p = find_group(groups.drop_last(), keys, k);
        if p >= 0 {
            p
        } else if keys[groups.last()[0] as int] == k {
            groups.len() - 1
        } else {
            -1
        }
    }
}

/// The rows (indices into `keys`) grouped by key, groups in order of their
/// key's first appearance, rows in order within each group.
pub open spec fn group_spec(keys: Seq<KeyView>) -> Seq<Seq<usize>>
    decreases keys.len(),
{
    if keys.len() == 0 {
        Seq::empty()
    } else {
        let g = group_spec(keys.drop_last());
        let i = keys.len() - 1;
        let p = find_group(g, keys, keys[i]);
        if p >= 0 {
            g.update(p, g[p].push(i as usize))
        } else {
            g.push(seq![i as usize])
        }
    }
}

/// Every group is non-empty and holds indices below `n`.
pub open spec fn groups_wf(groups: Seq<Seq<usize>>, n: int) -> bool {
    forall|g: int|
        0 <= g < groups.len() ==> #[trigger] groups[g].len() > 0 && forall|j: int|
            0 <= j < groups[g].len() ==> groups[g][j] < n
}

proof fn lemma_find_group_range(groups: Seq<Seq<usize>>, keys: Seq<KeyView>, k: KeyView)
    ensures
        -1 <= find_group(groups, keys, k) < groups.len(),
        find_group(groups, keys, k) >= 0 ==> keys[groups[find_group(groups, keys, k)][0] as int]
            == k,
        find_group(groups, keys, k) < 0 ==> forall|g: int|
            0 <= g < groups.len() ==> keys[#[trigger] groups[g][0] as int] != k,
        forall|g: int|
            0 <= g < find_group(groups, keys, k) ==> keys[#[trigger] groups[g][0] as int] != k,
    decreases groups.len(),
{
    if groups.len() > 0 {
        lemma_find_group_range(groups.drop_last(), keys, k);
        let p = find_group(groups.drop_last(), keys, k);
        assert forall|g: int| 0 <= g < groups.len() - 1 implies groups[g] == groups.drop_last()[g] by {}
        if p < 0 {
            assert forall|g: int|
                0 <= g < groups.len() - 1 implies keys[#[trigger] groups[g][0] as int] != k by {
                assert(groups[g] == groups.drop_last()[g]);
            }
        }
    }
}

/// Lookups only touch the first rows of the groups, which agree between `keys`
/// and any longer sequence that extends it.
proof fn lemma_find_group_extend(
    groups: Seq<Seq<usize>>,
    keys: Seq<KeyView>,
    longer: Seq<KeyView>,
    k: KeyView,
)
    requires
        groups_wf(groups, keys.len() as int),
        keys.len() <= longer.len(),
        forall|i: int| 0 <= i < keys.len() ==> keys[i] == longer[i],
    ensures
        find_group(groups, keys, k) == find_group(groups, longer, k),
    decreases groups.len(),
{
    if groups.len() > 0 {
        assert(groups.last() == groups[groups.len() - 1]);
        assert(groups_wf(groups.drop_last(), keys.len() as int)) by {
            assert forall|g: int| 0 <= g < groups.drop_last().len() implies #[trigger] groups.drop_last()[g].len() > 0
                && forall|j: int| 0 <= j < groups.drop_last()[g].len() ==> groups.drop_last()[g][j] < keys.len() by {
                assert(groups.drop_last()[g] == groups[g]);
            }
        }
        lemma_find_group_extend(groups.drop_last(), keys, longer, k);
    }
}

pub proof fn lemma_group_spec_wf(keys: Seq<KeyView>)
    ensures
        groups_wf(group_spec(keys), keys.len() as int),
    decreases keys.len(),
{
    if keys.len() > 0 {
        let prev = keys.drop_last();
        lemma_group_spec_wf(prev);
        let g = group_spec(prev);
        let i = keys.len() - 1;
        lemma_find_group_range(g, keys, keys[i]);
        let p = find_group(g, keys, keys[i]);
        let r = group_spec(keys);
        if p >= 0 {
            assert forall|x: int| 0 <= x < r.len() implies #[trigger] r[x].len() > 0 && forall|j: int|
                0 <= j < r[x].len() ==> r[x][j] < keys.len() by {
                if x == p {
                    assert(r[x] == g[p].push(i as usize));
                } else {
                    assert(r[x] == g[x]);
                }
            }
        } else {
            assert forall|x: int| 0 <= x < r.len() implies #[trigger] r[x].len() > 0 && forall|j: int|
                0 <= j < r[x].len() ==> r[x][j] < keys.len() by {
                if x < g.len() {
                    assert(r[x] == g[x]);
                } else {
                    assert(r[x] == seq![i as usize]);
                }
            }
        }
    }
}

/// Whether `groups` partitions the rows `0..keys.len()` by key: within a
/// group all rows share a key and come in increasing order, different
/// groups have different keys, and every row is in a group.
pub open spec fn partitions_by_key(groups: Seq<Seq<usize>>, keys: Seq<KeyView>) -> bool {
    &&& groups_wf(groups, keys.len() as int)
    &&& forall|g: int, j: int|
        0 <= g < groups.len() && 0 <= j < groups[g].len() ==> keys[#[trigger] groups[g][j] as int]
            == keys[groups[g][0] as int]
    &&& forall|g: int, j: int, l: int|
        0 <= g < groups.len() && 0 <= j < l < groups[g].len() ==> #[trigger] groups[g][j] < #[trigger] groups[g][l]
    &&& forall|g: int, h: int|
        0 <= g < h < groups.len() ==> keys[#[trigger] groups[g][0] as int] != keys[#[trigger] groups[h][0] as int]
    &&& forall|i: int| 0 <= i < keys.len() ==> #[trigger] row_grouped(groups, i)
}

/// Whether row `i` is in one of the groups.
pub open spec fn row_grouped(groups: Seq<Seq<usize>>, i: int) -> bool {
    exists|g: int, j: int| 0 <= g < groups.len() && 0 <= j < groups[g].len() && #[trigger] groups[g][j] == i
}

/// Grouping partitions the rows by key: rows of one group share their key
/// and keep their order, groups have distinct keys, and no row is left out.
pub proof fn law_grouping_partitions(keys: Seq<KeyView>)
    requires
        keys.len() <= usize::MAX,
    ensures
        partitions_by_key(group_spec(keys), keys),
    decreases keys.len(),
{
    lemma_group_spec_wf(keys);
    if keys.len() > 0 {
        let prev = keys.drop_last();
        law_grouping_partitions(prev);
        let g = group_spec(prev);
        let n = keys.len();
        let i = n - 1;
        lemma_find_group_range(g, keys, keys[i]);
        let p = find_group(g, keys, keys[i]);
        let r = group_spec(keys);
        assert forall|x: int| 0 <= x < prev.len() implies prev[x] == keys[x] by {}
        if p >= 0 {
            assert(r == g.update(p, g[p].push(i as usize)));
            assert forall|a: int, j: int|
                0 <= a < r.len() && 0 <= j < r[a].len() implies keys[#[trigger] r[a][j] as int] == keys[r[a][0] as int] by {
                if a == p {
                    assert(r[a][0] == g[p][0]);
                    if j < g[p].len() {
                        assert(r[a][j] == g[p][j]);
                        assert(prev[g[p][j] as int] == prev[g[p][0] as int]);
                        assert(g[p][j] < prev.len() && g[p][0] < prev.len());
                    } else {
                        assert(r[a][j] == i);
                    }
                } else {
                    assert(r[a] == g[a]);
                    assert(prev[g[a][j] as int] == prev[g[a][0] as int]);
                }
            }
            assert forall|a: int, j: int, l: int|
                0 <= a < r.len() && 0 <= j < l < r[a].len() implies #[trigger] r[a][j] < #[trigger] r[a][l] by {
                if a == p {
                    assert(r[a][j] == g[p][j]);
                    if l < g[p].len() {
                        assert(r[a][l] == g[p][l]);
                        assert(g[p][j] < g[p][l]);
                    } else {
                        assert(r[a][l] == i);
                        assert(g[p][j] < prev.len());
                    }
                } else {
                    assert(r[a] == g[a]);
                    assert(g[a][j] < g[a][l]);
                }
            }
            assert forall|a: int, b: int|
                0 <= a < b < r.len() implies keys[#[trigger] r[a][0] as int] != keys[#[trigger] r[b][0] as int] by {
                assert(g[a].len() > 0 && g[b].len() > 0);
                assert(r[a][0] == g[a][0]);
                assert(r[b][0] == g[b][0]);
                assert(prev[g[a][0] as int] != prev[g[b][0] as int]);
                assert(g[a][0] < prev.len() && g[b][0] < prev.len());
            }
            assert forall|x: int| 0 <= x < keys.len() implies #[trigger] row_grouped(r, x) by {
                if x == i {
                    assert(r[p][g[p].len() as int] == x);
                } else {
                    assert(row_grouped(g, x));
                    let (a, j) = choose|a: int, j: int| 0 <= a < g.len() && 0 <= j < g[a].len() && #[trigger] g[a][j] == x;
                    assert(r[a][j] == x);
                }
            }
        } else {
            assert(r == g.push(seq![i as usize]));
            assert forall|a: int, j: int|
                0 <= a < r.len() && 0 <= j < r[a].len() implies keys[#[trigger] r[a][j] as int] == keys[r[a][0] as int] by {
                if a < g.len() {
                    assert(r[a] == g[a]);
                    assert(prev[g[a][j] as int] == prev[g[a][0] as int]);
                }
            }
            assert forall|a: int, j: int, l: int|
                0 <= a < r.len() && 0 <= j < l < r[a].len() implies #[trigger] r[a][j] < #[trigger] r[a][l] by {
                assert(r[a] == g[a]);
                assert(g[a][j] < g[a][l]);
            }
            assert forall|a: int, b: int|
                0 <= a < b < r.len() implies keys[#[trigger] r[a][0] as int] != keys[#[trigger] r[b][0] as int] by {
                assert(r[a] == g[a]);
                assert(g[a].len() > 0 && g[a][0] < prev.len());
                if b < g.len() {
                    assert(r[b] == g[b]);
                    assert(g[b].len() > 0 && g[b][0] < prev.len());
                    assert(prev[g[a][0] as int] != prev[g[b][0] as int]);
                } else {
                    assert(r[b][0] == i);
                    assert(keys[g[a][0] as int] != keys[i]);
                }
            }
            assert forall|x: int| 0 <= x < keys.len() implies #[trigger] row_grouped(r, x) by {
                if x == i {
                    assert(r[g.len() as int][0] == x);
                } else {
                    assert(row_grouped(g, x));
                    let (a, j) = choose|a: int, j: int| 0 <= a < g.len() && 0 <= j < g[a].len() && #[trigger] g[a][j] == x;
                    assert(r[a][j] == x);
                }
            }
        }
    }
}

/// A row is in a group exactly when its key is the group's key.
pub proof fn lemma_group_members(keys: Seq<KeyView>, g: int, i: int)
    requires
        keys.len() <= usize::MAX,
        0 <= g < group_spec(keys).len(),
        0 <= i < keys.len(),
    ensures
        group_spec(keys)[g].len() > 0,
        group_spec(keys)[g].contains(i as usize) <==> keys[i] == keys[group_spec(keys)[g][0] as int],
{
    let groups = group_spec(keys);
    law_grouping_partitions(keys);
    assert(groups[g].len() > 0);
    if groups[g].contains(i as usize) {
        let j = choose|j: int| 0 <= j < groups[g].len() && groups[g][j] == i as usize;
        assert(keys[groups[g][j] as int] == keys[groups[g][0] as int]);
    }
    if keys[i] == keys[groups[g][0] as int] {
        assert(row_grouped(groups, i));
        let (h, j) = choose|h: int, j: int| 0 <= h < groups.len() && 0 <= j < groups[h].len() && #[trigger] groups[h][j] == i;
        assert(keys[groups[h][j] as int] == keys[groups[h][0] as int]);
        if h < g {
            assert(keys[groups[h][0] as int] != keys[groups[g][0] as int]);
        } else if g < h {
            assert(keys[groups[g][0] as int] != keys[groups[h][0] as int]);
        }
        assert(groups[g][j] == i as usize);
    }
}

/// Groups the rows `0..keys.len()` by key.
pub fn group_rows(keys: &Vec<RowKey>) -> (groups: Vec<Vec<usize>>)
    ensures
        groups_view(groups@) == group_spec(keys_view(keys@)),
{
    let ghost ks = keys_view(keys@);
    let mut groups: Vec<Vec<usize>> = Vec::new();
    let n = keys.len();
    let mut i: usize = 0;
    while i < n
        invariant
            n == keys@.len(),
            ks == keys_view(keys@),
            i <= n,
            groups_view(groups@) == group_spec(ks.subrange(0, i as int)),
        decreases n - i,
    {
        let ghost prefix = ks.subrange(0, i as int);
        let ghost next = ks.subrange(0, i + 1);
        proof {
            assert(next.drop_last() =~= prefix);
            lemma_group_spec_wf(prefix);
            lemma_find_group_extend(group_spec(prefix), prefix, next, next[i as int]);
            lemma_find_group_range(group_spec(prefix), next, next[i as int]);
        }
        let ghost gv = groups_view(groups@);
        let mut g: usize = 0;
        let mut found = false;
        while g < groups.len() && !found
            invariant
                n == keys@.len(),
                ks == keys_view(keys@),
                i < n,
                gv == groups_view(groups@),
                gv == group_spec(prefix),
                groups_wf(gv, i as int),
                next == ks.subrange(0, i + 1),
                g <= groups@.len(),
                found ==> g < groups@.len() && next[gv[g as int][0] as int] == next[i as int],
                forall|x: int| 0 <= x < g ==> next[#[trigger] gv[x][0] as int] != next[i as int],
            decreases groups.len() - g + (if found { 0int } else { 1int }),
        {
            assert(gv[g as int] == groups@[g as int]@);
            assert(gv[g as int].len() > 0);
            let first = groups[g][0];
            assert(first < i);
            assert(next[first as int] == ks[first as int]);
            assert(next[i as int] == ks[i as int]);
            if keys[first].same_key(&keys[i]) {
                found = true;
            } else {
                g = g + 1;
            }
        }
        proof {
            let p = find_group(gv, next, next[i as int]);
            if found {
                assert(p == g) by {
                    if p < g {
                        assert(next[gv[p][0] as int] != next[i as int]);
                    }
                    if p > g || p < 0 {
                        assert(next[gv[g as int][0] as int] == next[i as int]);
                    }
                }
            } else {
                assert(p < 0) by {
                    if p >= 0 {
                        assert(next[gv[p][0] as int] != next[i as int]);
                    }
                }
            }
            assert(group_spec(next) == (if p >= 0 {
                gv.update(p, gv[p].push(i as usize))
            } else {
                gv.push(seq![i as usize])
            }));
        }
        if found {
            let mut grp = groups[g].clone();
            grp.push(i);
            groups.set(g, grp);
            proof {
                assert(groups_view(groups@) =~= gv.update(g as int, gv[g as int].push(i as usize)));
            }
        } else {
            let mut grp: Vec<usize> = Vec::new();
            grp.push(i);
            groups.push(grp);
            proof {
                assert(groups_view(groups@) =~= gv.push(seq![i as usize]));
            }
        }
        i = i + 1;
    }
    assert(ks.subrange(0, n as int) =~= ks);
    groups
}

} // verus!
