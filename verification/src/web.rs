//! The decisions of the web service: the daily summary sent with an audit,
//! the database and AI settings built from a request, and the kind of an
//! uploaded file.
use crate::ai_analysis::AiConfig;
use crate::database::DatabaseType;
use crate::models::{txns_view, Transaction, TxnView};
use crate::money::{add_parts, Money, Parts};
use crate::rule_engine::balance_check::{sum_fits, sum_of_parts};
use crate::text::{chars_of, ends_with, push_str, string_of};
use vstd::prelude::*;

verus! {

/// The totals of one day of the journal.
#[derive(Clone, Debug)]
pub struct DaySummary {
    /// The day, as `Display` writes a date.
    pub date: String,
    pub total_debit: String,
    pub total_credit: String,
    /// The number of transactions of the day.
    pub count: usize,
}

/// The day a transaction is filed under: its date's text.
pub open spec fn day_key(t: TxnView) -> Seq<char> {
    t.date.text()
}

/// The debits (or credits) of the transactions of a day, in journal order.
pub open spec fn day_amounts(ts: Seq<TxnView>, k: Seq<char>, debit: bool) -> Seq<Parts>
    decreases ts.len(),
{
    if ts.len() == 0 {
        Seq::empty()
    } else {
        let rest = day_amounts(ts.drop_last(), k, debit);
        if day_key(ts.last()) == k {
            rest.push(
                if debit {
                    ts.last().debit.parts()
                } else {
                    ts.last().credit.parts()
                },
            )
        } else {
            rest
        }
    }
}

/// The days that occur in a journal.
pub open spec fn days_of(ts: Seq<TxnView>) -> Set<Seq<char>>
    decreases ts.len(),
{
    if ts.len() == 0 {
        Set::empty()
    } else {
        days_of(ts.drop_last()).insert(day_key(ts.last()))
    }
}

/// Whether text `a` comes before text `b` in the order of `String`'s `Ord`:
/// by the first differing character, a prefix first.
pub open spec fn text_lt(a: Seq<char>, b: Seq<char>) -> bool
    decreases a.len(),
{
    if a.len() == 0 {
        b.len() > 0
    } else if b.len() == 0 {
        false
    } else if a[0] != b[0] {
        (a[0] as u32) < (b[0] as u32)
    } else {
        text_lt(a.drop_first(), b.drop_first())
    }
}

pub proof fn lemma_text_lt_irreflexive(a: Seq<char>)
    ensures
        !text_lt(a, a),
    decreases a.len(),
{
    if a.len() > 0 {
        lemma_text_lt_irreflexive(a.drop_first());
    }
}

pub proof fn lemma_text_lt_transitive(a: Seq<char>, b: Seq<char>, c: Seq<char>)
    requires
        text_lt(a, b),
        text_lt(b, c),
    ensures
        text_lt(a, c),
    decreases a.len(),
{
    if a.len() > 0 && b.len() > 0 && c.len() > 0 && a[0] == b[0] && b[0] == c[0] {
        lemma_text_lt_transitive(a.drop_first(), b.drop_first(), c.drop_first());
    }
}

pub proof fn lemma_text_lt_total(a: Seq<char>, b: Seq<char>)
    requires
        a != b,
    ensures
        text_lt(a, b) || text_lt(b, a),
    decreases a.len(),
{
    if a.len() > 0 && b.len() > 0 && a[0] == b[0] {
        if a.drop_first() == b.drop_first() {
            assert(a =~= seq![a[0]] + a.drop_first());
            assert(b =~= seq![b[0]] + b.drop_first());
        }
        lemma_text_lt_total(a.drop_first(), b.drop_first());
    } else if a.len() > 0 && b.len() > 0 {
        vstd::utf8::char_u32_cast(a[0], a[0] as u32);
        vstd::utf8::char_u32_cast(b[0], b[0] as u32);
        assert((a[0] as u32) != (b[0] as u32));
    } else if a.len() == 0 && b.len() == 0 {
        assert(a =~= b);
    }
}

proof fn lemma_text_lt_skip(a: Seq<char>, b: Seq<char>, i: int)
    requires
        0 <= i <= a.len(),
        i <= b.len(),
        forall|j: int| 0 <= j < i ==> a[j] == b[j],
    ensures
        text_lt(a, b) == text_lt(a.skip(i), b.skip(i)),
    decreases i,
{
    if i > 0 {
        assert(a[0] == b[0]);
        assert(text_lt(a, b) == text_lt(a.drop_first(), b.drop_first()));
        assert forall|j: int| 0 <= j < i - 1 implies a.drop_first()[j] == b.drop_first()[j] by {
            assert(a[j + 1] == b[j + 1]);
        }
        lemma_text_lt_skip(a.drop_first(), b.drop_first(), i - 1);
        assert(a.drop_first().skip(i - 1) =~= a.skip(i));
        assert(b.drop_first().skip(i - 1) =~= b.skip(i));
    } else {
        assert(a.skip(0) =~= a);
        assert(b.skip(0) =~= b);
    }
}

/// Whether `a` comes before `b` as texts.
fn text_less(a: &Vec<char>, b: &Vec<char>) -> (r: bool)
    ensures
        r == text_lt(a@, b@),
{
    let mut i: usize = 0;
    while i < a.len() && i < b.len()
        invariant
            i <= a@.len(),
            i <= b@.len(),
            forall|j: int| 0 <= j < i ==> a@[j] == b@[j],
        decreases a.len() - i,
    {
        if a[i] != b[i] {
            proof {
                lemma_text_lt_skip(a@, b@, i as int);
            }
            return (a[i] as u32) < (b[i] as u32);
        }
        i = i + 1;
    }
    proof {
        lemma_text_lt_skip(a@, b@, i as int);
    }
    i < b.len()
}

fn same_chars(a: &Vec<char>, b: &Vec<char>) -> (r: bool)
    ensures
        r == (a@ == b@),
{
    if a.len() != b.len() {
        return false;
    }
    let mut i: usize = 0;
    while i < a.len()
        invariant
            a@.len() == b@.len(),
            i <= a@.len(),
            forall|j: int| 0 <= j < i ==> a@[j] == b@[j],
        decreases a.len() - i,
    {
        if a[i] != b[i] {
            return false;
        }
        i = i + 1;
    }
    assert(a@ =~= b@);
    true
}

proof fn lemma_day_amounts_len(ts: Seq<TxnView>, k: Seq<char>, debit: bool)
    ensures
        day_amounts(ts, k, debit).len() <= ts.len(),
        day_amounts(ts, k, debit).len() == day_amounts(ts, k, !debit).len(),
        !days_of(ts).contains(k) ==> day_amounts(ts, k, debit).len() == 0,
    decreases ts.len(),
{
    if ts.len() > 0 {
        lemma_day_amounts_len(ts.drop_last(), k, debit);
    }
}

pub open spec fn chars_view(v: Seq<Vec<char>>) -> Seq<Seq<char>> {
    v.map_values(|c: Vec<char>| c@)
}

/// Whether the day sums of a prefix hold in the accumulators.
pub open spec fn tallies_hold(
    p: Seq<TxnView>,
    ks: Seq<Seq<char>>,
    debits: Seq<Money>,
    credits: Seq<Money>,
    counts: Seq<usize>,
) -> bool {
    &&& debits.len() == ks.len()
    &&& credits.len() == ks.len()
    &&& counts.len() == ks.len()
    &&& forall|a: int, b: int| 0 <= a < b < ks.len() ==> text_lt(#[trigger] ks[a], #[trigger] ks[b])
    &&& forall|k: Seq<char>| ks.contains(k) <==> #[trigger] days_of(p).contains(k)
    &&& forall|a: int| 0 <= a < ks.len() ==> #[trigger] counts[a] == day_amounts(p, ks[a], true).len()
    &&& forall|a: int|
        0 <= a < ks.len() && sum_fits(day_amounts(p, ks[a], true)) ==> (#[trigger] debits[a]).parts()
            == sum_of_parts(day_amounts(p, ks[a], true))
    &&& forall|a: int|
        0 <= a < ks.len() && sum_fits(day_amounts(p, ks[a], false)) ==> (#[trigger] credits[a]).parts()
            == sum_of_parts(day_amounts(p, ks[a], false))
}

/// The sum of a list of counts.
pub open spec fn total_count(counts: Seq<usize>) -> int
    decreases counts.len(),
{
    if counts.len() == 0 {
        0
    } else {
        total_count(counts.drop_last()) + counts.last()
    }
}

/// The sum of the counts of a list of day summaries.
pub open spec fn summary_count(r: Seq<DaySummary>) -> int {
    total_count(r.map_values(|d: DaySummary| d.count))
}

proof fn lemma_total_count_update(counts: Seq<usize>, x: int, v: usize)
    requires
        0 <= x < counts.len(),
    ensures
        total_count(counts.update(x, v)) == total_count(counts) - counts[x] + v,
    decreases counts.len(),
{
    if x < counts.len() - 1 {
        lemma_total_count_update(counts.drop_last(), x, v);
        assert(counts.update(x, v).drop_last() =~= counts.drop_last().update(x, v));
    } else {
        assert(counts.update(x, v).drop_last() =~= counts.drop_last());
    }
}

proof fn lemma_total_count_insert(counts: Seq<usize>, x: int, v: usize)
    requires
        0 <= x <= counts.len(),
    ensures
        total_count(counts.insert(x, v)) == total_count(counts) + v,
    decreases counts.len(),
{
    if x < counts.len() {
        lemma_total_count_insert(counts.drop_last(), x, v);
        assert(counts.insert(x, v).drop_last() =~= counts.drop_last().insert(x, v));
    } else {
        assert(counts.insert(x, v).drop_last() =~= counts);
    }
}

/// Whether every day's debits and credits add up exactly.
pub open spec fn day_sums_fit(ts: Seq<TxnView>) -> bool {
    forall|k: Seq<char>|
        #[trigger] days_of(ts).contains(k) ==> sum_fits(day_amounts(ts, k, true)) && sum_fits(
            day_amounts(ts, k, false),
        )
}

/// Whether a list of day summaries is the one of a journal: one entry per
/// day that occurs, in ascending order of the day's text, each with the
/// day's transaction count and, where they add up exactly, its totals.
pub open spec fn summarizes(ts: Seq<TxnView>, r: Seq<DaySummary>) -> bool {
    &&& forall|a: int, b: int| 0 <= a < b < r.len() ==> text_lt(#[trigger] r[a].date@, #[trigger] r[b].date@)
    &&& forall|k: Seq<char>| (exists|a: int| 0 <= a < r.len() && #[trigger] r[a].date@ == k) <==> #[trigger] days_of(
        ts,
    ).contains(k)
    &&& forall|a: int| 0 <= a < r.len() ==> #[trigger] r[a].count == day_amounts(ts, r[a].date@, true).len()
    &&& forall|a: int|
        0 <= a < r.len() && sum_fits(day_amounts(ts, (#[trigger] r[a]).date@, true)) ==> r[a].total_debit@
            == crate::money::parts_text(sum_of_parts(day_amounts(ts, r[a].date@, true)))
    &&& forall|a: int|
        0 <= a < r.len() && sum_fits(day_amounts(ts, (#[trigger] r[a]).date@, false)) ==> r[a].total_credit@
            == crate::money::parts_text(sum_of_parts(day_amounts(ts, r[a].date@, false)))
}

proof fn lemma_day_amounts_prefix(ts: Seq<TxnView>, m: int, k: Seq<char>, d: bool)
    requires
        0 <= m <= ts.len(),
    ensures
        day_amounts(ts.take(m), k, d).len() <= day_amounts(ts, k, d).len(),
        day_amounts(ts.take(m), k, d) =~= day_amounts(ts, k, d).subrange(
            0,
            day_amounts(ts.take(m), k, d).len() as int,
        ),
    decreases ts.len(),
{
    if m < ts.len() {
        assert(ts.drop_last().take(m) =~= ts.take(m));
        lemma_day_amounts_prefix(ts.drop_last(), m, k, d);
    } else {
        assert(ts.take(m) =~= ts);
    }
}

proof fn lemma_days_of_contains(ts: Seq<TxnView>, j: int)
    requires
        0 <= j < ts.len(),
    ensures
        days_of(ts).contains(day_key(ts[j])),
    decreases ts.len(),
{
    if j < ts.len() - 1 {
        lemma_days_of_contains(ts.drop_last(), j);
    }
}

/// Where every day's sums of a journal are exact, so are those of each of
/// its prefixes.
proof fn lemma_prefix_sums_fit(ts: Seq<TxnView>, m: int, j: int, d: bool)
    requires
        day_sums_fit(ts),
        0 <= j < m <= ts.len(),
    ensures
        sum_fits(day_amounts(ts.take(m), day_key(ts[j]), d)),
{
    let k = day_key(ts[j]);
    lemma_days_of_contains(ts, j);
    lemma_day_amounts_prefix(ts, m, k, d);
    crate::rule_engine::balance_check::lemma_sum_fits_prefix(
        day_amounts(ts, k, d),
        day_amounts(ts.take(m), k, d).len() as int,
    );
}

proof fn lemma_tally_step_other(p: Seq<TxnView>, t: TxnView, k: Seq<char>, debit: bool)
    requires
        day_key(t) != k,
    ensures
        day_amounts(p.push(t), k, debit) == day_amounts(p, k, debit),
{
    assert(p.push(t).drop_last() =~= p);
}

proof fn lemma_tally_step_same(p: Seq<TxnView>, t: TxnView, debit: bool)
    ensures
        day_amounts(p.push(t), day_key(t), debit) == day_amounts(p, day_key(t), debit).push(
            if debit {
                t.debit.parts()
            } else {
                t.credit.parts()
            },
        ),
        days_of(p.push(t)) == days_of(p).insert(day_key(t)),
{
    assert(p.push(t).drop_last() =~= p);
}

proof fn lemma_absent(ks: Seq<Seq<char>>, k: Seq<char>, x: int)
    requires
        forall|a: int, b: int| 0 <= a < b < ks.len() ==> text_lt(#[trigger] ks[a], #[trigger] ks[b]),
        0 <= x <= ks.len(),
        forall|y: int| 0 <= y < x ==> text_lt(#[trigger] ks[y], k),
        x < ks.len() ==> text_lt(k, ks[x]),
    ensures
        !ks.contains(k),
{
    if ks.contains(k) {
        let y = choose|y: int| 0 <= y < ks.len() && ks[y] == k;
        lemma_text_lt_irreflexive(k);
        if y > x {
            assert(text_lt(ks[x], ks[y]));
            lemma_text_lt_transitive(k, ks[x], ks[y]);
        }
    }
}

proof fn lemma_tally_found(
    p: Seq<TxnView>,
    t: TxnView,
    ks: Seq<Seq<char>>,
    debits: Seq<Money>,
    credits: Seq<Money>,
    counts: Seq<usize>,
    x: int,
    d: Money,
    c: Money,
    n: usize,
)
    requires
        tallies_hold(p, ks, debits, credits, counts),
        0 <= x < ks.len(),
        ks[x] == day_key(t),
        n == counts[x] + 1,
        debits[x].add_fits(t.debit) ==> d.parts() == add_parts(debits[x].parts(), t.debit.parts()),
        credits[x].add_fits(t.credit) ==> c.parts() == add_parts(credits[x].parts(), t.credit.parts()),
    ensures
        tallies_hold(p.push(t), ks, debits.update(x, d), credits.update(x, c), counts.update(x, n)),
{
    let p2 = p.push(t);
    let k = day_key(t);
    lemma_tally_step_same(p, t, true);
    lemma_tally_step_same(p, t, false);
    let ad = day_amounts(p, k, true);
    let ac = day_amounts(p, k, false);
    assert(ad.push(t.debit.parts()).drop_last() =~= ad);
    assert(ac.push(t.credit.parts()).drop_last() =~= ac);
    assert forall|a: int| 0 <= a < ks.len() && a != x implies day_amounts(p2, ks[a], true) == day_amounts(
        p,
        ks[a],
        true,
    ) && day_amounts(p2, ks[a], false) == day_amounts(p, ks[a], false) by {
        assert(ks[a] != ks[x]) by {
            if a < x {
                assert(text_lt(ks[a], ks[x]));
            } else {
                assert(text_lt(ks[x], ks[a]));
            }
            lemma_text_lt_irreflexive(ks[x]);
        }
        lemma_tally_step_other(p, t, ks[a], true);
        lemma_tally_step_other(p, t, ks[a], false);
    }
    assert forall|kk: Seq<char>| ks.contains(kk) <==> #[trigger] days_of(p2).contains(kk) by {
        if kk == k {
            assert(ks[x] == kk);
        }
    }
}

proof fn lemma_tally_inserted(
    p: Seq<TxnView>,
    t: TxnView,
    ks: Seq<Seq<char>>,
    debits: Seq<Money>,
    credits: Seq<Money>,
    counts: Seq<usize>,
    x: int,
    d: Money,
    c: Money,
)
    requires
        tallies_hold(p, ks, debits, credits, counts),
        0 <= x <= ks.len(),
        forall|y: int| 0 <= y < x ==> text_lt(#[trigger] ks[y], day_key(t)),
        x < ks.len() ==> text_lt(day_key(t), ks[x]),
        d.parts() == t.debit.parts(),
        c.parts() == t.credit.parts(),
    ensures
        tallies_hold(
            p.push(t),
            ks.insert(x, day_key(t)),
            debits.insert(x, d),
            credits.insert(x, c),
            counts.insert(x, 1),
        ),
{
    let p2 = p.push(t);
    let k = day_key(t);
    let ks2 = ks.insert(x, k);
    lemma_absent(ks, k, x);
    lemma_day_amounts_len(p, k, true);
    lemma_day_amounts_len(p, k, false);
    lemma_tally_step_same(p, t, true);
    lemma_tally_step_same(p, t, false);
    assert(day_amounts(p, k, true) =~= Seq::<Parts>::empty());
    assert(day_amounts(p, k, false) =~= Seq::<Parts>::empty());
    assert(day_amounts(p2, k, true) =~= seq![t.debit.parts()]);
    assert(day_amounts(p2, k, false) =~= seq![t.credit.parts()]);
    assert(seq![t.debit.parts()].drop_last() =~= Seq::<Parts>::empty());
    assert(seq![t.credit.parts()].drop_last() =~= Seq::<Parts>::empty());
    assert forall|a: int| 0 <= a < ks.len() implies day_amounts(p2, ks[a], true) == day_amounts(p, ks[a], true)
        && day_amounts(p2, ks[a], false) == day_amounts(p, ks[a], false) by {
        assert(ks.contains(ks[a]));
        lemma_tally_step_other(p, t, ks[a], true);
        lemma_tally_step_other(p, t, ks[a], false);
    }
    assert forall|a: int, b: int| 0 <= a < b < ks2.len() implies text_lt(#[trigger] ks2[a], #[trigger] ks2[b]) by {
        if b < x {
        } else if b == x {
        } else if a < x {
            assert(text_lt(ks[a], ks[b - 1]));
        } else if a == x {
            if b - 1 > x {
                lemma_text_lt_transitive(k, ks[x], ks[b - 1]);
            }
        } else {
        }
    }
    assert forall|kk: Seq<char>| ks2.contains(kk) <==> #[trigger] days_of(p2).contains(kk) by {
        if kk == k {
            assert(ks2[x] == kk);
        } else if ks.contains(kk) {
            let y = choose|y: int| 0 <= y < ks.len() && ks[y] == kk;
            if y < x {
                assert(ks2[y] == kk);
            } else {
                assert(ks2[y + 1] == kk);
            }
        } else if ks2.contains(kk) {
            let y = choose|y: int| 0 <= y < ks2.len() && ks2[y] == kk;
            if y < x {
                assert(ks[y] == kk);
            } else {
                assert(ks[y - 1] == kk);
            }
        }
    }
    let debits2 = debits.insert(x, d);
    let credits2 = credits.insert(x, c);
    let counts2 = counts.insert(x, 1usize);
    assert forall|a: int| 0 <= a < ks2.len() implies #[trigger] counts2[a] == day_amounts(p2, ks2[a], true).len() by {
        if a > x {
            assert(ks2[a] == ks[a - 1]);
        }
    }
    assert forall|a: int|
        0 <= a < ks2.len() && sum_fits(day_amounts(p2, ks2[a], true)) implies (#[trigger] debits2[a]).parts()
        == sum_of_parts(day_amounts(p2, ks2[a], true)) by {
        if a > x {
            assert(ks2[a] == ks[a - 1]);
        }
    }
    assert forall|a: int|
        0 <= a < ks2.len() && sum_fits(day_amounts(p2, ks2[a], false)) implies (#[trigger] credits2[a]).parts()
        == sum_of_parts(day_amounts(p2, ks2[a], false)) by {
        if a > x {
            assert(ks2[a] == ks[a - 1]);
        }
    }
}

/// The totals of each day of a journal, in ascending order of the day's
/// text; `None` where a day's total leaves the range of decimals.
pub fn summarize_by_date(transactions: &[Transaction]) -> (r: Option<Vec<DaySummary>>)
    ensures
        r matches Some(v) ==> summarizes(txns_view(transactions@), v@),
        r matches Some(v) ==> summary_count(v@) == transactions@.len(),
        day_sums_fit(txns_view(transactions@)) ==> r is Some,
{
    let ghost ts = txns_view(transactions@);
    let mut keys: Vec<Vec<char>> = Vec::new();
    let mut debits: Vec<Money> = Vec::new();
    let mut credits: Vec<Money> = Vec::new();
    let mut counts: Vec<usize> = Vec::new();
    let mut i: usize = 0;
    assert(ts.take(0) =~= Seq::<TxnView>::empty());
    while i < transactions.len()
        invariant
            ts == txns_view(transactions@),
            i <= transactions@.len(),
            tallies_hold(ts.take(i as int), chars_view(keys@), debits@, credits@, counts@),
            total_count(counts@) == i,
        decreases transactions.len() - i,
    {
        let t = &transactions[i];
        let ghost p = ts.take(i as int);
        let ghost p2 = ts.take(i + 1);
        assert(p2 =~= p.push(t@));
        assert(ts[i as int] == t@);
        let text = t.date.to_text();
        let k = chars_of(text.as_str());
        let ghost ks = chars_view(keys@);
        let mut x: usize = 0;
        let mut found = false;
        while x < keys.len()
            invariant_except_break
                x <= keys@.len(),
                !found,
                forall|y: int| 0 <= y < x ==> text_lt(#[trigger] chars_view(keys@)[y], k@),
            invariant
                ks == chars_view(keys@),
                x <= keys@.len(),
            ensures
                found ==> x < keys@.len() && ks[x as int] == k@,
                !found ==> x <= keys@.len() && (forall|y: int| 0 <= y < x ==> text_lt(#[trigger] ks[y], k@)) && (x
                    < keys@.len() ==> text_lt(k@, ks[x as int])),
            decreases keys.len() - x,
        {
            assert(ks[x as int] == keys@[x as int]@);
            if same_chars(&keys[x], &k) {
                found = true;
                break;
            }
            if text_less(&k, &keys[x]) {
                break;
            }
            proof {
                lemma_text_lt_total(ks[x as int], k@);
            }
            x = x + 1;
        }
        proof {
            if day_sums_fit(ts) {
                lemma_prefix_sums_fit(ts, i + 1, i as int, true);
                lemma_prefix_sums_fit(ts, i + 1, i as int, false);
                lemma_tally_step_same(p, t@, true);
                lemma_tally_step_same(p, t@, false);
                let ad = day_amounts(p, k@, true);
                let ac = day_amounts(p, k@, false);
                assert(ad.push(t@.debit.parts()).drop_last() =~= ad);
                assert(ac.push(t@.credit.parts()).drop_last() =~= ac);
                if found {
                    assert(debits@[x as int].parts() == sum_of_parts(ad));
                    assert(credits@[x as int].parts() == sum_of_parts(ac));
                }
            }
        }
        if found {
            let d = match debits[x].checked_add(&t.debit) {
                Some(m) => m,
                None => {
                    return None;
                },
            };
            let c = match credits[x].checked_add(&t.credit) {
                Some(m) => m,
                None => {
                    return None;
                },
            };
            proof {
                lemma_day_amounts_len(p, k@, true);
            }
            let n = counts[x] + 1;
            proof {
                lemma_tally_found(p, t@, ks, debits@, credits@, counts@, x as int, d, c, n);
                lemma_total_count_update(counts@, x as int, n);
            }
            debits.set(x, d);
            credits.set(x, c);
            counts.set(x, n);
        } else {
            let zero = Money::zero();
            let d = match zero.checked_add(&t.debit) {
                Some(m) => m,
                None => {
                    return None;
                },
            };
            let c = match zero.checked_add(&t.credit) {
                Some(m) => m,
                None => {
                    return None;
                },
            };
            proof {
                lemma_tally_inserted(p, t@, ks, debits@, credits@, counts@, x as int, d, c);
                lemma_total_count_insert(counts@, x as int, 1);
            }
            keys.insert(x, k);
            debits.insert(x, d);
            credits.insert(x, c);
            counts.insert(x, 1);
            assert(chars_view(keys@) =~= ks.insert(x as int, k@));
        }
        i = i + 1;
    }
    assert(ts.take(transactions@.len() as int) =~= ts);
    let mut out: Vec<DaySummary> = Vec::new();
    let mut j: usize = 0;
    while j < keys.len()
        invariant
            ts == txns_view(transactions@),
            tallies_hold(ts, chars_view(keys@), debits@, credits@, counts@),
            j <= keys@.len(),
            out@.len() == j,
            forall|a: int| 0 <= a < j ==> (#[trigger] out@[a]).date@ == chars_view(keys@)[a] && out@[a].count
                == counts@[a] && out@[a].total_debit@ == debits@[a].text() && out@[a].total_credit@
                == credits@[a].text(),
            out@.map_values(|d: DaySummary| d.count) =~= counts@.subrange(0, j as int),
        decreases keys.len() - j,
    {
        let s = DaySummary {
            date: string_of(keys[j].as_slice()),
            total_debit: debits[j].to_text(),
            total_credit: credits[j].to_text(),
            count: counts[j],
        };
        assert(chars_view(keys@)[j as int] == keys@[j as int]@);
        out.push(s);
        j = j + 1;
    }
    proof {
        assert(counts@.subrange(0, keys@.len() as int) =~= counts@);
        let ks = chars_view(keys@);
        assert forall|kk: Seq<char>| (exists|a: int| 0 <= a < out@.len() && #[trigger] out@[a].date@ == kk) <==> #[trigger] days_of(
            ts,
        ).contains(kk) by {
            if days_of(ts).contains(kk) {
                assert(ks.contains(kk));
                let y = choose|y: int| 0 <= y < ks.len() && ks[y] == kk;
                assert(out@[y].date@ == kk);
            }
            if exists|a: int| 0 <= a < out@.len() && #[trigger] out@[a].date@ == kk {
                let y = choose|a: int| 0 <= a < out@.len() && #[trigger] out@[a].date@ == kk;
                assert(ks[y] == kk);
            }
        }
    }
    Some(out)
}

/// The kind of database a request names: `mysql` or `postgres`.
pub fn database_type_of(name: &str) -> (r: Option<DatabaseType>)
    ensures
        name@ == "mysql"@ ==> r == Some(DatabaseType::MySQL),
        name@ == "postgres"@ ==> r == Some(DatabaseType::PostgreSQL),
        name@ != "mysql"@ && name@ != "postgres"@ ==> r is None,
{
    proof {
        reveal_strlit("mysql");
        reveal_strlit("postgres");
        assert("mysql"@.len() != "postgres"@.len());
    }
    if crate::text::str_eq(name, "mysql") {
        Some(DatabaseType::MySQL)
    } else if crate::text::str_eq(name, "postgres") {
        Some(DatabaseType::PostgreSQL)
    } else {
        None
    }
}

/// The connection URL for a database of the given kind.
pub open spec fn connection_url(
    db_type: DatabaseType,
    user: Seq<char>,
    password: Seq<char>,
    host: Seq<char>,
    database: Seq<char>,
) -> Seq<char> {
    let scheme = match db_type {
        DatabaseType::MySQL => "mysql://"@,
        DatabaseType::PostgreSQL => "postgres://"@,
    };
    scheme + user + ":"@ + password + "@"@ + host + "/"@ + database
}

/// The connection URL for a database of the given kind.
pub fn connection_string(db_type: DatabaseType, user: &str, password: &str, host: &str, database: &str) -> (r: String)
    ensures
        r@ == connection_url(db_type, user@, password@, host@, database@),
{
    let mut s = match db_type {
        DatabaseType::MySQL => String::from_str("mysql://"),
        DatabaseType::PostgreSQL => String::from_str("postgres://"),
    };
    push_str(&mut s, user);
    push_str(&mut s, ":");
    push_str(&mut s, password);
    push_str(&mut s, "@");
    push_str(&mut s, host);
    push_str(&mut s, "/");
    push_str(&mut s, database);
    s
}

pub open spec fn nonempty_text(o: Option<Seq<char>>) -> Option<Seq<char>> {
    match o {
        Some(s) => if s.len() > 0 {
            Some(s)
        } else {
            None
        },
        None => None,
    }
}

/// An optional text, with an empty text taken as none.
pub fn nonempty(o: Option<String>) -> (r: Option<String>)
    ensures
        crate::database::opt_text(r) == nonempty_text(crate::database::opt_text(o)),
{
    match o {
        Some(s) => if s.as_str().is_empty() {
            None
        } else {
            Some(s)
        },
        None => None,
    }
}

/// The AI settings of a request: DeepSeek's service and model where none
/// is given, and no key where none is given.
pub fn ai_config_from(api_url: Option<String>, api_key: Option<String>, model: Option<String>) -> (r: AiConfig)
    ensures
        r.api_url@ == match api_url {
            Some(u) => u@,
            None => "https://api.deepseek.com/v1/chat/completions"@,
        },
        r.api_key@ == match api_key {
            Some(k) => k@,
            None => Seq::empty(),
        },
        r.model@ == match model {
            Some(m) => m@,
            None => "deepseek-chat"@,
        },
{
    AiConfig {
        api_url: match api_url {
            Some(u) => u,
            None => String::from_str("https://api.deepseek.com/v1/chat/completions"),
        },
        api_key: match api_key {
            Some(k) => k,
            None => String::new(),
        },
        model: match model {
            Some(m) => m,
            None => String::from_str("deepseek-chat"),
        },
    }
}

/// The extension an upload is stored under: `.xlsx` for an Excel file name,
/// else `.csv`.
pub fn upload_extension(file_name: &str) -> (r: &'static str)
    ensures
        (ends_with(file_name@, ".xlsx"@) || ends_with(file_name@, ".xls"@)) ==> r@ == ".xlsx"@,
        !(ends_with(file_name@, ".xlsx"@) || ends_with(file_name@, ".xls"@)) ==> r@ == ".csv"@,
{
    if crate::text::str_ends_with(file_name, ".xlsx") || crate::text::str_ends_with(file_name, ".xls") {
        ".xlsx"
    } else {
        ".csv"
    }
}

} // verus!
