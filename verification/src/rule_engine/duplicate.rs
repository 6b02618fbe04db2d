//! The duplicate rule: transactions with the same account and amounts whose
//! dates lie within a time window of each other.
use super::date_continuity::{day_keys, day_numbers, lemma_sort_len};
use super::{finding_of, make_finding, two_rows, AuditRule};
use crate::group::{group_rows, group_spec, groups_view, groups_wf, keys_view, lemma_group_members, lemma_group_spec_wf, KeyView, RowKey};
use crate::models::{
    amounts_valid, findings_view, txns_view, AuditError, AuditFinding, DuplicateConfig, FindingView, Severity,
    Transaction, TxnView,
};
use crate::money::{int_text, lemma_same_normal_same_value, nat_text, normal_parts};
use crate::sort::{law_sort_by_key, sort_by_key, sort_rows_by_key};
use crate::text::{int_to_text, nat_to_text, push_str};
use vstd::prelude::*;

verus! {

/// Flags pairs of transactions with the same account, debit and credit
/// whose dates are at most `time_window_days` apart.
pub struct DuplicateCheck {
    time_window_days: i64,
}

pub open spec fn duplicate_rule_name() -> Seq<char> {
    "重复交易识别"@
}

/// The grouping key of a transaction: its account code and the values of
/// its debit and credit, each as its normal parts (so 1000 and 1000.00 give
/// the same key).
pub open spec fn duplicate_key(t: TxnView) -> KeyView {
    let d = normal_parts(t.debit.parts());
    let c = normal_parts(t.credit.parts());
    (seq![t.account_code], seq![d.0, d.1 as int, c.0, c.1 as int])
}

pub open spec fn duplicate_keys(ts: Seq<TxnView>) -> Seq<KeyView> {
    ts.map_values(|t: TxnView| duplicate_key(t))
}

/// The message for two suspected duplicates.
pub open spec fn duplicate_message(first: TxnView, second: TxnView, days: int) -> Seq<char> {
    "疑似重复交易：第 "@ + nat_text(first.row_index as nat) + " 行与第 "@ + nat_text(
        second.row_index as nat,
    ) + " 行（科目 "@ + second.account_code + "，金额 借:"@ + second.debit.text() + "/贷:"@
        + second.credit.text() + "，日期间隔 "@ + int_text(days) + " 天）"@
}

/// The findings for the neighbours at positions `1..i` of `sorted` that are
/// at most `window` days apart.
pub open spec fn duplicate_pairs(ts: Seq<TxnView>, sorted: Seq<usize>, window: int, i: int) -> Seq<
    FindingView,
>
    decreases i,
{
    if i <= 1 {
        Seq::empty()
    } else {
        let prev = duplicate_pairs(ts, sorted, window, i - 1);
        let second = ts[sorted[i - 1] as int];
        let first = ts[sorted[i - 2] as int];
        let days = second.date.spec_days() - first.date.spec_days();
        if days <= window {
            prev.push(
                finding_of(
                    duplicate_rule_name(),
                    Severity::Warning,
                    duplicate_message(first, second, days),
                    seq![first.row_index, second.row_index],
                ),
            )
        } else {
            prev
        }
    }
}

/// The findings of the groups `0..g`, each group sorted by date.
pub open spec fn duplicate_group_findings(
    ts: Seq<TxnView>,
    groups: Seq<Seq<usize>>,
    window: int,
    g: int,
) -> Seq<FindingView>
    decreases g,
{
    if g <= 0 {
        Seq::empty()
    } else {
        let sorted = sort_by_key(groups[g - 1], day_keys(ts));
        duplicate_group_findings(ts, groups, window, g - 1) + duplicate_pairs(
            ts,
            sorted,
            window,
            sorted.len() as int,
        )
    }
}

/// The findings of the duplicate rule: per group of equal keys, in order of
/// first appearance, the close neighbours in date order.
pub open spec fn duplicate_findings(ts: Seq<TxnView>, window: int) -> Seq<FindingView> {
    let groups = group_spec(duplicate_keys(ts));
    duplicate_group_findings(ts, groups, window, groups.len() as int)
}

/// Whether `rows` are the rows of the neighbours `m - 2` and `m - 1` of
/// `sorted`, at most `window` days apart.
spec fn neighbours_at(ts: Seq<TxnView>, sorted: Seq<usize>, window: int, m: int, rows: Seq<usize>) -> bool {
    &&& 2 <= m <= sorted.len()
    &&& rows == seq![ts[sorted[m - 2] as int].row_index, ts[sorted[m - 1] as int].row_index]
    &&& ts[sorted[m - 1] as int].date.spec_days() - ts[sorted[m - 2] as int].date.spec_days() <= window
}

/// Each finding for the neighbours at positions `1..i` of `sorted` is the
/// pair of some neighbours at most `window` days apart.
proof fn lemma_duplicate_pairs_adjacent(ts: Seq<TxnView>, sorted: Seq<usize>, window: int, i: int)
    requires
        i <= sorted.len(),
    ensures
        forall|k: int|
            #![trigger duplicate_pairs(ts, sorted, window, i)[k]]
            0 <= k < duplicate_pairs(ts, sorted, window, i).len() ==> exists|m: int|
                #[trigger] neighbours_at(ts, sorted, window, m, duplicate_pairs(ts, sorted, window, i)[k].related_rows),
    decreases i,
{
    if i > 1 {
        lemma_duplicate_pairs_adjacent(ts, sorted, window, i - 1);
        let prev = duplicate_pairs(ts, sorted, window, i - 1);
        let cur = duplicate_pairs(ts, sorted, window, i);
        assert forall|k: int| #![trigger cur[k]] 0 <= k < cur.len() implies exists|m: int|
            #[trigger] neighbours_at(ts, sorted, window, m, cur[k].related_rows) by {
            if k < prev.len() {
                assert(cur[k] == prev[k]);
                let m = choose|m: int| #[trigger] neighbours_at(ts, sorted, window, m, prev[k].related_rows);
                assert(neighbours_at(ts, sorted, window, m, cur[k].related_rows));
            } else {
                assert(neighbours_at(ts, sorted, window, i, cur[k].related_rows));
            }
        }
    }
}

/// Each finding of the groups `0..g` is the pair of neighbours of one group
/// sorted by date.
proof fn lemma_duplicate_findings_from_groups(ts: Seq<TxnView>, groups: Seq<Seq<usize>>, window: int, g: int)
    requires
        0 <= g <= groups.len(),
    ensures
        forall|k: int|
            #![trigger duplicate_group_findings(ts, groups, window, g)[k]]
            0 <= k < duplicate_group_findings(ts, groups, window, g).len() ==> exists|x: int, m: int|
                0 <= x < g && #[trigger] neighbours_at(
                    ts,
                    sort_by_key(groups[x], day_keys(ts)),
                    window,
                    m,
                    duplicate_group_findings(ts, groups, window, g)[k].related_rows,
                ),
    decreases g,
{
    if g > 0 {
        lemma_duplicate_findings_from_groups(ts, groups, window, g - 1);
        let prev = duplicate_group_findings(ts, groups, window, g - 1);
        let sorted = sort_by_key(groups[g - 1], day_keys(ts));
        let here = duplicate_pairs(ts, sorted, window, sorted.len() as int);
        let cur = duplicate_group_findings(ts, groups, window, g);
        lemma_duplicate_pairs_adjacent(ts, sorted, window, sorted.len() as int);
        assert(cur == prev + here);
        assert forall|k: int| #![trigger cur[k]] 0 <= k < cur.len() implies exists|x: int, m: int|
            0 <= x < g && #[trigger] neighbours_at(ts, sort_by_key(groups[x], day_keys(ts)), window, m, cur[k].related_rows) by {
            if k < prev.len() {
                assert(cur[k] == prev[k]);
                let (x, m) = choose|x: int, m: int|
                    0 <= x < g - 1 && #[trigger] neighbours_at(ts, sort_by_key(groups[x], day_keys(ts)), window, m, prev[k].related_rows);
                assert(neighbours_at(ts, sort_by_key(groups[x], day_keys(ts)), window, m, cur[k].related_rows));
            } else {
                let kk = k - prev.len();
                assert(cur[k] == here[kk]);
                let m = choose|m: int| #[trigger] neighbours_at(ts, sorted, window, m, here[kk].related_rows);
                assert(neighbours_at(ts, sort_by_key(groups[g - 1], day_keys(ts)), window, m, cur[k].related_rows));
            }
        }
    }
}

/// Whether `rows` names transactions `a` and `b`, of the same account and
/// with debits and credits of the same value, `b` dated no earlier than `a`
/// and at most `window` days later.
pub open spec fn duplicate_pair(ts: Seq<TxnView>, rows: Seq<usize>, a: int, b: int, window: int) -> bool {
    &&& 0 <= a < ts.len()
    &&& 0 <= b < ts.len()
    &&& rows == seq![ts[a].row_index, ts[b].row_index]
    &&& ts[a].account_code == ts[b].account_code
    &&& ts[a].debit.units() == ts[b].debit.units()
    &&& ts[a].credit.units() == ts[b].credit.units()
    &&& 0 <= ts[b].date.spec_days() - ts[a].date.spec_days() <= window
}

/// Each duplicate finding names two transactions of the same account whose
/// debits have the same value and whose credits have the same value, the
/// second dated at most `window` days after the first: transactions with
/// different amounts are never reported as duplicates.
pub proof fn law_duplicates_share_account_and_amounts(ts: Seq<TxnView>, window: int)
    requires
        ts.len() <= usize::MAX,
        amounts_valid(ts),
    ensures
        forall|k: int|
            #![trigger duplicate_findings(ts, window)[k]]
            0 <= k < duplicate_findings(ts, window).len() ==> exists|a: int, b: int|
                #[trigger] duplicate_pair(ts, duplicate_findings(ts, window)[k].related_rows, a, b, window),
{
    let keys = duplicate_keys(ts);
    let groups = group_spec(keys);
    let fs = duplicate_findings(ts, window);
    let dk = day_keys(ts);
    lemma_group_spec_wf(keys);
    lemma_duplicate_findings_from_groups(ts, groups, window, groups.len() as int);
    assert forall|k: int| #![trigger fs[k]] 0 <= k < fs.len() implies exists|a: int, b: int|
        #[trigger] duplicate_pair(ts, fs[k].related_rows, a, b, window) by {
        assert(fs[k] == duplicate_group_findings(ts, groups, window, groups.len() as int)[k]);
        let (x, m) = choose|x: int, m: int|
            0 <= x < groups.len() && #[trigger] neighbours_at(ts, sort_by_key(groups[x], day_keys(ts)), window, m, fs[k].related_rows);
        let sorted = sort_by_key(groups[x], dk);
        lemma_sort_len(groups[x], dk);
        law_sort_by_key(groups[x], dk);
        assert(groups[x].contains(sorted[m - 2]));
        assert(groups[x].contains(sorted[m - 1]));
        let pa = sorted[m - 2];
        let pb = sorted[m - 1];
        assert(groups[x].contains(pa) && groups[x].contains(pb));
        let a = pa as int;
        let b = pb as int;
        assert(a < ts.len() && b < ts.len());
        lemma_group_members(keys, x, a);
        lemma_group_members(keys, x, b);
        assert(keys[a] == keys[b]);
        assert(keys[a] == duplicate_key(ts[a]) && keys[b] == duplicate_key(ts[b]));
        assert(ts[a].account_code == duplicate_key(ts[a]).0[0]);
        assert(ts[b].account_code == duplicate_key(ts[b]).0[0]);
        assert(ts[a].debit.inv() && ts[a].credit.inv() && ts[b].debit.inv() && ts[b].credit.inv());
        let da = normal_parts(ts[a].debit.parts());
        let db = normal_parts(ts[b].debit.parts());
        let ca = normal_parts(ts[a].credit.parts());
        let cb = normal_parts(ts[b].credit.parts());
        assert(duplicate_key(ts[a]).1[0] == da.0 && duplicate_key(ts[a]).1[1] == da.1 as int);
        assert(duplicate_key(ts[b]).1[0] == db.0 && duplicate_key(ts[b]).1[1] == db.1 as int);
        assert(duplicate_key(ts[a]).1[2] == ca.0 && duplicate_key(ts[a]).1[3] == ca.1 as int);
        assert(duplicate_key(ts[b]).1[2] == cb.0 && duplicate_key(ts[b]).1[3] == cb.1 as int);
        assert(da == db && ca == cb);
        lemma_same_normal_same_value(ts[a].debit, ts[b].debit);
        lemma_same_normal_same_value(ts[a].credit, ts[b].credit);
        assert(dk[a] <= dk[b]) by {
            assert(dk[sorted[m - 2] as int] <= dk[sorted[m - 1] as int]);
        }
        ts[a].date.lemma_days_fit();
        ts[b].date.lemma_days_fit();
        assert(dk[a] == ts[a].date.spec_days() && dk[b] == ts[b].date.spec_days());
        assert(duplicate_pair(ts, fs[k].related_rows, a, b, window));
    }
}

impl DuplicateCheck {
    pub closed spec fn spec_time_window_days(self) -> i64 {
        self.time_window_days
    }

    /// The rule with the configured window, 1 day by default.
    pub fn from_config(config: &DuplicateConfig) -> (r: Self)
        ensures
            r.spec_time_window_days() == match config.time_window_days {
                Some(w) => w,
                None => 1,
            },
    {
        DuplicateCheck {
            time_window_days: match config.time_window_days {
                Some(w) => w,
                None => 1,
            },
        }
    }

    pub fn new(time_window_days: i64) -> (r: Self)
        ensures
            r.spec_time_window_days() == time_window_days,
    {
        DuplicateCheck { time_window_days }
    }
}

fn duplicate_message_exec(first: &Transaction, second: &Transaction, days: i64) -> (r: String)
    ensures
        r@ == duplicate_message(first@, second@, days as int),
{
    let mut s = String::new();
    push_str(&mut s, "疑似重复交易：第 ");
    let a = nat_to_text(first.row_index as u64);
    push_str(&mut s, a.as_str());
    push_str(&mut s, " 行与第 ");
    let b = nat_to_text(second.row_index as u64);
    push_str(&mut s, b.as_str());
    push_str(&mut s, " 行（科目 ");
    push_str(&mut s, second.account_code.as_str());
    push_str(&mut s, "，金额 借:");
    let c = second.debit.to_text();
    push_str(&mut s, c.as_str());
    push_str(&mut s, "/贷:");
    let d = second.credit.to_text();
    push_str(&mut s, d.as_str());
    push_str(&mut s, "，日期间隔 ");
    let e = int_to_text(days);
    push_str(&mut s, e.as_str());
    push_str(&mut s, " 天）");
    s
}

fn duplicate_key_exec(t: &Transaction) -> (k: RowKey)
    ensures
        k.key_view() == duplicate_key(t@),
{
    let mut words: Vec<String> = Vec::new();
    words.push(t.account_code.clone());
    let mut numbers: Vec<i128> = Vec::new();
    let d = t.debit.normalized();
    let c = t.credit.normalized();
    numbers.push(d.0);
    numbers.push(d.1 as i128);
    numbers.push(c.0);
    numbers.push(c.1 as i128);
    let k = RowKey { words, numbers };
    assert(k.key_view().0 =~= duplicate_key(t@).0);
    assert(k.key_view().1 =~= duplicate_key(t@).1);
    k
}

/// The grouping keys of the transactions.
fn duplicate_keys_exec(transactions: &[Transaction]) -> (r: Vec<RowKey>)
    ensures
        keys_view(r@) == duplicate_keys(txns_view(transactions@)),
{
    let mut r: Vec<RowKey> = Vec::new();
    let mut i: usize = 0;
    while i < transactions.len()
        invariant
            i <= transactions@.len(),
            keys_view(r@) =~= duplicate_keys(txns_view(transactions@)).subrange(0, i as int),
        decreases transactions.len() - i,
    {
        let k = duplicate_key_exec(&transactions[i]);
        let ghost old_r = r@;
        r.push(k);
        proof {
            assert(keys_view(r@) =~= keys_view(old_r).push(k.key_view()));
            assert(txns_view(transactions@)[i as int] == transactions@[i as int]@);
        }
        i = i + 1;
    }
    r
}

impl AuditRule for DuplicateCheck {
    open spec fn check_outcome(&self, transactions: Seq<TxnView>, r: Result<Vec<AuditFinding>, AuditError>) -> bool {
        r is Ok && findings_view(r.unwrap()@) == duplicate_findings(transactions, self.spec_time_window_days() as int)
    }

    fn name(&self) -> (r: &'static str)
        ensures
            r@ == duplicate_rule_name(),
    {
        "重复交易识别"
    }

    fn description(&self) -> (r: &'static str)
        ensures
            r@ == "基于日期+金额+科目组合检测疑似重复记录"@,
    {
        "基于日期+金额+科目组合检测疑似重复记录"
    }

    fn check(&self, transactions: &[Transaction]) -> (r: Result<Vec<AuditFinding>, AuditError>)
        ensures
            r is Ok,
            findings_view(r.unwrap()@) == duplicate_findings(
                txns_view(transactions@),
                self.spec_time_window_days() as int,
            ),
    {
        let ghost ts = txns_view(transactions@);
        let n = transactions.len();
        let keys = duplicate_keys_exec(transactions);
        let groups = group_rows(&keys);
        let days = day_numbers(transactions);
        let ghost gs = groups_view(groups@);
        proof {
            lemma_group_spec_wf(duplicate_keys(ts));
        }
        let mut findings: Vec<AuditFinding> = Vec::new();
        let mut g: usize = 0;
        while g < groups.len()
            invariant
                n == transactions@.len() == ts.len() == days@.len(),
                ts == txns_view(transactions@),
                days@ == day_keys(ts),
                gs == groups_view(groups@),
                gs == group_spec(duplicate_keys(ts)),
                groups_wf(gs, n as int),
                g <= groups@.len(),
                findings_view(findings@) == duplicate_group_findings(ts, gs, self.time_window_days as int, g as int),
            decreases groups.len() - g,
        {
            assert(gs[g as int] == groups@[g as int]@);
            assert(gs[g as int].len() > 0);
            let sorted = sort_rows_by_key(&groups[g], &days);
            proof {
                lemma_sort_len(gs[g as int], day_keys(ts));
            }
            let ghost before = findings_view(findings@);
            let mut pairs: Vec<AuditFinding> = Vec::new();
            let mut i: usize = 1;
            while i < sorted.len()
                invariant
                    n == transactions@.len() == ts.len(),
                    ts == txns_view(transactions@),
                    sorted@ == sort_by_key(gs[g as int], day_keys(ts)),
                    forall|k: int| 0 <= k < sorted@.len() ==> #[trigger] sorted@[k] < n,
                    1 <= i <= sorted@.len() || sorted@.len() == 0,
                    findings_view(pairs@) == duplicate_pairs(ts, sorted@, self.time_window_days as int, i as int),
                decreases sorted.len() - i,
            {
                let a = sorted[i - 1];
                let b = sorted[i];
                let first = &transactions[a];
                let second = &transactions[b];
                assert(ts[a as int] == first@);
                assert(ts[b as int] == second@);
                let dd: i64 = second.date.num_days_from_ce() as i64 - first.date.num_days_from_ce() as i64;
                if dd <= self.time_window_days {
                    let msg = duplicate_message_exec(first, second, dd);
                    let f = make_finding(
                        "重复交易识别",
                        Severity::Warning,
                        msg,
                        two_rows(first.row_index, second.row_index),
                    );
                    pairs.push(f);
                    proof {
                        assert(findings_view(pairs@) =~= findings_view(pairs@.drop_last()).push(f@));
                    }
                }
                i = i + 1;
            }
            let ghost added = findings_view(pairs@);
            assert(added == duplicate_pairs(ts, sorted@, self.time_window_days as int, sorted@.len() as int));
            findings.append(&mut pairs);
            proof {
                assert(findings_view(findings@) =~= before + added);
            }
            g = g + 1;
        }
        Ok(findings)
    }
}

} // verus!
