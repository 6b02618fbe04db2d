//! The date continuity rule: dates that go backwards in the journal's order,
//! and gaps between consecutive dates longer than a limit.
use super::{finding_of, make_finding, two_rows, AuditRule};
use crate::models::{findings_view, txns_view, AuditError, AuditFinding, FindingView, Severity, Transaction, TxnView};
use crate::money::{int_text, nat_text};
use crate::sort::{law_sort_by_key, sort_by_key, sort_rows_by_key};
use crate::text::{int_to_text, nat_to_text, push_str};
use vstd::prelude::*;

verus! {

/// Flags dates that go backwards and gaps longer than `max_gap_days`.
pub struct DateContinuityCheck {
    max_gap_days: i64,
}

pub open spec fn continuity_rule_name() -> Seq<char> {
    "日期连续性检查"@
}

/// The day numbers of the transactions' dates.
pub open spec fn day_keys(ts: Seq<TxnView>) -> Seq<i32> {
    ts.map_values(|t: TxnView| t.date.spec_days() as i32)
}

/// The rows `0..n`.
pub open spec fn all_rows(n: nat) -> Seq<usize> {
    Seq::new(n, |i: int| i as usize)
}

/// The transactions' positions ordered by date, equal dates in journal order.
pub open spec fn date_order(ts: Seq<TxnView>) -> Seq<usize> {
    sort_by_key(all_rows(ts.len()), day_keys(ts))
}

/// The message for a date that comes before the one on the line above.
pub open spec fn regression_message(cur: TxnView, prev: TxnView) -> Seq<char> {
    "第 "@ + nat_text(cur.row_index as nat) + " 行日期 "@ + cur.date.text() + " 早于第 "@ + nat_text(
        prev.row_index as nat,
    ) + " 行日期 "@ + prev.date.text() + "，存在时序倒退"@
}

/// The findings for dates that go backwards, over the lines `1..i`.
pub open spec fn regression_findings(ts: Seq<TxnView>, i: int) -> Seq<FindingView>
    decreases i,
{
    if i <= 1 {
        Seq::empty()
    } else {
        let prev = regression_findings(ts, i - 1);
        let cur = ts[i - 1];
        let before = ts[i - 2];
        if cur.date.spec_days() < before.date.spec_days() {
            prev.push(
                finding_of(
                    continuity_rule_name(),
                    Severity::Warning,
                    regression_message(cur, before),
                    seq![before.row_index, cur.row_index],
                ),
            )
        } else {
            prev
        }
    }
}

/// The message for a gap between two consecutive dates.
pub open spec fn gap_message(earlier: TxnView, later: TxnView, gap: int, max_gap: int) -> Seq<
    char,
> {
    "日期间断："@ + earlier.date.text() + " 到 "@ + later.date.text() + " 间隔 "@ + int_text(gap)
        + " 天（阈值 "@ + int_text(max_gap) + " 天）"@
}

/// The findings for gaps longer than `max_gap` between the dates at
/// positions `1..i` of `order` and the ones before them.
pub open spec fn gap_findings(ts: Seq<TxnView>, order: Seq<usize>, max_gap: int, i: int) -> Seq<
    FindingView,
>
    decreases i,
{
    if i <= 1 {
        Seq::empty()
    } else {
        let prev = gap_findings(ts, order, max_gap, i - 1);
        let later = ts[order[i - 1] as int];
        let earlier = ts[order[i - 2] as int];
        let gap = later.date.spec_days() - earlier.date.spec_days();
        if gap > max_gap {
            prev.push(
                finding_of(
                    continuity_rule_name(),
                    Severity::Warning,
                    gap_message(earlier, later, gap, max_gap),
                    seq![earlier.row_index, later.row_index],
                ),
            )
        } else {
            prev
        }
    }
}

/// The findings of the date continuity rule: the backwards dates in journal
/// order, then the gaps in date order; none for fewer than two lines.
pub open spec fn continuity_findings(ts: Seq<TxnView>, max_gap: int) -> Seq<FindingView> {
    if ts.len() < 2 {
        Seq::empty()
    } else {
        regression_findings(ts, ts.len() as int) + gap_findings(
            ts,
            date_order(ts),
            max_gap,
            ts.len() as int,
        )
    }
}

/// Whether `rows` names line `a - 1` and line `a`, whose date comes before
/// the one on the line above.
pub open spec fn backwards_at(ts: Seq<TxnView>, rows: Seq<usize>, a: int) -> bool {
    &&& 1 <= a < ts.len()
    &&& rows == seq![ts[a - 1].row_index, ts[a].row_index]
    &&& ts[a].date.spec_days() < ts[a - 1].date.spec_days()
}

/// Whether `rows` names transactions `a` and `b`, `b` dated more than
/// `max_gap` days after `a`, with no transaction of the journal dated
/// strictly between the two.
pub open spec fn gap_between(ts: Seq<TxnView>, rows: Seq<usize>, a: int, b: int, max_gap: int) -> bool {
    &&& 0 <= a < ts.len()
    &&& 0 <= b < ts.len()
    &&& rows == seq![ts[a].row_index, ts[b].row_index]
    &&& ts[b].date.spec_days() - ts[a].date.spec_days() > max_gap
    &&& forall|c: int|
        0 <= c < ts.len() ==> !(ts[a].date.spec_days() < #[trigger] ts[c].date.spec_days()
            < ts[b].date.spec_days())
}

/// Each finding for the lines `1..i` is a date that goes backwards.
proof fn lemma_regression_findings(ts: Seq<TxnView>, i: int)
    requires
        i <= ts.len(),
    ensures
        forall|k: int|
            #![trigger regression_findings(ts, i)[k]]
            0 <= k < regression_findings(ts, i).len() ==> exists|a: int|
                #[trigger] backwards_at(ts, regression_findings(ts, i)[k].related_rows, a),
    decreases i,
{
    if i > 1 {
        lemma_regression_findings(ts, i - 1);
        let prev = regression_findings(ts, i - 1);
        let cur = regression_findings(ts, i);
        assert forall|k: int| #![trigger cur[k]] 0 <= k < cur.len() implies exists|a: int|
            #[trigger] backwards_at(ts, cur[k].related_rows, a) by {
            if k < prev.len() {
                assert(cur[k] == prev[k]);
                let a = choose|a: int| #[trigger] backwards_at(ts, prev[k].related_rows, a);
                assert(backwards_at(ts, cur[k].related_rows, a));
            } else {
                assert(backwards_at(ts, cur[k].related_rows, i - 1));
            }
        }
    }
}

/// Whether `rows` are the rows of the neighbours `m - 2` and `m - 1` of
/// `order`, more than `max_gap` days apart.
spec fn gap_at(ts: Seq<TxnView>, order: Seq<usize>, max_gap: int, m: int, rows: Seq<usize>) -> bool {
    &&& 2 <= m <= order.len()
    &&& rows == seq![ts[order[m - 2] as int].row_index, ts[order[m - 1] as int].row_index]
    &&& ts[order[m - 1] as int].date.spec_days() - ts[order[m - 2] as int].date.spec_days() > max_gap
}

/// Each finding for the positions `1..i` of `order` is a gap between
/// neighbours.
proof fn lemma_gap_findings(ts: Seq<TxnView>, order: Seq<usize>, max_gap: int, i: int)
    requires
        i <= order.len(),
    ensures
        forall|k: int|
            #![trigger gap_findings(ts, order, max_gap, i)[k]]
            0 <= k < gap_findings(ts, order, max_gap, i).len() ==> exists|m: int|
                #[trigger] gap_at(ts, order, max_gap, m, gap_findings(ts, order, max_gap, i)[k].related_rows),
    decreases i,
{
    if i > 1 {
        lemma_gap_findings(ts, order, max_gap, i - 1);
        let prev = gap_findings(ts, order, max_gap, i - 1);
        let cur = gap_findings(ts, order, max_gap, i);
        assert forall|k: int| #![trigger cur[k]] 0 <= k < cur.len() implies exists|m: int|
            #[trigger] gap_at(ts, order, max_gap, m, cur[k].related_rows) by {
            if k < prev.len() {
                assert(cur[k] == prev[k]);
                let m = choose|m: int| #[trigger] gap_at(ts, order, max_gap, m, prev[k].related_rows);
                assert(gap_at(ts, order, max_gap, m, cur[k].related_rows));
            } else {
                assert(gap_at(ts, order, max_gap, i, cur[k].related_rows));
            }
        }
    }
}

/// Each finding of the date continuity rule is either a line whose date
/// comes before the one on the line above, or a gap of more than `max_gap`
/// days between two dates of the journal with no journal date strictly
/// between them: gaps are measured between neighbouring dates, whatever
/// the order of the lines.
pub proof fn law_continuity_findings_are_backward_dates_or_gaps(ts: Seq<TxnView>, max_gap: int)
    requires
        ts.len() <= usize::MAX,
    ensures
        forall|k: int|
            #![trigger continuity_findings(ts, max_gap)[k]]
            0 <= k < continuity_findings(ts, max_gap).len() ==> (exists|a: int|
                #[trigger] backwards_at(ts, continuity_findings(ts, max_gap)[k].related_rows, a)) || (exists|
                a: int,
                b: int,
            | #[trigger] gap_between(ts, continuity_findings(ts, max_gap)[k].related_rows, a, b, max_gap)),
{
    let n = ts.len() as int;
    let fs = continuity_findings(ts, max_gap);
    if n >= 2 {
        let order = date_order(ts);
        let dk = day_keys(ts);
        let reg = regression_findings(ts, n);
        let gaps = gap_findings(ts, order, max_gap, n);
        lemma_sort_len(all_rows(n as nat), dk);
        law_sort_by_key(all_rows(n as nat), dk);
        lemma_regression_findings(ts, n);
        lemma_gap_findings(ts, order, max_gap, n);
        assert(fs == reg + gaps);
        assert forall|k: int| #![trigger fs[k]] 0 <= k < fs.len() implies (exists|a: int|
            #[trigger] backwards_at(ts, fs[k].related_rows, a)) || (exists|a: int, b: int|
            #[trigger] gap_between(ts, fs[k].related_rows, a, b, max_gap)) by {
            if k < reg.len() {
                assert(fs[k] == reg[k]);
                let a = choose|a: int| #[trigger] backwards_at(ts, reg[k].related_rows, a);
                assert(backwards_at(ts, fs[k].related_rows, a));
            } else {
                let kk = k - reg.len();
                assert(fs[k] == gaps[kk]);
                let m = choose|m: int| #[trigger] gap_at(ts, order, max_gap, m, gaps[kk].related_rows);
                assert(all_rows(n as nat).contains(order[m - 2]));
                assert(all_rows(n as nat).contains(order[m - 1]));
                let a = order[m - 2] as int;
                let b = order[m - 1] as int;
                assert forall|c: int| 0 <= c < n implies !(ts[a].date.spec_days() < #[trigger] ts[c].date.spec_days()
                    < ts[b].date.spec_days()) by {
                    assert(all_rows(n as nat)[c] == c as usize);
                    assert(all_rows(n as nat).contains(c as usize));
                    vstd::seq_lib::to_multiset_contains(all_rows(n as nat), c as usize);
                    vstd::seq_lib::to_multiset_contains(order, c as usize);
                    let p = choose|p: int| 0 <= p < order.len() && order[p] == c as usize;
                    ts[a].date.lemma_days_fit();
                    ts[b].date.lemma_days_fit();
                    ts[c].date.lemma_days_fit();
                    assert(dk[a] == ts[a].date.spec_days() && dk[b] == ts[b].date.spec_days() && dk[c]
                        == ts[c].date.spec_days());
                    if p < m - 2 {
                        assert(dk[order[p] as int] <= dk[order[m - 2] as int]);
                    } else if p > m - 1 {
                        assert(dk[order[m - 1] as int] <= dk[order[p] as int]);
                    }
                }
                assert(gap_between(ts, fs[k].related_rows, a, b, max_gap));
            }
        }
    }
}

impl DateContinuityCheck {
    pub closed spec fn spec_max_gap_days(self) -> i64 {
        self.max_gap_days
    }

    pub fn new(max_gap_days: i64) -> (r: Self)
        ensures
            r.spec_max_gap_days() == max_gap_days,
    {
        DateContinuityCheck { max_gap_days }
    }
}

impl Default for DateContinuityCheck {
    /// The rule with a limit of 7 days.
    fn default() -> (r: Self)
        ensures
            r.spec_max_gap_days() == 7,
    {
        DateContinuityCheck { max_gap_days: 7 }
    }
}

fn regression_message_exec(cur: &Transaction, prev: &Transaction) -> (r: String)
    ensures
        r@ == regression_message(cur@, prev@),
{
    let mut s = String::new();
    push_str(&mut s, "第 ");
    let a = nat_to_text(cur.row_index as u64);
    push_str(&mut s, a.as_str());
    push_str(&mut s, " 行日期 ");
    let b = cur.date.to_text();
    push_str(&mut s, b.as_str());
    push_str(&mut s, " 早于第 ");
    let c = nat_to_text(prev.row_index as u64);
    push_str(&mut s, c.as_str());
    push_str(&mut s, " 行日期 ");
    let d = prev.date.to_text();
    push_str(&mut s, d.as_str());
    push_str(&mut s, "，存在时序倒退");
    s
}

fn gap_message_exec(earlier: &Transaction, later: &Transaction, gap: i64, max_gap: i64) -> (r:
    String)
    ensures
        r@ == gap_message(earlier@, later@, gap as int, max_gap as int),
{
    let mut s = String::new();
    push_str(&mut s, "日期间断：");
    let a = earlier.date.to_text();
    push_str(&mut s, a.as_str());
    push_str(&mut s, " 到 ");
    let b = later.date.to_text();
    push_str(&mut s, b.as_str());
    push_str(&mut s, " 间隔 ");
    let c = int_to_text(gap);
    push_str(&mut s, c.as_str());
    push_str(&mut s, " 天（阈值 ");
    let d = int_to_text(max_gap);
    push_str(&mut s, d.as_str());
    push_str(&mut s, " 天）");
    s
}

/// The day numbers of the transactions' dates.
pub fn day_numbers(transactions: &[Transaction]) -> (r: Vec<i32>)
    ensures
        r@ == day_keys(txns_view(transactions@)),
{
    let mut r: Vec<i32> = Vec::new();
    let mut i: usize = 0;
    while i < transactions.len()
        invariant
            i <= transactions@.len(),
            r@ =~= day_keys(txns_view(transactions@)).subrange(0, i as int),
        decreases transactions.len() - i,
    {
        let d = transactions[i].date.num_days_from_ce();
        r.push(d);
        i = i + 1;
    }
    r
}

/// The positions `0..n`.
pub fn row_range(n: usize) -> (r: Vec<usize>)
    ensures
        r@ == all_rows(n as nat),
{
    let mut r: Vec<usize> = Vec::new();
    let mut i: usize = 0;
    while i < n
        invariant
            i <= n,
            r@ =~= all_rows(n as nat).subrange(0, i as int),
        decreases n - i,
    {
        r.push(i);
        i = i + 1;
    }
    r
}

/// The transactions' positions ordered by date, equal dates in journal order.
pub fn order_by_date(transactions: &[Transaction]) -> (r: Vec<usize>)
    ensures
        r@ == date_order(txns_view(transactions@)),
{
    let days = day_numbers(transactions);
    let rows = row_range(transactions.len());
    sort_rows_by_key(&rows, &days)
}

pub proof fn lemma_sort_len(rows: Seq<usize>, key: Seq<i32>)
    ensures
        sort_by_key(rows, key).len() == rows.len(),
        forall|k: int|
            0 <= k < sort_by_key(rows, key).len() ==> rows.contains(#[trigger] sort_by_key(rows, key)[k]),
    decreases rows.len(),
{
    if rows.len() > 0 {
        lemma_sort_len(rows.drop_last(), key);
        lemma_insert_len(sort_by_key(rows.drop_last(), key), rows.last(), key);
        let s = sort_by_key(rows.drop_last(), key);
        assert forall|k: int| 0 <= k < sort_by_key(rows, key).len() implies rows.contains(
            #[trigger] sort_by_key(rows, key)[k],
        ) by {
            let v = sort_by_key(rows, key)[k];
            if v != rows.last() {
                assert(s.contains(v));
                let j = choose|j: int| 0 <= j < s.len() && s[j] == v;
                let m = choose|m: int| 0 <= m < rows.drop_last().len() && rows.drop_last()[m] == v;
                assert(rows[m] == v);
            } else {
                assert(rows[rows.len() - 1] == v);
            }
        }
    }
}

proof fn lemma_insert_len(s: Seq<usize>, x: usize, key: Seq<i32>)
    ensures
        crate::sort::insert_by_key(s, x, key).len() == s.len() + 1,
        forall|k: int|
            0 <= k < crate::sort::insert_by_key(s, x, key).len() ==> (
            #[trigger] crate::sort::insert_by_key(s, x, key)[k] == x || s.contains(
                crate::sort::insert_by_key(s, x, key)[k],
            )),
    decreases s.len(),
{
    if s.len() > 0 {
        lemma_insert_len(s.drop_last(), x, key);
        let r = crate::sort::insert_by_key(s, x, key);
        if !(key[s.last() as int] <= key[x as int]) {
            assert forall|k: int| 0 <= k < r.len() implies (#[trigger] r[k] == x || s.contains(
                r[k],
            )) by {
                if k < r.len() - 1 {
                    let v = r[k];
                    assert(v == crate::sort::insert_by_key(s.drop_last(), x, key)[k]);
                    if v != x {
                        let j = choose|j: int| 0 <= j < s.drop_last().len() && s.drop_last()[j] == v;
                        assert(s[j] == v);
                    }
                } else {
                    assert(s[s.len() - 1] == r[k]);
                }
            }
        } else {
            assert forall|k: int| 0 <= k < r.len() implies (#[trigger] r[k] == x || s.contains(
                r[k],
            )) by {
                if k < s.len() {
                    assert(s[k] == r[k]);
                }
            }
        }
    }
}

impl AuditRule for DateContinuityCheck {
    open spec fn check_outcome(&self, transactions: Seq<TxnView>, r: Result<Vec<AuditFinding>, AuditError>) -> bool {
        r is Ok && findings_view(r.unwrap()@) == continuity_findings(transactions, self.spec_max_gap_days() as int)
    }

    fn name(&self) -> (r: &'static str)
        ensures
            r@ == continuity_rule_name(),
    {
        "日期连续性检查"
    }

    fn description(&self) -> (r: &'static str)
        ensures
            r@ == "检测账目日期是否存在异常间断或时序错误"@,
    {
        "检测账目日期是否存在异常间断或时序错误"
    }

    fn check(&self, transactions: &[Transaction]) -> (r: Result<Vec<AuditFinding>, AuditError>)
        ensures
            r is Ok,
            findings_view(r.unwrap()@) == continuity_findings(
                txns_view(transactions@),
                self.spec_max_gap_days() as int,
            ),
    {
        let ghost ts = txns_view(transactions@);
        let mut findings: Vec<AuditFinding> = Vec::new();
        let n = transactions.len();
        if n < 2 {
            assert(findings_view(findings@) =~= continuity_findings(ts, self.spec_max_gap_days() as int));
            return Ok(findings);
        }
        let order = order_by_date(transactions);
        proof {
            lemma_sort_len(all_rows(n as nat), day_keys(ts));
        }
        let mut i: usize = 1;
        while i < n
            invariant
                n == transactions@.len() == ts.len(),
                ts == txns_view(transactions@),
                1 <= i <= n,
                findings_view(findings@) == regression_findings(ts, i as int),
            decreases n - i,
        {
            let cur = &transactions[i];
            let prev = &transactions[i - 1];
            assert(ts[i as int] == cur@);
            assert(ts[i - 1] == prev@);
            if cur.date.num_days_from_ce() < prev.date.num_days_from_ce() {
                let msg = regression_message_exec(cur, prev);
                let f = make_finding(
                    "日期连续性检查",
                    Severity::Warning,
                    msg,
                    two_rows(prev.row_index, cur.row_index),
                );
                findings.push(f);
                proof {
                    assert(findings_view(findings@) =~= findings_view(findings@.drop_last()).push(
                        f@,
                    ));
                }
            }
            i = i + 1;
        }
        let ghost first_part = findings_view(findings@);
        let mut gaps: Vec<AuditFinding> = Vec::new();
        let mut j: usize = 1;
        while j < n
            invariant
                n == transactions@.len() == ts.len(),
                ts == txns_view(transactions@),
                order@ == date_order(ts),
                order@.len() == n,
                forall|k: int| 0 <= k < n ==> all_rows(n as nat).contains(#[trigger] order@[k]),
                1 <= j <= n,
                findings_view(gaps@) == gap_findings(ts, order@, self.max_gap_days as int, j as int),
            decreases n - j,
        {
            let a = order[j - 1];
            let b = order[j];
            proof {
                assert(all_rows(n as nat).contains(order@[j - 1]));
                assert(all_rows(n as nat).contains(order@[j as int]));
            }
            assert(a < n);
            assert(b < n);
            let earlier = &transactions[a];
            let later = &transactions[b];
            assert(ts[a as int] == earlier@);
            assert(ts[b as int] == later@);
            let gap: i64 = later.date.num_days_from_ce() as i64 - earlier.date.num_days_from_ce() as i64;
            if gap > self.max_gap_days {
                let msg = gap_message_exec(earlier, later, gap, self.max_gap_days);
                let f = make_finding(
                    "日期连续性检查",
                    Severity::Warning,
                    msg,
                    two_rows(earlier.row_index, later.row_index),
                );
                gaps.push(f);
                proof {
                    assert(findings_view(gaps@) =~= findings_view(gaps@.drop_last()).push(f@));
                }
            }
            j = j + 1;
        }
        let ghost second_part = findings_view(gaps@);
        findings.append(&mut gaps);
        proof {
            assert(findings_view(findings@) =~= first_part + second_part);
        }
        Ok(findings)
    }
}

} // verus!
