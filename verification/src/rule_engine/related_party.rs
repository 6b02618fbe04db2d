//! The related party rule's exact parts: the same amount recurring on one
//! day (money going round), account pairs that meet often across vouchers,
//! and which transactions fall in the last days of their month.
use super::balance_check::{voucher_key, voucher_keys};
use super::{finding_of, make_finding};
use crate::date::{days_in_month, Date};
use crate::group::{group_rows, group_spec, groups_view, groups_wf, keys_view, lemma_group_members, lemma_group_spec_wf, KeyView, RowKey};
use crate::models::{amounts_valid, findings_view, max_amount, txns_view, AuditFinding, FindingView, Severity, Transaction, TxnView};
use crate::money::{lemma_same_normal_same_value, nat_text, normal_parts, Money};
use crate::text::{nat_to_text, push_str};
use vstd::prelude::*;

verus! {

/// The last day of a month; 30 for a number that is no month.
pub fn last_day_of_month(year: i32, month: u32) -> (d: u32)
    ensures
        d == days_in_month(year as int, month as int),
{
    match month {
        1 | 3 | 5 | 7 | 8 | 10 | 12 => 31,
        2 => {
            if (year % 4 == 0 && year % 100 != 0) || (year % 400 == 0) {
                29
            } else {
                28
            }
        },
        _ => 30,
    }
}

/// The exact settings of the related party rule: how often an amount must
/// recur on one day, and how many days at the end of a month count as its end.
pub struct RelatedPartyCheck {
    min_round_trip_count: usize,
    period_end_days: u32,
}

pub open spec fn round_trip_rule_name() -> Seq<char> {
    "关联交易-资金回流"@
}

pub open spec fn frequent_pair_rule_name() -> Seq<char> {
    "关联交易-高频科目对"@
}

/// Whether a date lies in the last `n` days of its month.
pub open spec fn in_period_end(date: Date, n: nat) -> bool {
    let last = days_in_month(date.spec_year(), date.spec_month());
    date.spec_day() > (if last >= n { last - n } else { 0 })
}

/// The positions, below `i`, of transactions with a non-zero larger amount.
pub open spec fn nonzero_positions(ts: Seq<TxnView>, i: int) -> Seq<usize>
    decreases i,
{
    if i <= 0 {
        Seq::empty()
    } else if max_amount(ts[i - 1]).units() != 0 {
        nonzero_positions(ts, i - 1).push((i - 1) as usize)
    } else {
        nonzero_positions(ts, i - 1)
    }
}

/// A day and an amount's value, as its normal parts.
pub open spec fn day_amount_key(t: TxnView) -> KeyView {
    let a = normal_parts(max_amount(t).parts());
    (Seq::empty(), seq![t.date.spec_days(), a.0, a.1 as int])
}

pub open spec fn day_amount_keys(ts: Seq<TxnView>, pos: Seq<usize>) -> Seq<KeyView> {
    pos.map_values(|p: usize| day_amount_key(ts[p as int]))
}

pub open spec fn positions_rows(ts: Seq<TxnView>, pos: Seq<usize>, group: Seq<usize>) -> Seq<usize> {
    group.map_values(|j: usize| ts[pos[j as int] as int].row_index)
}

pub open spec fn round_trip_message(t: TxnView, count: nat) -> Seq<char> {
    t.date.text() + "日金额 "@ + max_amount(t).text() + " 出现 "@ + nat_text(count) + " 次，可能存在资金回流"@
}

pub open spec fn round_trip_group_findings(
    ts: Seq<TxnView>,
    pos: Seq<usize>,
    groups: Seq<Seq<usize>>,
    min_count: nat,
    g: int,
) -> Seq<FindingView>
    decreases g,
{
    if g <= 0 {
        Seq::empty()
    } else {
        let prev = round_trip_group_findings(ts, pos, groups, min_count, g - 1);
        let group = groups[g - 1];
        if group.len() >= min_count {
            prev.push(
                finding_of(
                    round_trip_rule_name(),
                    Severity::Warning,
                    round_trip_message(ts[pos[group[0] as int] as int], group.len()),
                    positions_rows(ts, pos, group),
                ),
            )
        } else {
            prev
        }
    }
}

/// One warning per day and amount that recurs at least `min_count` times,
/// in order of first appearance.
pub open spec fn round_trip_findings(ts: Seq<TxnView>, min_count: nat) -> Seq<FindingView> {
    let pos = nonzero_positions(ts, ts.len() as int);
    let groups = group_spec(day_amount_keys(ts, pos));
    round_trip_group_findings(ts, pos, groups, min_count, groups.len() as int)
}

/// The positions of the non-zero transactions are positions of the
/// journal, and their transactions have a non-zero larger amount.
proof fn lemma_nonzero_positions(ts: Seq<TxnView>, i: int)
    requires
        0 <= i <= ts.len(),
        i <= usize::MAX,
    ensures
        nonzero_positions(ts, i).len() <= i,
        forall|k: int|
            0 <= k < nonzero_positions(ts, i).len() ==> #[trigger] nonzero_positions(ts, i)[k] < i && max_amount(
                ts[nonzero_positions(ts, i)[k] as int],
            ).units() != 0,
    decreases i,
{
    if i > 0 {
        lemma_nonzero_positions(ts, i - 1);
        let prev = nonzero_positions(ts, i - 1);
        let cur = nonzero_positions(ts, i);
        if max_amount(ts[i - 1]).units() != 0 {
            assert(cur == prev.push((i - 1) as usize));
        } else {
            assert(cur == prev);
        }
        assert forall|k: int| 0 <= k < cur.len() implies #[trigger] cur[k] < i && max_amount(ts[cur[k] as int]).units()
            != 0 by {
            if k < prev.len() {
                assert(cur[k] == prev[k]);
                assert(prev[k] < i - 1 && max_amount(ts[prev[k] as int]).units() != 0);
            } else {
                assert(cur[k] == i - 1);
            }
        }
    }
}

/// Each round-trip finding of the first `g` groups lists the rows of one
/// of them, a group of at least `min_count` positions.
proof fn lemma_round_trip_from_groups(
    ts: Seq<TxnView>,
    pos: Seq<usize>,
    groups: Seq<Seq<usize>>,
    min_count: nat,
    g: int,
)
    requires
        0 <= g <= groups.len(),
    ensures
        forall|k: int|
            0 <= k < round_trip_group_findings(ts, pos, groups, min_count, g).len() ==> exists|x: int|
                0 <= x < g && #[trigger] round_trip_group_findings(ts, pos, groups, min_count, g)[k].related_rows
                    == positions_rows(ts, pos, groups[x]),
    decreases g,
{
    if g > 0 {
        lemma_round_trip_from_groups(ts, pos, groups, min_count, g - 1);
        let prev = round_trip_group_findings(ts, pos, groups, min_count, g - 1);
        assert forall|k: int| 0 <= k < round_trip_group_findings(ts, pos, groups, min_count, g).len() implies exists|x: int|
            0 <= x < g && #[trigger] round_trip_group_findings(ts, pos, groups, min_count, g)[k].related_rows
                == positions_rows(ts, pos, groups[x]) by {
            if k < prev.len() {
                assert(round_trip_group_findings(ts, pos, groups, min_count, g)[k] == prev[k]);
                let x = choose|x: int| 0 <= x < g - 1 && #[trigger] prev[k].related_rows == positions_rows(ts, pos, groups[x]);
                assert(0 <= x < g);
            }
        }
    }
}

/// Whether every row in `rows` is that of a transaction dated on day `d`
/// whose larger amount is worth `u` units.
pub open spec fn rows_on_day_with_amount(ts: Seq<TxnView>, rows: Seq<usize>, d: int, u: int) -> bool {
    forall|k: int|
        #![trigger rows[k]]
        0 <= k < rows.len() ==> exists|i: int|
            #![trigger ts[i]]
            0 <= i < ts.len() && ts[i].row_index == rows[k] && ts[i].date.spec_days() == d && max_amount(ts[i]).units()
                == u
}

/// Each round-trip finding gathers transactions of one day and one amount
/// value, never zero: rows on different days, or with amounts of different
/// value, are never reported together.
pub proof fn law_round_trip_same_day_and_amount(ts: Seq<TxnView>, min_count: nat)
    requires
        ts.len() <= usize::MAX,
        amounts_valid(ts),
    ensures
        forall|k: int|
            #![trigger round_trip_findings(ts, min_count)[k]]
            0 <= k < round_trip_findings(ts, min_count).len() ==> exists|d: int, u: int|
                u != 0 && #[trigger] rows_on_day_with_amount(ts, round_trip_findings(ts, min_count)[k].related_rows, d, u),
{
    let pos = nonzero_positions(ts, ts.len() as int);
    let keys = day_amount_keys(ts, pos);
    let groups = group_spec(keys);
    let fs = round_trip_findings(ts, min_count);
    lemma_nonzero_positions(ts, ts.len() as int);
    lemma_round_trip_from_groups(ts, pos, groups, min_count, groups.len() as int);
    lemma_group_spec_wf(keys);
    assert forall|k: int| #![trigger fs[k]] 0 <= k < fs.len() implies exists|d: int, u: int|
        u != 0 && #[trigger] rows_on_day_with_amount(ts, fs[k].related_rows, d, u) by {
        let x = choose|x: int| 0 <= x < groups.len() && #[trigger] fs[k].related_rows == positions_rows(ts, pos, groups[x]);
        let rows = positions_rows(ts, pos, groups[x]);
        assert(groups[x].len() > 0);
        let f0 = pos[groups[x][0] as int] as int;
        let d = ts[f0].date.spec_days();
        let u = max_amount(ts[f0]).units();
        assert(groups[x][0] < pos.len());
        assert forall|j: int| #![trigger rows[j]] 0 <= j < rows.len() implies exists|i: int|
            #![trigger ts[i]]
            0 <= i < ts.len() && ts[i].row_index == rows[j] && ts[i].date.spec_days() == d && max_amount(ts[i]).units()
                == u by {
            let m = groups[x][j] as int;
            assert(m < pos.len());
            lemma_group_members(keys, x, m);
            assert(groups[x].contains(m as usize));
            let i = pos[m] as int;
            assert(keys[m] == day_amount_key(ts[i]));
            assert(keys[groups[x][0] as int] == day_amount_key(ts[f0]));
            assert(day_amount_key(ts[i]).1[0] == d);
            let a = max_amount(ts[i]);
            let b = max_amount(ts[f0]);
            assert(ts[i].debit.inv() && ts[i].credit.inv() && ts[f0].debit.inv() && ts[f0].credit.inv());
            assert(normal_parts(a.parts()).0 == day_amount_key(ts[i]).1[1]);
            assert(normal_parts(a.parts()).1 as int == day_amount_key(ts[i]).1[2]);
            assert(normal_parts(a.parts()) == normal_parts(b.parts()));
            lemma_same_normal_same_value(a, b);
            assert(rows[j] == ts[i].row_index);
        }
        assert(u != 0);
        assert(rows_on_day_with_amount(ts, fs[k].related_rows, d, u));
    }
}

/// The account codes of a voucher's transactions with a positive debit
/// (`debit` true) or a positive credit, in order.
pub open spec fn side_accounts(ts: Seq<TxnView>, group: Seq<usize>, debit: bool) -> Seq<Seq<char>>
    decreases group.len(),
{
    if group.len() == 0 {
        Seq::empty()
    } else {
        let prev = side_accounts(ts, group.drop_last(), debit);
        let t = ts[group.last() as int];
        let amount = if debit {
            t.debit
        } else {
            t.credit
        };
        if amount.units() > 0 {
            prev.push(t.account_code)
        } else {
            prev
        }
    }
}

/// The pairs `(d, c)` for the credit accounts `cs`, leaving out `c == d`.
pub open spec fn pairs_with(d: Seq<char>, cs: Seq<Seq<char>>) -> Seq<(Seq<char>, Seq<char>)>
    decreases cs.len(),
{
    if cs.len() == 0 {
        Seq::empty()
    } else if cs.last() != d {
        pairs_with(d, cs.drop_last()).push((d, cs.last()))
    } else {
        pairs_with(d, cs.drop_last())
    }
}

/// All debit-credit account pairs of one voucher, debit accounts outermost.
pub open spec fn voucher_pairs(ds: Seq<Seq<char>>, cs: Seq<Seq<char>>) -> Seq<(Seq<char>, Seq<char>)>
    decreases ds.len(),
{
    if ds.len() == 0 {
        Seq::empty()
    } else {
        voucher_pairs(ds.drop_last(), cs) + pairs_with(ds.last(), cs)
    }
}

/// The account pairs of the vouchers `0..g`.
pub open spec fn all_pairs(ts: Seq<TxnView>, groups: Seq<Seq<usize>>, g: int) -> Seq<(Seq<char>, Seq<char>)>
    decreases g,
{
    if g <= 0 {
        Seq::empty()
    } else {
        all_pairs(ts, groups, g - 1) + voucher_pairs(
            side_accounts(ts, groups[g - 1], true),
            side_accounts(ts, groups[g - 1], false),
        )
    }
}

pub open spec fn journal_pairs(ts: Seq<TxnView>) -> Seq<(Seq<char>, Seq<char>)> {
    let groups = group_spec(voucher_keys(ts));
    all_pairs(ts, groups, groups.len() as int)
}

pub open spec fn pair_keys(ps: Seq<(Seq<char>, Seq<char>)>) -> Seq<KeyView> {
    ps.map_values(|p: (Seq<char>, Seq<char>)| (seq![p.0, p.1], Seq::<int>::empty()))
}

pub open spec fn pair_message(p: (Seq<char>, Seq<char>), count: nat) -> Seq<char> {
    "科目 "@ + p.0 + " → "@ + p.1 + " 出现 "@ + nat_text(count) + " 次交易，请关注是否存在关联方交易"@
}

pub open spec fn pair_group_findings(
    ps: Seq<(Seq<char>, Seq<char>)>,
    groups: Seq<Seq<usize>>,
    g: int,
) -> Seq<FindingView>
    decreases g,
{
    if g <= 0 {
        Seq::empty()
    } else {
        let prev = pair_group_findings(ps, groups, g - 1);
        let group = groups[g - 1];
        if group.len() >= 5 {
            prev.push(
                finding_of(
                    frequent_pair_rule_name(),
                    Severity::Info,
                    pair_message(ps[group[0] as int], group.len()),
                    Seq::empty(),
                ),
            )
        } else {
            prev
        }
    }
}

/// One note per debit-credit account pair met at least 5 times across the
/// vouchers, in order of first appearance.
pub open spec fn frequent_pair_findings(ts: Seq<TxnView>) -> Seq<FindingView> {
    let ps = journal_pairs(ts);
    let groups = group_spec(pair_keys(ps));
    pair_group_findings(ps, groups, groups.len() as int)
}

/// The rows of the transactions in the last `n` days of their month.
pub open spec fn period_end_rows_spec(ts: Seq<TxnView>, n: nat) -> Seq<usize>
    decreases ts.len(),
{
    if ts.len() == 0 {
        Seq::empty()
    } else if in_period_end(ts.last().date, n) {
        period_end_rows_spec(ts.drop_last(), n).push(ts.last().row_index)
    } else {
        period_end_rows_spec(ts.drop_last(), n)
    }
}

/// Whether a date lies in the last `period_end_days` days of its month.
pub fn is_period_end(date: &Date, period_end_days: u32) -> (r: bool)
    ensures
        r == in_period_end(*date, period_end_days as nat),
{
    let last = last_day_of_month(date.year(), date.month());
    let start = if last >= period_end_days {
        last - period_end_days
    } else {
        0
    };
    date.day() > start
}

impl RelatedPartyCheck {
    pub closed spec fn spec_min_round_trip_count(self) -> usize {
        self.min_round_trip_count
    }

    pub closed spec fn spec_period_end_days(self) -> u32 {
        self.period_end_days
    }

    /// Round trips of 3 or more, month ends of 5 days.
    pub fn new() -> (r: Self)
        ensures
            r.spec_min_round_trip_count() == 3,
            r.spec_period_end_days() == 5,
    {
        RelatedPartyCheck { min_round_trip_count: 3, period_end_days: 5 }
    }

    /// The rule with the given minimum count of round trips and month-end
    /// window.
    pub fn with_settings(min_round_trip_count: usize, period_end_days: u32) -> (r: Self)
        ensures
            r.spec_min_round_trip_count() == min_round_trip_count,
            r.spec_period_end_days() == period_end_days,
    {
        RelatedPartyCheck { min_round_trip_count, period_end_days }
    }

    pub fn period_end_days(&self) -> (r: u32)
        ensures
            r == self.spec_period_end_days(),
    {
        self.period_end_days
    }

    /// The rows of the transactions in the last days of their month.
    pub fn period_end_rows(&self, transactions: &[Transaction]) -> (r: Vec<usize>)
        ensures
            r@ == period_end_rows_spec(txns_view(transactions@), self.spec_period_end_days() as nat),
    {
        let mut r: Vec<usize> = Vec::new();
        let mut i: usize = 0;
        while i < transactions.len()
            invariant
                i <= transactions@.len(),
                r@ == period_end_rows_spec(txns_view(transactions@.subrange(0, i as int)), self.period_end_days as nat),
            decreases transactions.len() - i,
        {
            proof {
                assert(txns_view(transactions@.subrange(0, i + 1)).drop_last() =~= txns_view(transactions@.subrange(0, i as int)));
            }
            if is_period_end(&transactions[i].date, self.period_end_days) {
                r.push(transactions[i].row_index);
            }
            i = i + 1;
        }
        assert(transactions@.subrange(0, transactions@.len() as int) =~= transactions@);
        r
    }

    /// Same day, same amount, many times: money may be going round.
    pub fn check_round_trip(&self, transactions: &[Transaction], findings: &mut Vec<AuditFinding>)
        ensures
            findings_view(final(findings)@) == findings_view(old(findings)@) + round_trip_findings(
                txns_view(transactions@),
                self.spec_min_round_trip_count() as nat,
            ),
    {
        let ghost ts = txns_view(transactions@);
        let ghost start = findings_view(findings@);
        let n = transactions.len();
        let mut pos: Vec<usize> = Vec::new();
        let mut keys: Vec<RowKey> = Vec::new();
        let mut i: usize = 0;
        while i < n
            invariant
                n == transactions@.len() == ts.len(),
                ts == txns_view(transactions@),
                i <= n,
                pos@ == nonzero_positions(ts, i as int),
                forall|k: int| 0 <= k < pos@.len() ==> #[trigger] pos@[k] < i,
                keys_view(keys@) == day_amount_keys(ts, pos@),
            decreases n - i,
        {
            let t = &transactions[i];
            assert(ts[i as int] == t@);
            let amount = t.debit.max(&t.credit);
            if !amount.is_zero() {
                let mut numbers: Vec<i128> = Vec::new();
                numbers.push(t.date.num_days_from_ce() as i128);
                let v = amount.normalized();
                numbers.push(v.0);
                numbers.push(v.1 as i128);
                let k = RowKey { words: Vec::new(), numbers };
                proof {
                    assert(k.key_view().0 =~= day_amount_key(t@).0);
                    assert(k.key_view().1 =~= day_amount_key(t@).1);
                }
                let ghost old_keys = keys@;
                let ghost old_pos = pos@;
                keys.push(k);
                pos.push(i);
                proof {
                    assert(keys_view(keys@) =~= keys_view(old_keys).push(k.key_view()));
                    assert(day_amount_keys(ts, pos@) =~= day_amount_keys(ts, old_pos).push(day_amount_key(ts[i as int])));
                }
            }
            i = i + 1;
        }
        proof {
            lemma_group_spec_wf(day_amount_keys(ts, pos@));
        }
        let groups = group_rows(&keys);
        let ghost gs = groups_view(groups@);
        let mut g: usize = 0;
        while g < groups.len()
            invariant
                n == transactions@.len() == ts.len(),
                ts == txns_view(transactions@),
                pos@ == nonzero_positions(ts, n as int),
                forall|k: int| 0 <= k < pos@.len() ==> #[trigger] pos@[k] < n,
                gs == groups_view(groups@),
                gs == group_spec(day_amount_keys(ts, pos@)),
                groups_wf(gs, pos@.len() as int),
                g <= groups@.len(),
                findings_view(findings@) == start + round_trip_group_findings(ts, pos@, gs, self.min_round_trip_count as nat, g as int),
            decreases groups.len() - g,
        {
            let group = &groups[g];
            assert(gs[g as int] == group@);
            assert(group@.len() > 0);
            if group.len() >= self.min_round_trip_count {
                let mut rows: Vec<usize> = Vec::new();
                let mut j: usize = 0;
                while j < group.len()
                    invariant
                        ts == txns_view(transactions@),
                        n == transactions@.len(),
                        group@ == gs[g as int],
                        forall|k: int| 0 <= k < group@.len() ==> #[trigger] group@[k] < pos@.len(),
                        forall|k: int| 0 <= k < pos@.len() ==> #[trigger] pos@[k] < n,
                        j <= group@.len(),
                        rows@ =~= positions_rows(ts, pos@, group@).subrange(0, j as int),
                    decreases group.len() - j,
                {
                    let p = pos[group[j]];
                    assert(ts[p as int] == transactions@[p as int]@);
                    rows.push(transactions[p].row_index);
                    j = j + 1;
                }
                assert(rows@ =~= positions_rows(ts, pos@, group@));
                let first = &transactions[pos[group[0]]];
                assert(ts[pos@[group@[0] as int] as int] == first@);
                let msg = round_trip_message_exec(first, group.len());
                let f = make_finding("关联交易-资金回流", Severity::Warning, msg, rows);
                let ghost old_f = findings_view(findings@);
                findings.push(f);
                proof {
                    assert(findings_view(findings@) =~= old_f.push(f@));
                }
            }
            g = g + 1;
        }
    }

    /// Debit-credit account pairs met at least 5 times across vouchers.
    pub fn check_frequent_pairs(&self, transactions: &[Transaction], findings: &mut Vec<AuditFinding>)
        ensures
            findings_view(final(findings)@) == findings_view(old(findings)@) + frequent_pair_findings(
                txns_view(transactions@),
            ),
    {
        let ghost ts = txns_view(transactions@);
        let ghost start = findings_view(findings@);
        let n = transactions.len();
        let vkeys = voucher_keys_of(transactions);
        let vgroups = group_rows(&vkeys);
        let ghost vgs = groups_view(vgroups@);
        proof {
            lemma_group_spec_wf(voucher_keys(ts));
        }
        let mut pairs: Vec<(String, String)> = Vec::new();
        let mut pkeys: Vec<RowKey> = Vec::new();
        let mut g: usize = 0;
        while g < vgroups.len()
            invariant
                n == transactions@.len() == ts.len(),
                ts == txns_view(transactions@),
                vgs == groups_view(vgroups@),
                vgs == group_spec(voucher_keys(ts)),
                groups_wf(vgs, n as int),
                g <= vgroups@.len(),
                pairs_view(pairs@) == all_pairs(ts, vgs, g as int),
                keys_view(pkeys@) == pair_keys(pairs_view(pairs@)),
            decreases vgroups.len() - g,
        {
            let group = &vgroups[g];
            assert(vgs[g as int] == group@);
            let ds = side_accounts_exec(transactions, group, true);
            let cs = side_accounts_exec(transactions, group, false);
            let mut a: usize = 0;
            let ghost base = pairs_view(pairs@);
            while a < ds.len()
                invariant
                    a <= ds@.len(),
                    strings_view(ds@) == side_accounts(ts, group@, true),
                    strings_view(cs@) == side_accounts(ts, group@, false),
                    pairs_view(pairs@) == base + voucher_pairs(strings_view(ds@).subrange(0, a as int), strings_view(cs@)),
                    keys_view(pkeys@) == pair_keys(pairs_view(pairs@)),
                decreases ds.len() - a,
            {
                let ghost before_d = pairs_view(pairs@);
                let mut b: usize = 0;
                while b < cs.len()
                    invariant
                        a < ds@.len(),
                        b <= cs@.len(),
                        pairs_view(pairs@) == before_d + pairs_with(ds@[a as int]@, strings_view(cs@).subrange(0, b as int)),
                        keys_view(pkeys@) == pair_keys(pairs_view(pairs@)),
                    decreases cs.len() - b,
                {
                    proof {
                        assert(strings_view(cs@).subrange(0, b + 1).drop_last() =~= strings_view(cs@).subrange(0, b as int));
                    }
                    if ds[a] != cs[b] {
                        let d = ds[a].clone();
                        let c = cs[b].clone();
                        let mut words: Vec<String> = Vec::new();
                        words.push(d.clone());
                        words.push(c.clone());
                        let k = RowKey { words, numbers: Vec::new() };
                        let ghost old_pairs = pairs_view(pairs@);
                        let ghost old_keys = keys_view(pkeys@);
                        pairs.push((d, c));
                        pkeys.push(k);
                        proof {
                            assert(k.key_view().0 =~= seq![ds@[a as int]@, cs@[b as int]@]);
                            assert(k.key_view().1 =~= Seq::<int>::empty());
                            assert(pairs_view(pairs@) =~= old_pairs.push((ds@[a as int]@, cs@[b as int]@)));
                            assert(keys_view(pkeys@) =~= old_keys.push(k.key_view()));
                            assert(pair_keys(pairs_view(pairs@)) =~= pair_keys(old_pairs).push(k.key_view()));
                        }
                    }
                    b = b + 1;
                }
                proof {
                    assert(strings_view(cs@).subrange(0, cs@.len() as int) =~= strings_view(cs@));
                    assert(strings_view(ds@).subrange(0, a + 1).drop_last() =~= strings_view(ds@).subrange(0, a as int));
                    assert(strings_view(ds@).subrange(0, a + 1).last() == ds@[a as int]@);
                }
                a = a + 1;
            }
            proof {
                assert(strings_view(ds@).subrange(0, ds@.len() as int) =~= strings_view(ds@));
            }
            g = g + 1;
        }
        let ghost ps = pairs_view(pairs@);
        proof {
            lemma_group_spec_wf(pair_keys(ps));
        }
        let pgroups = group_rows(&pkeys);
        let ghost pgs = groups_view(pgroups@);
        let mut h: usize = 0;
        while h < pgroups.len()
            invariant
                ps == pairs_view(pairs@),
                ps == journal_pairs(ts),
                pgs == groups_view(pgroups@),
                pgs == group_spec(pair_keys(ps)),
                groups_wf(pgs, ps.len() as int),
                h <= pgroups@.len(),
                findings_view(findings@) == start + pair_group_findings(ps, pgs, h as int),
            decreases pgroups.len() - h,
        {
            let group = &pgroups[h];
            assert(pgs[h as int] == group@);
            assert(group@.len() > 0);
            if group.len() >= 5 {
                let first = &pairs[group[0]];
                let msg = pair_message_exec(&first.0, &first.1, group.len());
                let f = make_finding("关联交易-高频科目对", Severity::Info, msg, Vec::new());
                let ghost old_f = findings_view(findings@);
                findings.push(f);
                proof {
                    assert(f@.related_rows =~= Seq::<usize>::empty());
                    assert(findings_view(findings@) =~= old_f.push(f@));
                }
            }
            h = h + 1;
        }
    }
}

pub open spec fn strings_view(v: Seq<String>) -> Seq<Seq<char>> {
    v.map_values(|s: String| s@)
}

pub open spec fn pairs_view(v: Seq<(String, String)>) -> Seq<(Seq<char>, Seq<char>)> {
    v.map_values(|p: (String, String)| (p.0@, p.1@))
}

fn voucher_keys_of(transactions: &[Transaction]) -> (r: Vec<RowKey>)
    ensures
        keys_view(r@) == voucher_keys(txns_view(transactions@)),
{
    let mut r: Vec<RowKey> = Vec::new();
    let mut i: usize = 0;
    while i < transactions.len()
        invariant
            i <= transactions@.len(),
            keys_view(r@) =~= voucher_keys(txns_view(transactions@)).subrange(0, i as int),
        decreases transactions.len() - i,
    {
        let mut words: Vec<String> = Vec::new();
        words.push(transactions[i].voucher_id.clone());
        let k = RowKey { words, numbers: Vec::new() };
        proof {
            assert(k.key_view().0 =~= voucher_key(transactions@[i as int]@).0);
            assert(k.key_view().1 =~= voucher_key(transactions@[i as int]@).1);
        }
        let ghost old_r = r@;
        r.push(k);
        proof {
            assert(keys_view(r@) =~= keys_view(old_r).push(k.key_view()));
        }
        i = i + 1;
    }
    r
}

fn side_accounts_exec(transactions: &[Transaction], group: &Vec<usize>, debit: bool) -> (r: Vec<String>)
    requires
        forall|k: int| 0 <= k < group@.len() ==> #[trigger] group@[k] < transactions@.len(),
    ensures
        strings_view(r@) == side_accounts(txns_view(transactions@), group@, debit),
{
    let ghost ts = txns_view(transactions@);
    let mut r: Vec<String> = Vec::new();
    let mut j: usize = 0;
    while j < group.len()
        invariant
            ts == txns_view(transactions@),
            forall|k: int| 0 <= k < group@.len() ==> #[trigger] group@[k] < transactions@.len(),
            j <= group@.len(),
            strings_view(r@) == side_accounts(ts, group@.subrange(0, j as int), debit),
        decreases group.len() - j,
    {
        let t = &transactions[group[j]];
        assert(ts[group@[j as int] as int] == t@);
        proof {
            assert(group@.subrange(0, j + 1).drop_last() =~= group@.subrange(0, j as int));
        }
        let positive = if debit {
            t.is_debit()
        } else {
            t.is_credit()
        };
        if positive {
            let ghost old_r = strings_view(r@);
            r.push(t.account_code.clone());
            proof {
                assert(strings_view(r@) =~= old_r.push(t.account_code@));
            }
        }
        j = j + 1;
    }
    assert(group@.subrange(0, group@.len() as int) =~= group@);
    r
}

fn round_trip_message_exec(t: &Transaction, count: usize) -> (r: String)
    ensures
        r@ == round_trip_message(t@, count as nat),
{
    let mut s = t.date.to_text();
    push_str(&mut s, "日金额 ");
    let amount = t.debit.max(&t.credit);
    let a = amount.to_text();
    push_str(&mut s, a.as_str());
    push_str(&mut s, " 出现 ");
    let c = nat_to_text(count as u64);
    push_str(&mut s, c.as_str());
    push_str(&mut s, " 次，可能存在资金回流");
    s
}

fn pair_message_exec(d: &String, c: &String, count: usize) -> (r: String)
    ensures
        r@ == pair_message((d@, c@), count as nat),
{
    let mut s = String::new();
    push_str(&mut s, "科目 ");
    push_str(&mut s, d.as_str());
    push_str(&mut s, " → ");
    push_str(&mut s, c.as_str());
    push_str(&mut s, " 出现 ");
    let n = nat_to_text(count as u64);
    push_str(&mut s, n.as_str());
    push_str(&mut s, " 次交易，请关注是否存在关联方交易");
    s
}

impl Default for RelatedPartyCheck {
    /// The same as `new`.
    fn default() -> (r: Self)
        ensures
            r.spec_min_round_trip_count() == 3,
            r.spec_period_end_days() == 5,
    {
        RelatedPartyCheck::new()
    }
}

} // verus!
