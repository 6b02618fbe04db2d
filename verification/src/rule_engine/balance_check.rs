//! The balance rule: within each voucher, the debits must add up to the
//! credits, up to a tolerance.
use super::{finding_of, make_finding, AuditRule};
use crate::group::{
    group_rows, group_spec, groups_view, groups_wf, keys_view, law_grouping_partitions, lemma_group_members, lemma_group_spec_wf,
    KeyView, RowKey,
};
use crate::models::{amounts_valid, findings_view, rows_distinct, txns_view, AuditError, AuditFinding, BalanceCheckConfig, FindingView, Severity, Transaction, TxnView};
use crate::money::{
    abs_int, add_parts, decimal_parse, lemma_add_parts_units, lemma_pow10_positive, lemma_scale_bound, lemma_sub_parts_units,
    parts_add_fits, parts_sub_fits, parts_text, pow10, sub_parts, units_of, Money, Parts,
};
use crate::text::push_str;
use vstd::prelude::*;

verus! {

/// Flags vouchers whose debit and credit totals differ by more than the
/// tolerance.
pub struct BalanceCheck {
    tolerance: Money,
}

pub open spec fn balance_rule_name() -> Seq<char> {
    "借贷平衡检查"@
}

/// The tolerance a configuration gives: its text parsed as a decimal, or
/// 0.01 when it is absent or does not parse.
pub open spec fn configured_tolerance(tolerance: Option<Seq<char>>) -> Parts {
    match tolerance {
        Some(t) => match decimal_parse(t) {
            Some(p) => (p.0, p.1 as nat),
            None => (1, 2),
        },
        None => (1, 2),
    }
}

pub open spec fn voucher_key(t: TxnView) -> KeyView {
    (seq![t.voucher_id], Seq::empty())
}

pub open spec fn voucher_keys(ts: Seq<TxnView>) -> Seq<KeyView> {
    ts.map_values(|t: TxnView| voucher_key(t))
}

/// The sum of decimals from zero, added left to right.
pub open spec fn sum_of_parts(ps: Seq<Parts>) -> Parts
    decreases ps.len(),
{
    if ps.len() == 0 {
        (0, 0)
    } else {
        add_parts(sum_of_parts(ps.drop_last()), ps.last())
    }
}

/// Whether every step of the sum stays within the range of decimals at the
/// larger scale, so that the sum is exact.
pub open spec fn sum_fits(ps: Seq<Parts>) -> bool
    decreases ps.len(),
{
    ps.len() == 0 || (sum_fits(ps.drop_last()) && parts_add_fits(sum_of_parts(ps.drop_last()), ps.last()))
}

pub open spec fn abs_parts(p: Parts) -> Parts {
    (abs_int(p.0), p.1)
}

pub open spec fn group_debits(ts: Seq<TxnView>, group: Seq<usize>) -> Seq<Parts> {
    group.map_values(|j: usize| ts[j as int].debit.parts())
}

pub open spec fn group_credits(ts: Seq<TxnView>, group: Seq<usize>) -> Seq<Parts> {
    group.map_values(|j: usize| ts[j as int].credit.parts())
}

pub open spec fn group_row_indices(ts: Seq<TxnView>, group: Seq<usize>) -> Seq<usize> {
    group.map_values(|j: usize| ts[j as int].row_index)
}

/// Whether the sums of a voucher, and their difference, are exact.
pub open spec fn group_sums_fit(ts: Seq<TxnView>, group: Seq<usize>) -> bool {
    &&& sum_fits(group_debits(ts, group))
    &&& sum_fits(group_credits(ts, group))
    &&& parts_sub_fits(sum_of_parts(group_debits(ts, group)), sum_of_parts(group_credits(ts, group)))
}

pub open spec fn balance_message(voucher: Seq<char>, debit: Parts, credit: Parts, diff: Parts) -> Seq<char> {
    "凭证 "@ + voucher + " 借贷不平衡：借方合计 "@ + parts_text(debit) + "，贷方合计 "@ + parts_text(credit)
        + "，差额 "@ + parts_text(diff)
}

/// The finding for a voucher, if its totals differ by more than the tolerance.
pub open spec fn voucher_findings(ts: Seq<TxnView>, group: Seq<usize>, tolerance: Money) -> Seq<FindingView> {
    let td = sum_of_parts(group_debits(ts, group));
    let tc = sum_of_parts(group_credits(ts, group));
    let diff = abs_parts(sub_parts(td, tc));
    if units_of(diff) > tolerance.units() {
        seq![
            finding_of(
                balance_rule_name(),
                Severity::Error,
                balance_message(ts[group[0] as int].voucher_id, td, tc, diff),
                group_row_indices(ts, group),
            ),
        ]
    } else {
        Seq::empty()
    }
}

pub open spec fn balance_group_findings(ts: Seq<TxnView>, groups: Seq<Seq<usize>>, tolerance: Money, g: int) -> Seq<FindingView>
    decreases g,
{
    if g <= 0 {
        Seq::empty()
    } else {
        balance_group_findings(ts, groups, tolerance, g - 1) + voucher_findings(ts, groups[g - 1], tolerance)
    }
}

pub open spec fn balance_groups_fit(ts: Seq<TxnView>, groups: Seq<Seq<usize>>, g: int) -> bool
    decreases g,
{
    g <= 0 || (balance_groups_fit(ts, groups, g - 1) && group_sums_fit(ts, groups[g - 1]))
}

/// Whether every voucher's sums are exact.
pub open spec fn balance_sums_fit(ts: Seq<TxnView>) -> bool {
    let groups = group_spec(voucher_keys(ts));
    balance_groups_fit(ts, groups, groups.len() as int)
}

/// The findings of the balance rule: one error per voucher, in order of
/// first appearance, whose debit and credit totals differ by more than the
/// tolerance.
pub open spec fn balance_findings(ts: Seq<TxnView>, tolerance: Money) -> Seq<FindingView> {
    let groups = group_spec(voucher_keys(ts));
    balance_group_findings(ts, groups, tolerance, groups.len() as int)
}

/// Whether the totals of a voucher's rows differ by more than the
/// tolerance, as the rule computes them.
spec fn group_unbalanced(ts: Seq<TxnView>, group: Seq<usize>, tolerance: Money) -> bool {
    units_of(abs_parts(sub_parts(sum_of_parts(group_debits(ts, group)), sum_of_parts(group_credits(ts, group)))))
        > tolerance.units()
}

/// Each finding of the first `g` groups lists the rows of one of them, a
/// group whose totals differ by more than the tolerance.
proof fn lemma_balance_findings_from_groups(ts: Seq<TxnView>, groups: Seq<Seq<usize>>, tolerance: Money, g: int)
    requires
        0 <= g <= groups.len(),
    ensures
        forall|k: int|
            0 <= k < balance_group_findings(ts, groups, tolerance, g).len() ==> exists|x: int|
                0 <= x < g && group_unbalanced(ts, groups[x], tolerance) && #[trigger] balance_group_findings(
                    ts,
                    groups,
                    tolerance,
                    g,
                )[k].related_rows == group_row_indices(ts, groups[x]),
    decreases g,
{
    if g > 0 {
        lemma_balance_findings_from_groups(ts, groups, tolerance, g - 1);
        let prev = balance_group_findings(ts, groups, tolerance, g - 1);
        let here = voucher_findings(ts, groups[g - 1], tolerance);
        assert forall|k: int| 0 <= k < balance_group_findings(ts, groups, tolerance, g).len() implies exists|x: int|
            0 <= x < g && group_unbalanced(ts, groups[x], tolerance) && #[trigger] balance_group_findings(
                ts,
                groups,
                tolerance,
                g,
            )[k].related_rows == group_row_indices(ts, groups[x]) by {
            if k < prev.len() {
                assert(balance_group_findings(ts, groups, tolerance, g)[k] == prev[k]);
                let x = choose|x: int|
                    0 <= x < g - 1 && group_unbalanced(ts, groups[x], tolerance) && #[trigger] prev[k].related_rows
                        == group_row_indices(ts, groups[x]);
                assert(0 <= x < g);
            } else {
                assert(balance_group_findings(ts, groups, tolerance, g)[k] == here[k - prev.len()]);
                assert(here[k - prev.len()].related_rows == group_row_indices(ts, groups[g - 1]));
                assert(group_unbalanced(ts, groups[g - 1], tolerance));
            }
        }
    }
}

/// Whether `rows` lists a row exactly when its transaction belongs to
/// voucher `v`.
pub open spec fn lists_voucher(ts: Seq<TxnView>, rows: Seq<usize>, v: Seq<char>) -> bool {
    forall|i: int| 0 <= i < ts.len() ==> (ts[i].voucher_id == v <==> #[trigger] rows.contains(ts[i].row_index))
}

/// Each balance finding lists the rows of exactly one voucher: a row is
/// listed exactly when its voucher id is that voucher's, whatever its
/// account.
pub proof fn law_balance_finding_is_one_voucher(ts: Seq<TxnView>, tolerance: Money)
    requires
        ts.len() <= usize::MAX,
        rows_distinct(ts),
    ensures
        forall|k: int|
            #![trigger balance_findings(ts, tolerance)[k]]
            0 <= k < balance_findings(ts, tolerance).len() ==> exists|v: Seq<char>|
                #[trigger] lists_voucher(ts, balance_findings(ts, tolerance)[k].related_rows, v),
{
    let keys = voucher_keys(ts);
    let groups = group_spec(keys);
    let fs = balance_findings(ts, tolerance);
    lemma_balance_findings_from_groups(ts, groups, tolerance, groups.len() as int);
    assert forall|k: int| #![trigger fs[k]] 0 <= k < fs.len() implies exists|v: Seq<char>| #[trigger] lists_voucher(ts, fs[k].related_rows, v) by {
        let x = choose|x: int|
            0 <= x < groups.len() && group_unbalanced(ts, groups[x], tolerance) && #[trigger] fs[k].related_rows
                == group_row_indices(ts, groups[x]);
        lemma_group_spec_wf(keys);
        lemma_group_members(keys, x, 0);
        let first = groups[x][0] as int;
        let v = ts[first].voucher_id;
        let rows = group_row_indices(ts, groups[x]);
        assert forall|i: int| 0 <= i < ts.len() implies (ts[i].voucher_id == v <==> #[trigger] rows.contains(ts[i].row_index)) by {
            lemma_group_members(keys, x, i);
            assert(keys[i] == voucher_key(ts[i]) && keys[first] == voucher_key(ts[first]));
            if ts[i].voucher_id == v {
                assert(keys[i] =~= keys[first]);
                let j = choose|j: int| 0 <= j < groups[x].len() && groups[x][j] == i as usize;
                assert(rows[j] == ts[i].row_index);
            }
            if rows.contains(ts[i].row_index) {
                let j = choose|j: int| 0 <= j < rows.len() && rows[j] == ts[i].row_index;
                let m = groups[x][j] as int;
                assert(rows[j] == ts[m].row_index);
                if m != i {
                    if m < i {
                        assert(ts[m].row_index != ts[i].row_index);
                    } else {
                        assert(ts[i].row_index != ts[m].row_index);
                    }
                }
                assert(groups[x].contains(i as usize));
                assert(keys[i] == keys[first]);
                assert(keys[i].0[0] == ts[i].voucher_id);
            }
        }
        assert(lists_voucher(ts, fs[k].related_rows, v));
    }
}

/// The value, in units of 10^-28, of the debits (`debit` true) or the
/// credits of the transactions among the first `n` whose voucher id is `v`.
pub open spec fn voucher_total(ts: Seq<TxnView>, v: Seq<char>, debit: bool, n: int) -> int
    decreases n,
{
    if n <= 0 {
        0
    } else {
        voucher_total(ts, v, debit, n - 1) + if ts[n - 1].voucher_id == v {
            if debit {
                ts[n - 1].debit.units()
            } else {
                ts[n - 1].credit.units()
            }
        } else {
            0
        }
    }
}

spec fn side_units(t: TxnView, debit: bool) -> int {
    if debit {
        t.debit.units()
    } else {
        t.credit.units()
    }
}

spec fn side_parts(ts: Seq<TxnView>, group: Seq<usize>, debit: bool) -> Seq<Parts> {
    if debit {
        group_debits(ts, group)
    } else {
        group_credits(ts, group)
    }
}

spec fn group_total(ts: Seq<TxnView>, group: Seq<usize>, debit: bool) -> int
    decreases group.len(),
{
    if group.len() == 0 {
        0
    } else {
        group_total(ts, group.drop_last(), debit) + side_units(ts[group.last() as int], debit)
    }
}

/// The decimal sum of a voucher's amounts is their exact total.
proof fn lemma_group_sum_units(ts: Seq<TxnView>, group: Seq<usize>, debit: bool)
    requires
        amounts_valid(ts),
        forall|j: int| 0 <= j < group.len() ==> #[trigger] group[j] < ts.len(),
    ensures
        units_of(sum_of_parts(side_parts(ts, group, debit))) == group_total(ts, group, debit),
        sum_of_parts(side_parts(ts, group, debit)).1 <= 28,
    decreases group.len(),
{
    let ps = side_parts(ts, group, debit);
    if group.len() > 0 {
        let dl = group.drop_last();
        assert forall|j: int| 0 <= j < dl.len() implies #[trigger] dl[j] < ts.len() by {
            assert(dl[j] == group[j]);
        }
        lemma_group_sum_units(ts, dl, debit);
        assert(ps.drop_last() =~= side_parts(ts, dl, debit));
        let t = ts[group.last() as int];
        assert(group.last() < ts.len()) by {
            assert(group[group.len() - 1] < ts.len());
        }
        assert(t.debit.inv() && t.credit.inv());
        lemma_scale_bound(t.debit);
        lemma_scale_bound(t.credit);
        assert(ps.last() == if debit { t.debit.parts() } else { t.credit.parts() });
        assert(units_of(ps.last()) == side_units(t, debit));
        lemma_add_parts_units(sum_of_parts(ps.drop_last()), ps.last());
        assert(sum_of_parts(ps) == add_parts(sum_of_parts(ps.drop_last()), ps.last()));
        assert(group_total(ts, group, debit) == group_total(ts, dl, debit) + side_units(t, debit));
        assert(units_of(sum_of_parts(ps)) == units_of(sum_of_parts(ps.drop_last())) + units_of(ps.last()));
        assert(units_of(sum_of_parts(ps.drop_last())) == group_total(ts, dl, debit));
    } else {
        assert(ps.len() == 0);
        assert(sum_of_parts(ps) == (0int, 0nat));
        assert(units_of((0int, 0nat)) == 0);
    }
}

/// Summing over a strictly increasing list of the positions below `n`
/// whose voucher id is `v` gives the voucher's total.
proof fn lemma_group_total_is_voucher_total(ts: Seq<TxnView>, group: Seq<usize>, v: Seq<char>, debit: bool, n: int)
    requires
        0 <= n <= ts.len(),
        n <= usize::MAX,
        forall|j: int| 0 <= j < group.len() ==> #[trigger] group[j] < n,
        forall|j: int, l: int| 0 <= j < l < group.len() ==> #[trigger] group[j] < #[trigger] group[l],
        forall|i: int| 0 <= i < n ==> (#[trigger] group.contains(i as usize) <==> ts[i].voucher_id == v),
    ensures
        group_total(ts, group, debit) == voucher_total(ts, v, debit, n),
    decreases n,
{
    if n == 0 {
        if group.len() > 0 {
            assert(group[0] < 0);
        }
    } else if ts[n - 1].voucher_id == v {
        assert(group.contains((n - 1) as usize));
        let j = choose|j: int| 0 <= j < group.len() && group[j] == (n - 1) as usize;
        if j < group.len() - 1 {
            assert(group[j] < group[group.len() - 1]);
            assert(group[group.len() - 1] < n);
        }
        let dl = group.drop_last();
        assert(group.last() == (n - 1) as usize);
        assert forall|a: int| 0 <= a < dl.len() implies #[trigger] dl[a] < n - 1 by {
            assert(dl[a] == group[a]);
            assert(group[a] < group[group.len() - 1]);
        }
        assert forall|a: int, l: int| 0 <= a < l < dl.len() implies #[trigger] dl[a] < #[trigger] dl[l] by {
            assert(dl[a] == group[a] && dl[l] == group[l]);
        }
        assert forall|i: int| 0 <= i < n - 1 implies (#[trigger] dl.contains(i as usize) <==> ts[i].voucher_id == v) by {
            if group.contains(i as usize) {
                let a = choose|a: int| 0 <= a < group.len() && group[a] == i as usize;
                assert(a != group.len() - 1);
                assert(dl[a] == i as usize);
            }
            if dl.contains(i as usize) {
                let a = choose|a: int| 0 <= a < dl.len() && dl[a] == i as usize;
                assert(group[a] == i as usize);
            }
        }
        lemma_group_total_is_voucher_total(ts, dl, v, debit, n - 1);
    } else {
        assert forall|a: int| 0 <= a < group.len() implies #[trigger] group[a] < n - 1 by {
            assert(group[a] < n);
            if group[a] == n - 1 {
                assert(group.contains((n - 1) as usize));
            }
        }
        lemma_group_total_is_voucher_total(ts, group, v, debit, n - 1);
    }
}

/// The value of the magnitude of a difference is the magnitude of the
/// difference of the values.
proof fn lemma_abs_difference_units(a: Parts, b: Parts)
    requires
        a.1 <= 28,
        b.1 <= 28,
    ensures
        units_of(abs_parts(sub_parts(a, b))) == abs_int(units_of(a) - units_of(b)),
{
    lemma_sub_parts_units(a, b);
    let d = sub_parts(a, b);
    let p = pow10((28 - d.1) as nat);
    lemma_pow10_positive((28 - d.1) as nat);
    assert(abs_int(d.0) * p == abs_int(d.0 * p)) by (nonlinear_arith)
        requires
            p >= 1,
    ;
}

/// Each balance finding is for one voucher, listing exactly its rows, whose
/// debit total and credit total differ by more than the tolerance: a
/// voucher whose debits and credits balance, whatever accounts its rows
/// name, gives no finding.
pub proof fn law_balance_finding_is_unbalanced_voucher(ts: Seq<TxnView>, tolerance: Money)
    requires
        ts.len() <= usize::MAX,
        amounts_valid(ts),
        rows_distinct(ts),
    ensures
        forall|k: int|
            #![trigger balance_findings(ts, tolerance)[k]]
            0 <= k < balance_findings(ts, tolerance).len() ==> exists|v: Seq<char>|
                #[trigger] lists_voucher(ts, balance_findings(ts, tolerance)[k].related_rows, v) && abs_int(
                    voucher_total(ts, v, true, ts.len() as int) - voucher_total(ts, v, false, ts.len() as int),
                ) > tolerance.units(),
{
    let n = ts.len() as int;
    let keys = voucher_keys(ts);
    let groups = group_spec(keys);
    let fs = balance_findings(ts, tolerance);
    law_balance_finding_is_one_voucher(ts, tolerance);
    lemma_balance_findings_from_groups(ts, groups, tolerance, groups.len() as int);
    lemma_group_spec_wf(keys);
    law_grouping_partitions(keys);
    assert forall|k: int| #![trigger fs[k]] 0 <= k < fs.len() implies exists|v: Seq<char>|
        #[trigger] lists_voucher(ts, fs[k].related_rows, v) && abs_int(voucher_total(ts, v, true, n) - voucher_total(ts, v, false, n))
            > tolerance.units() by {
        let x = choose|x: int|
            0 <= x < groups.len() && group_unbalanced(ts, groups[x], tolerance) && #[trigger] fs[k].related_rows
                == group_row_indices(ts, groups[x]);
        let group = groups[x];
        lemma_group_members(keys, x, 0);
        let first = group[0] as int;
        let v = ts[first].voucher_id;
        assert forall|i: int| 0 <= i < n implies (#[trigger] group.contains(i as usize) <==> ts[i].voucher_id == v) by {
            lemma_group_members(keys, x, i);
            assert(keys[i] == voucher_key(ts[i]) && keys[first] == voucher_key(ts[first]));
            if ts[i].voucher_id == v {
                assert(keys[i] =~= keys[first]);
            }
            if group.contains(i as usize) {
                assert(keys[i].0[0] == ts[i].voucher_id);
            }
        }
        assert forall|j: int| 0 <= j < group.len() implies #[trigger] group[j] < n by {}
        assert forall|j: int, l: int| 0 <= j < l < group.len() implies #[trigger] group[j] < #[trigger] group[l] by {}
        lemma_group_sum_units(ts, group, true);
        lemma_group_sum_units(ts, group, false);
        lemma_group_total_is_voucher_total(ts, group, v, true, n);
        lemma_group_total_is_voucher_total(ts, group, v, false, n);
        assert(side_parts(ts, group, true) == group_debits(ts, group));
        assert(side_parts(ts, group, false) == group_credits(ts, group));
        lemma_abs_difference_units(sum_of_parts(group_debits(ts, group)), sum_of_parts(group_credits(ts, group)));
        let w = choose|w: Seq<char>| #[trigger] lists_voucher(ts, fs[k].related_rows, w);
        let rows = group_row_indices(ts, group);
        assert(rows[0] == ts[first].row_index);
        assert(fs[k].related_rows.contains(ts[first].row_index));
        assert(w == v);
    }
}

impl BalanceCheck {
    pub closed spec fn spec_tolerance(self) -> Money {
        self.tolerance
    }

    /// The rule with the configured tolerance, 0.01 by default.
    pub fn from_config(config: &BalanceCheckConfig) -> (r: Self)
        ensures
            r.spec_tolerance().parts() == configured_tolerance(
                match config.tolerance {
                    Some(s) => Some(s@),
                    None => None,
                },
            ),
    {
        let tolerance = match &config.tolerance {
            Some(s) => match Money::parse(s.as_str()) {
                Some(m) => m,
                None => Money::new(1, 2),
            },
            None => Money::new(1, 2),
        };
        BalanceCheck { tolerance }
    }

    /// The rule with a tolerance of 0.01.
    pub fn new() -> (r: Self)
        ensures
            r.spec_tolerance().parts() == (1int, 2nat),
    {
        BalanceCheck { tolerance: Money::new(1, 2) }
    }
}

impl Default for BalanceCheck {
    /// The same as `new`: a tolerance of 0.01.
    fn default() -> (r: Self)
        ensures
            r.spec_tolerance().parts() == (1int, 2nat),
    {
        BalanceCheck::new()
    }
}

fn balance_message_exec(voucher: &String, debit: &Money, credit: &Money, diff: &Money) -> (r: String)
    ensures
        r@ == balance_message(voucher@, debit.parts(), credit.parts(), diff.parts()),
{
    let mut s = String::new();
    push_str(&mut s, "凭证 ");
    push_str(&mut s, voucher.as_str());
    push_str(&mut s, " 借贷不平衡：借方合计 ");
    let a = debit.to_text();
    push_str(&mut s, a.as_str());
    push_str(&mut s, "，贷方合计 ");
    let b = credit.to_text();
    push_str(&mut s, b.as_str());
    push_str(&mut s, "，差额 ");
    let c = diff.to_text();
    push_str(&mut s, c.as_str());
    s
}

fn voucher_keys_exec(transactions: &[Transaction]) -> (r: Vec<RowKey>)
    ensures
        keys_view(r@) == voucher_keys(txns_view(transactions@)),
{
    let mut r: Vec<RowKey> = Vec::new();
    let mut i: usize = 0;
    while i < transactions.len()
        invariant
            i <= transactions@.len(),
            keys_view(r@) =~= voucher_keys(txns_view(transactions@)).subrange(0, i as int),
        decreases transactions.len() - i,
    {
        let mut words: Vec<String> = Vec::new();
        words.push(transactions[i].voucher_id.clone());
        let k = RowKey { words, numbers: Vec::new() };
        proof {
            assert(k.key_view().0 =~= voucher_key(transactions@[i as int]@).0);
            assert(k.key_view().1 =~= voucher_key(transactions@[i as int]@).1);
        }
        let ghost old_r = r@;
        r.push(k);
        proof {
            assert(keys_view(r@) =~= keys_view(old_r).push(k.key_view()));
        }
        i = i + 1;
    }
    r
}

/// Adds up the debits (`debit` true) or the credits of a group's
/// transactions; `None` when a step overflows.
fn sum_group(transactions: &[Transaction], group: &Vec<usize>, debit: bool) -> (r: Option<Money>)
    requires
        forall|k: int| 0 <= k < group@.len() ==> #[trigger] group@[k] < transactions@.len(),
    ensures
        ({
            let ps = if debit {
                group_debits(txns_view(transactions@), group@)
            } else {
                group_credits(txns_view(transactions@), group@)
            };
            sum_fits(ps) ==> r is Some && r.unwrap().parts() == sum_of_parts(ps)
        }),
{
    let ghost ts = txns_view(transactions@);
    let ghost ps = if debit {
        group_debits(ts, group@)
    } else {
        group_credits(ts, group@)
    };
    let mut acc = Money::zero();
    let mut j: usize = 0;
    while j < group.len()
        invariant
            ts == txns_view(transactions@),
            ps == (if debit { group_debits(ts, group@) } else { group_credits(ts, group@) }),
            forall|k: int| 0 <= k < group@.len() ==> #[trigger] group@[k] < transactions@.len(),
            j <= group@.len(),
            sum_fits(ps.subrange(0, j as int)) ==> acc.parts() == sum_of_parts(ps.subrange(0, j as int)),
        decreases group.len() - j,
    {
        let t = &transactions[group[j]];
        assert(ts[group@[j as int] as int] == t@);
        let amount = if debit {
            t.debit
        } else {
            t.credit
        };
        assert(ps[j as int] == amount.parts());
        proof {
            assert(ps.subrange(0, j + 1).drop_last() =~= ps.subrange(0, j as int));
        }
        match acc.checked_add(&amount) {
            Some(next) => {
                acc = next;
            },
            None => {
                proof {
                    if sum_fits(ps) {
                        lemma_sum_fits_prefix(ps, j + 1);
                        assert(sum_fits(ps.subrange(0, j + 1)));
                        assert(ps.subrange(0, j + 1).last() == amount.parts());
                        assert(acc.add_fits(amount));
                    }
                }
                return None;
            },
        }
        j = j + 1;
    }
    assert(ps.subrange(0, group@.len() as int) =~= ps);
    Some(acc)
}

proof fn lemma_groups_fit_elem(ts: Seq<TxnView>, groups: Seq<Seq<usize>>, m: int, g: int)
    requires
        balance_groups_fit(ts, groups, m),
        0 <= g < m,
    ensures
        group_sums_fit(ts, groups[g]),
    decreases m,
{
    if g < m - 1 {
        lemma_groups_fit_elem(ts, groups, m - 1, g);
    }
}

/// A sum that stays exact has every prefix exact.
pub proof fn lemma_sum_fits_prefix(ps: Seq<Parts>, k: int)
    requires
        0 <= k <= ps.len(),
        sum_fits(ps),
    ensures
        sum_fits(ps.subrange(0, k)),
    decreases ps.len() - k,
{
    if k < ps.len() {
        assert(ps.drop_last() =~= ps.subrange(0, ps.len() - 1));
        lemma_sum_fits_prefix(ps.drop_last(), k);
        assert(ps.drop_last().subrange(0, k) =~= ps.subrange(0, k));
    } else {
        assert(ps.subrange(0, k) =~= ps);
    }
}

impl AuditRule for BalanceCheck {
    open spec fn check_outcome(&self, transactions: Seq<TxnView>, r: Result<Vec<AuditFinding>, AuditError>) -> bool {
        balance_sums_fit(transactions) ==> r is Ok && findings_view(r.unwrap()@) == balance_findings(transactions, self.spec_tolerance())
    }

    fn name(&self) -> (r: &'static str)
        ensures
            r@ == balance_rule_name(),
    {
        "借贷平衡检查"
    }

    fn description(&self) -> (r: &'static str)
        ensures
            r@ == "校验每笔凭证的借方总额与贷方总额是否相等"@,
    {
        "校验每笔凭证的借方总额与贷方总额是否相等"
    }

    /// Errs only when a sum overflows the range of decimals.
    fn check(&self, transactions: &[Transaction]) -> (r: Result<Vec<AuditFinding>, AuditError>)
        ensures
            balance_sums_fit(txns_view(transactions@)) ==> r is Ok && findings_view(r.unwrap()@)
                == balance_findings(txns_view(transactions@), self.spec_tolerance()),
    {
        let ghost ts = txns_view(transactions@);
        let n = transactions.len();
        let keys = voucher_keys_exec(transactions);
        let groups = group_rows(&keys);
        let ghost gs = groups_view(groups@);
        proof {
            lemma_group_spec_wf(voucher_keys(ts));
        }
        let mut findings: Vec<AuditFinding> = Vec::new();
        let mut g: usize = 0;
        while g < groups.len()
            invariant
                n == transactions@.len() == ts.len(),
                ts == txns_view(transactions@),
                gs == groups_view(groups@),
                gs == group_spec(voucher_keys(ts)),
                groups_wf(gs, n as int),
                g <= groups@.len(),
                balance_groups_fit(ts, gs, g as int) ==> findings_view(findings@) == balance_group_findings(ts, gs, self.tolerance, g as int),
            decreases groups.len() - g,
        {
            let group = &groups[g];
            assert(gs[g as int] == group@);
            assert(group@.len() > 0);
            let ghost fits = group_sums_fit(ts, group@);
            proof {
                if balance_sums_fit(ts) {
                    lemma_groups_fit_elem(ts, gs, gs.len() as int, g as int);
                }
            }
            let td = match sum_group(transactions, group, true) {
                Some(m) => m,
                None => {
                    return Err(AuditError::AmountOverflow);
                },
            };
            let tc = match sum_group(transactions, group, false) {
                Some(m) => m,
                None => {
                    return Err(AuditError::AmountOverflow);
                },
            };
            let d = match td.checked_sub(&tc) {
                Some(m) => m,
                None => {
                    return Err(AuditError::AmountOverflow);
                },
            };
            let diff = d.abs();
            let ghost before = findings_view(findings@);
            proof {
                if fits {
                    assert(diff.parts() == abs_parts(sub_parts(td.parts(), tc.parts())));
                }
            }
            if self.tolerance.lt(&diff) {
                let mut rows: Vec<usize> = Vec::new();
                let mut j: usize = 0;
                while j < group.len()
                    invariant
                        ts == txns_view(transactions@),
                        forall|k: int| 0 <= k < group@.len() ==> #[trigger] group@[k] < transactions@.len(),
                        j <= group@.len(),
                        rows@ =~= group_row_indices(ts, group@).subrange(0, j as int),
                    decreases group.len() - j,
                {
                    assert(ts[group@[j as int] as int] == transactions@[group@[j as int] as int]@);
                    rows.push(transactions[group[j]].row_index);
                    j = j + 1;
                }
                assert(rows@ =~= group_row_indices(ts, group@));
                let first = &transactions[group[0]];
                assert(ts[group@[0] as int] == first@);
                let msg = balance_message_exec(&first.voucher_id, &td, &tc, &diff);
                let f = make_finding("借贷平衡检查", Severity::Error, msg, rows);
                findings.push(f);
                proof {
                    if balance_groups_fit(ts, gs, g + 1) {
                        assert(findings_view(findings@) =~= before + seq![f@]);
                    }
                }
            } else {
                proof {
                    if balance_groups_fit(ts, gs, g + 1) {
                        assert(before + Seq::<FindingView>::empty() =~= before);
                    }
                }
            }
            g = g + 1;
        }
        Ok(findings)
    }
}

} // verus!
