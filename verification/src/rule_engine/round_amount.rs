//! The round amount rule: whole amounts of at least 100 that recur often.
use super::{finding_of, make_finding, AuditRule};
use crate::group::{group_rows, group_spec, groups_view, groups_wf, keys_view, lemma_group_members, lemma_group_spec_wf, KeyView, RowKey};
use crate::models::{amounts_valid, findings_view, max_amount, txns_view, AuditError, AuditFinding, FindingView, Severity, Transaction, TxnView};
use crate::money::{abs_int, lemma_same_normal_same_value, lemma_whole_units, nat_text, normal_parts, pow10, Money};
use crate::text::{nat_to_text, push_str};
use vstd::prelude::*;

verus! {

/// Flags whole amounts of at least 100 that occur `count_threshold` times
/// or more.
pub struct RoundAmountCheck {
    count_threshold: usize,
}

pub open spec fn round_amount_rule_name() -> Seq<char> {
    "整数金额预警"@
}

/// Whether a transaction's larger amount is a non-zero whole number of at
/// least 100.
pub open spec fn is_round_candidate(t: TxnView) -> bool {
    let a = max_amount(t);
    &&& a.units() != 0
    &&& abs_int(a.spec_mantissa()) % pow10(a.spec_scale()) == 0
    &&& a.units() >= 100 * pow10(28)
}

/// The positions, below `i`, of the candidate transactions.
pub open spec fn round_candidates(ts: Seq<TxnView>, i: int) -> Seq<usize>
    decreases i,
{
    if i <= 0 {
        Seq::empty()
    } else if is_round_candidate(ts[i - 1]) {
        round_candidates(ts, i - 1).push((i - 1) as usize)
    } else {
        round_candidates(ts, i - 1)
    }
}

/// The grouping key of an amount: its value, as its normal parts (so 5000
/// and 5000.00 give the same key).
pub open spec fn amount_key(a: Money) -> KeyView {
    let n = normal_parts(a.parts());
    (Seq::empty(), seq![n.0, n.1 as int])
}

pub open spec fn candidate_keys(ts: Seq<TxnView>, cands: Seq<usize>) -> Seq<KeyView> {
    cands.map_values(|c: usize| amount_key(max_amount(ts[c as int])))
}

/// The rows of the candidates a group lists.
pub open spec fn group_rows_of(ts: Seq<TxnView>, cands: Seq<usize>, group: Seq<usize>) -> Seq<usize> {
    group.map_values(|j: usize| ts[cands[j as int] as int].row_index)
}

pub open spec fn round_message(amount: Money, count: nat, threshold: nat) -> Seq<char> {
    "整数金额 "@ + amount.text() + " 出现 "@ + nat_text(count) + " 次（阈值 "@ + nat_text(threshold)
        + " 次），请核实是否为虚构交易"@
}

/// The findings for the groups `0..g`.
pub open spec fn round_group_findings(
    ts: Seq<TxnView>,
    cands: Seq<usize>,
    groups: Seq<Seq<usize>>,
    threshold: nat,
    g: int,
) -> Seq<FindingView>
    decreases g,
{
    if g <= 0 {
        Seq::empty()
    } else {
        let prev = round_group_findings(ts, cands, groups, threshold, g - 1);
        let group = groups[g - 1];
        if group.len() >= threshold {
            prev.push(
                finding_of(
                    round_amount_rule_name(),
                    Severity::Warning,
                    round_message(max_amount(ts[cands[group[0] as int] as int]), group.len(), threshold),
                    group_rows_of(ts, cands, group),
                ),
            )
        } else {
            prev
        }
    }
}

/// The findings of the round amount rule: one per amount that recurs at
/// least `threshold` times, in order of the amount's first appearance.
pub open spec fn round_amount_findings(ts: Seq<TxnView>, threshold: nat) -> Seq<FindingView> {
    let cands = round_candidates(ts, ts.len() as int);
    let groups = group_spec(candidate_keys(ts, cands));
    round_group_findings(ts, cands, groups, threshold, groups.len() as int)
}

impl RoundAmountCheck {
    pub closed spec fn spec_count_threshold(self) -> usize {
        self.count_threshold
    }

    pub fn new(count_threshold: usize) -> (r: Self)
        ensures
            r.spec_count_threshold() == count_threshold,
    {
        RoundAmountCheck { count_threshold }
    }
}

impl Default for RoundAmountCheck {
    /// The rule with a threshold of 5 round amounts.
    fn default() -> (r: Self)
        ensures
            r.spec_count_threshold() == 5,
    {
        RoundAmountCheck { count_threshold: 5 }
    }
}

fn round_message_exec(amount: &Money, count: usize, threshold: usize) -> (r: String)
    ensures
        r@ == round_message(*amount, count as nat, threshold as nat),
{
    let mut s = String::new();
    push_str(&mut s, "整数金额 ");
    let a = amount.to_text();
    push_str(&mut s, a.as_str());
    push_str(&mut s, " 出现 ");
    let b = nat_to_text(count as u64);
    push_str(&mut s, b.as_str());
    push_str(&mut s, " 次（阈值 ");
    let c = nat_to_text(threshold as u64);
    push_str(&mut s, c.as_str());
    push_str(&mut s, " 次），请核实是否为虚构交易");
    s
}

proof fn lemma_candidates_bound(ts: Seq<TxnView>, i: int)
    requires
        0 <= i <= ts.len(),
    ensures
        forall|k: int| 0 <= k < round_candidates(ts, i).len() ==> #[trigger] round_candidates(ts, i)[k] < i,
    decreases i,
{
    if i > 0 {
        lemma_candidates_bound(ts, i - 1);
        let prev = round_candidates(ts, i - 1);
        assert forall|k: int| 0 <= k < round_candidates(ts, i).len() implies #[trigger] round_candidates(ts, i)[k] < i by {
            if k < prev.len() {
                assert(round_candidates(ts, i)[k] == prev[k]);
            }
        }
    }
}

/// The candidates are positions of the journal whose transactions are
/// round candidates.
proof fn lemma_candidates_round(ts: Seq<TxnView>, i: int)
    requires
        0 <= i <= ts.len(),
        i <= usize::MAX,
    ensures
        round_candidates(ts, i).len() <= i,
        forall|k: int|
            0 <= k < round_candidates(ts, i).len() ==> #[trigger] round_candidates(ts, i)[k] < i && is_round_candidate(
                ts[round_candidates(ts, i)[k] as int],
            ),
    decreases i,
{
    if i > 0 {
        lemma_candidates_round(ts, i - 1);
        let prev = round_candidates(ts, i - 1);
        let cur = round_candidates(ts, i);
        if is_round_candidate(ts[i - 1]) {
            assert(cur == prev.push((i - 1) as usize));
        } else {
            assert(cur == prev);
        }
        assert forall|k: int| 0 <= k < cur.len() implies #[trigger] cur[k] < i && is_round_candidate(ts[cur[k] as int]) by {
            if k < prev.len() {
                assert(cur[k] == prev[k]);
                assert(prev[k] < i - 1 && is_round_candidate(ts[prev[k] as int]));
            } else {
                assert(cur[k] == i - 1);
            }
        }
    }
}

/// Each finding of the first `g` groups lists the rows of one of them, a
/// group of at least `threshold` candidates.
proof fn lemma_round_findings_from_groups(
    ts: Seq<TxnView>,
    cands: Seq<usize>,
    groups: Seq<Seq<usize>>,
    threshold: nat,
    g: int,
)
    requires
        0 <= g <= groups.len(),
    ensures
        forall|k: int|
            #![trigger round_group_findings(ts, cands, groups, threshold, g)[k]]
            0 <= k < round_group_findings(ts, cands, groups, threshold, g).len() ==> exists|x: int|
                #![trigger groups[x]]
                0 <= x < g && groups[x].len() >= threshold && round_group_findings(ts, cands, groups, threshold, g)[k].related_rows
                    == group_rows_of(ts, cands, groups[x]),
    decreases g,
{
    if g > 0 {
        lemma_round_findings_from_groups(ts, cands, groups, threshold, g - 1);
        let prev = round_group_findings(ts, cands, groups, threshold, g - 1);
        assert forall|k: int|
            #![trigger round_group_findings(ts, cands, groups, threshold, g)[k]]
            0 <= k < round_group_findings(ts, cands, groups, threshold, g).len() implies exists|x: int|
            #![trigger groups[x]]
            0 <= x < g && groups[x].len() >= threshold && round_group_findings(ts, cands, groups, threshold, g)[k].related_rows
                == group_rows_of(ts, cands, groups[x]) by {
            if k < prev.len() {
                assert(round_group_findings(ts, cands, groups, threshold, g)[k] == prev[k]);
                assert(prev[k] == round_group_findings(ts, cands, groups, threshold, g - 1)[k]);
                let x = choose|x: int| #![trigger groups[x]] 0 <= x < g - 1 && groups[x].len() >= threshold && prev[k].related_rows
                    == group_rows_of(ts, cands, groups[x]);
                assert(0 <= x < g);
            } else {
                assert(groups[g - 1].len() >= threshold);
                assert(round_group_findings(ts, cands, groups, threshold, g)[k].related_rows == group_rows_of(
                    ts,
                    cands,
                    groups[g - 1],
                ));
            }
        }
    }
}

/// Whether every row in `rows` is that of a transaction whose larger amount
/// is worth `u` units.
pub open spec fn rows_with_amount(ts: Seq<TxnView>, rows: Seq<usize>, u: int) -> bool {
    forall|k: int|
        #![trigger rows[k]]
        0 <= k < rows.len() ==> exists|i: int|
            #![trigger ts[i]]
            0 <= i < ts.len() && ts[i].row_index == rows[k] && max_amount(ts[i]).units() == u
}

/// Each round amount finding reports at least `threshold` transactions
/// whose larger amount has one and the same value, a whole number of at
/// least 100: an amount with a fractional part is never counted.
pub proof fn law_round_amounts_are_whole(ts: Seq<TxnView>, threshold: nat)
    requires
        ts.len() <= usize::MAX,
        amounts_valid(ts),
    ensures
        forall|k: int|
            #![trigger round_amount_findings(ts, threshold)[k]]
            0 <= k < round_amount_findings(ts, threshold).len() ==> round_amount_findings(ts, threshold)[k].related_rows.len()
                >= threshold && exists|u: int|
                u % pow10(28) == 0 && u >= 100 * pow10(28) && #[trigger] rows_with_amount(
                    ts,
                    round_amount_findings(ts, threshold)[k].related_rows,
                    u,
                ),
{
    let cands = round_candidates(ts, ts.len() as int);
    let keys = candidate_keys(ts, cands);
    let groups = group_spec(keys);
    let fs = round_amount_findings(ts, threshold);
    lemma_candidates_round(ts, ts.len() as int);
    lemma_round_findings_from_groups(ts, cands, groups, threshold, groups.len() as int);
    lemma_group_spec_wf(keys);
    assert forall|k: int| #![trigger fs[k]] 0 <= k < fs.len() implies fs[k].related_rows.len() >= threshold && exists|u: int|
        u % pow10(28) == 0 && u >= 100 * pow10(28) && #[trigger] rows_with_amount(ts, fs[k].related_rows, u) by {
        assert(fs[k] == round_group_findings(ts, cands, groups, threshold, groups.len() as int)[k]);
        let x = choose|x: int| #![trigger groups[x]] 0 <= x < groups.len() && groups[x].len() >= threshold && fs[k].related_rows
            == group_rows_of(ts, cands, groups[x]);
        let rows = group_rows_of(ts, cands, groups[x]);
        assert(groups[x].len() > 0);
        assert(groups[x][0] < cands.len());
        let f0 = cands[groups[x][0] as int] as int;
        let b = max_amount(ts[f0]);
        let u = b.units();
        assert(is_round_candidate(ts[f0]));
        assert(ts[f0].debit.inv() && ts[f0].credit.inv());
        lemma_whole_units(b);
        assert forall|j: int| #![trigger rows[j]] 0 <= j < rows.len() implies exists|i: int|
            #![trigger ts[i]]
            0 <= i < ts.len() && ts[i].row_index == rows[j] && max_amount(ts[i]).units() == u by {
            let m = groups[x][j] as int;
            assert(m < cands.len());
            lemma_group_members(keys, x, m);
            assert(groups[x].contains(m as usize));
            let i = cands[m] as int;
            let a = max_amount(ts[i]);
            assert(keys[m] == amount_key(a));
            assert(keys[groups[x][0] as int] == amount_key(b));
            assert(ts[i].debit.inv() && ts[i].credit.inv());
            assert(normal_parts(a.parts()).0 == amount_key(a).1[0]);
            assert(normal_parts(a.parts()).1 as int == amount_key(a).1[1]);
            assert(normal_parts(a.parts()) == normal_parts(b.parts()));
            lemma_same_normal_same_value(a, b);
            assert(rows[j] == ts[i].row_index);
        }
        assert(rows_with_amount(ts, fs[k].related_rows, u));
    }
}

impl AuditRule for RoundAmountCheck {
    open spec fn check_outcome(&self, transactions: Seq<TxnView>, r: Result<Vec<AuditFinding>, AuditError>) -> bool {
        r is Ok && findings_view(r.unwrap()@) == round_amount_findings(transactions, self.spec_count_threshold() as nat)
    }

    fn name(&self) -> (r: &'static str)
        ensures
            r@ == round_amount_rule_name(),
    {
        "整数金额预警"
    }

    fn description(&self) -> (r: &'static str)
        ensures
            r@ == "标记频繁出现的整数金额交易（可能为虚构交易）"@,
    {
        "标记频繁出现的整数金额交易（可能为虚构交易）"
    }

    fn check(&self, transactions: &[Transaction]) -> (r: Result<Vec<AuditFinding>, AuditError>)
        ensures
            r is Ok,
            findings_view(r.unwrap()@) == round_amount_findings(
                txns_view(transactions@),
                self.spec_count_threshold() as nat,
            ),
    {
        let ghost ts = txns_view(transactions@);
        let n = transactions.len();
        let hundred = Money::new(100, 0);
        proof {
            assert(pow10(28) == pow10((28 - 0) as nat));
        }
        let mut cands: Vec<usize> = Vec::new();
        let mut amounts: Vec<Money> = Vec::new();
        let mut keys: Vec<RowKey> = Vec::new();
        let mut i: usize = 0;
        while i < n
            invariant
                n == transactions@.len() == ts.len(),
                ts == txns_view(transactions@),
                hundred.units() == 100 * pow10(28),
                i <= n,
                cands@ == round_candidates(ts, i as int),
                amounts@.len() == cands@.len(),
                forall|k: int| 0 <= k < cands@.len() ==> #[trigger] amounts@[k] == max_amount(ts[cands@[k] as int]),
                keys_view(keys@) == candidate_keys(ts, cands@),
            decreases n - i,
        {
            let t = &transactions[i];
            assert(ts[i as int] == t@);
            let amount = t.debit.max(&t.credit);
            if !amount.is_zero() && amount.is_integral() && hundred.le(&amount) {
                let mut numbers: Vec<i128> = Vec::new();
                let v = amount.normalized();
                numbers.push(v.0);
                numbers.push(v.1 as i128);
                let k = RowKey { words: Vec::new(), numbers };
                proof {
                    assert(k.key_view().0 =~= amount_key(amount).0);
                    assert(k.key_view().1 =~= amount_key(amount).1);
                }
                let ghost old_keys = keys@;
                let ghost old_cands = cands@;
                keys.push(k);
                cands.push(i);
                amounts.push(amount);
                proof {
                    assert(keys_view(keys@) =~= keys_view(old_keys).push(k.key_view()));
                    assert(candidate_keys(ts, cands@) =~= candidate_keys(ts, old_cands).push(
                        amount_key(max_amount(ts[i as int])),
                    ));
                }
            }
            i = i + 1;
        }
        proof {
            lemma_candidates_bound(ts, n as int);
            lemma_group_spec_wf(candidate_keys(ts, cands@));
        }
        let groups = group_rows(&keys);
        let ghost gs = groups_view(groups@);
        let mut findings: Vec<AuditFinding> = Vec::new();
        let mut g: usize = 0;
        while g < groups.len()
            invariant
                n == transactions@.len() == ts.len(),
                ts == txns_view(transactions@),
                cands@ == round_candidates(ts, n as int),
                forall|k: int| 0 <= k < cands@.len() ==> #[trigger] cands@[k] < n,
                amounts@.len() == cands@.len(),
                forall|k: int| 0 <= k < cands@.len() ==> #[trigger] amounts@[k] == max_amount(ts[cands@[k] as int]),
                gs == groups_view(groups@),
                gs == group_spec(candidate_keys(ts, cands@)),
                groups_wf(gs, cands@.len() as int),
                g <= groups@.len(),
                findings_view(findings@) == round_group_findings(ts, cands@, gs, self.count_threshold as nat, g as int),
            decreases groups.len() - g,
        {
            let group = &groups[g];
            assert(gs[g as int] == group@);
            assert(group@.len() > 0);
            if group.len() >= self.count_threshold {
                let mut rows: Vec<usize> = Vec::new();
                let mut j: usize = 0;
                while j < group.len()
                    invariant
                        n == transactions@.len() == ts.len(),
                        ts == txns_view(transactions@),
                        group@ == gs[g as int],
                        forall|k: int| 0 <= k < group@.len() ==> #[trigger] group@[k] < cands@.len(),
                        forall|k: int| 0 <= k < cands@.len() ==> #[trigger] cands@[k] < n,
                        j <= group@.len(),
                        rows@ =~= group_rows_of(ts, cands@, group@).subrange(0, j as int),
                    decreases group.len() - j,
                {
                    let c = cands[group[j]];
                    assert(ts[c as int] == transactions@[c as int]@);
                    rows.push(transactions[c].row_index);
                    j = j + 1;
                }
                let first = group[0];
                assert(first < cands@.len());
                assert(amounts@[first as int] == max_amount(ts[cands@[first as int] as int]));
                let msg = round_message_exec(&amounts[first], group.len(), self.count_threshold);
                assert(rows@ =~= group_rows_of(ts, cands@, group@));
                let f = make_finding("整数金额预警", Severity::Warning, msg, rows);
                let ghost old_f = findings@;
                findings.push(f);
                proof {
                    assert(findings_view(findings@) =~= findings_view(old_f).push(f@));
                    assert(f@ == finding_of(
                        round_amount_rule_name(),
                        Severity::Warning,
                        round_message(max_amount(ts[cands@[gs[g as int][0] as int] as int]), gs[g as int].len(), self.count_threshold as nat),
                        group_rows_of(ts, cands@, gs[g as int]),
                    ));
                }
            }
            g = g + 1;
        }
        Ok(findings)
    }
}

} // verus!
