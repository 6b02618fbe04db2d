//! The rule executor: runs a set of rules and gathers their findings.
use super::{AuditRule, ConfiguredRule, RuleSet};
use super::balance_check::{sum_fits, sum_of_parts};
use crate::models::{findings_view, txns_view, AuditError, AuditFinding, AuditReport, FindingView, Transaction, TxnView};
use crate::money::{Money, Parts};
use vstd::prelude::*;

verus! {

/// The findings of the rules that succeeded, in the order of the rules.
pub open spec fn ok_findings(results: Seq<Result<Vec<AuditFinding>, AuditError>>) -> Seq<FindingView>
    decreases results.len(),
{
    if results.len() == 0 {
        Seq::empty()
    } else {
        ok_findings(results.drop_last()) + match results.last() {
            Ok(fs) => findings_view(fs@),
            Err(_) => Seq::empty(),
        }
    }
}

/// Gathers the findings of the rules that succeeded; the failed rules are
/// passed over.
pub fn collect_findings(results: Vec<Result<Vec<AuditFinding>, AuditError>>) -> (r: Vec<AuditFinding>)
    ensures
        findings_view(r@) == ok_findings(results@),
{
    let ghost all = results@;
    let mut out: Vec<AuditFinding> = Vec::new();
    let mut rest = results;
    let mut done: Vec<Result<Vec<AuditFinding>, AuditError>> = Vec::new();
    let mut i: usize = 0;
    let n = rest.len();
    while i < n
        invariant
            n == all.len(),
            i <= n,
            rest@ == all.subrange(i as int, n as int),
            findings_view(out@) == ok_findings(all.subrange(0, i as int)),
        decreases n - i,
    {
        let ghost before = findings_view(out@);
        let item = rest.remove(0);
        assert(item == all[i as int]);
        proof {
            assert(all.subrange(0, i + 1).drop_last() =~= all.subrange(0, i as int));
            assert(all.subrange(0, i + 1).last() == item);
        }
        match item {
            Ok(fs) => {
                let ghost added = findings_view(fs@);
                let mut fs = fs;
                out.append(&mut fs);
                proof {
                    assert(findings_view(out@) =~= before + added);
                }
            },
            Err(_) => {
                assert(before + Seq::<FindingView>::empty() =~= before);
            },
        }
        assert(rest@ =~= all.subrange(i + 1, n as int));
        i = i + 1;
    }
    assert(all.subrange(0, n as int) =~= all);
    out
}

/// One outcome per rule, each one its rule allows for the journal: first
/// those of the configured rules, then those of the other rules.
pub open spec fn outcomes_of(
    configured: Seq<ConfiguredRule>,
    rules: Seq<Box<dyn AuditRule>>,
    transactions: Seq<TxnView>,
    results: Seq<Result<Vec<AuditFinding>, AuditError>>,
) -> bool {
    &&& results.len() == configured.len() + rules.len()
    &&& forall|i: int| 0 <= i < configured.len() ==> #[trigger] configured[i].check_outcome(transactions, results[i])
    &&& forall|i: int|
        0 <= i < rules.len() ==> #[trigger] rules[i].check_outcome(transactions, results[configured.len() + i])
}

/// Runs a set of rules over a journal: the rules of a configuration, then
/// any others.
pub struct RuleExecutor {
    configured: Vec<ConfiguredRule>,
    rules: Vec<Box<dyn AuditRule>>,
}

impl RuleExecutor {
    #[verifier::type_invariant]
    closed spec fn fits(self) -> bool {
        self.configured@.len() + self.rules@.len() <= usize::MAX
    }

    pub closed spec fn spec_rule_count(self) -> nat {
        self.configured@.len() + self.rules@.len()
    }

    /// The configured rules, in order; they run first.
    pub closed spec fn spec_configured(self) -> Seq<ConfiguredRule> {
        self.configured@
    }

    /// The other rules, in order; they run after the configured ones.
    pub closed spec fn spec_rules(self) -> Seq<Box<dyn AuditRule>> {
        self.rules@
    }

    pub fn new(rules: Vec<Box<dyn AuditRule>>) -> (r: Self)
        ensures
            r.spec_rule_count() == rules@.len(),
            r.spec_configured() == Seq::<ConfiguredRule>::empty(),
            r.spec_rules() == rules@,
    {
        let configured: Vec<ConfiguredRule> = Vec::new();
        let count: usize = rules.len();
        assert(configured@.len() + rules@.len() == count);
        RuleExecutor { configured, rules }
    }

    /// An executor for the rules of a configuration.
    pub fn from_rule_set(set: RuleSet) -> (r: Self)
        requires
            set.configured@.len() + set.always_on@.len() <= usize::MAX,
        ensures
            r.spec_rule_count() == set.configured@.len() + set.always_on@.len(),
            r.spec_configured() == set.configured@,
            r.spec_rules() == set.always_on@,
    {
        RuleExecutor { configured: set.configured, rules: set.always_on }
    }

    /// The number of rules.
    pub fn rule_count(&self) -> (r: usize)
        ensures
            r == self.spec_rule_count(),
    {
        proof {
            use_type_invariant(self);
        }
        self.configured.len() + self.rules.len()
    }

    /// Runs every rule, the configured ones first, and gathers the findings
    /// of the rules that succeed, in the order of the rules; a rule that
    /// fails is passed over. For a rule that leaves `check_outcome` at its
    /// default (one written outside this library), any outcome of its check
    /// is allowed here.
    pub fn execute_all(&self, transactions: &[Transaction]) -> (r: Result<Vec<AuditFinding>, AuditError>)
        ensures
            r is Ok,
            exists|results: Seq<Result<Vec<AuditFinding>, AuditError>>|
                outcomes_of(self.spec_configured(), self.spec_rules(), txns_view(transactions@), results)
                    && #[trigger] ok_findings(results) == findings_view(r.unwrap()@),
    {
        let ghost ts = txns_view(transactions@);
        let mut results: Vec<Result<Vec<AuditFinding>, AuditError>> = Vec::new();
        let mut i: usize = 0;
        while i < self.configured.len()
            invariant
                i <= self.configured@.len(),
                ts == txns_view(transactions@),
                results@.len() == i,
                forall|k: int| 0 <= k < i ==> #[trigger] self.configured@[k].check_outcome(ts, results@[k]),
            decreases self.configured.len() - i,
        {
            let res = self.configured[i].check(transactions);
            results.push(res);
            i = i + 1;
        }
        let c = self.configured.len();
        let mut j: usize = 0;
        while j < self.rules.len()
            invariant
                c == self.configured@.len(),
                j <= self.rules@.len(),
                ts == txns_view(transactions@),
                results@.len() == c + j,
                forall|k: int| 0 <= k < c ==> #[trigger] self.configured@[k].check_outcome(ts, results@[k]),
                forall|k: int| 0 <= k < j ==> #[trigger] self.rules@[k].check_outcome(ts, results@[c + k]),
            decreases self.rules.len() - j,
        {
            let res = self.rules[j].check(transactions);
            results.push(res);
            j = j + 1;
        }
        assert(outcomes_of(self.configured@, self.rules@, ts, results@));
        Ok(collect_findings(results))
    }

    /// The names of the rules, in order, the configured ones first.
    pub fn rule_names(&self) -> (r: Vec<&'static str>)
        ensures
            r@.len() == self.spec_rule_count(),
            forall|i: int| 0 <= i < self.spec_configured().len() ==> r@[i]@ == #[trigger] self.spec_configured()[i].spec_name(),
    {
        let mut names: Vec<&'static str> = Vec::new();
        let mut i: usize = 0;
        while i < self.configured.len()
            invariant
                i <= self.configured@.len(),
                names@.len() == i,
                forall|k: int| 0 <= k < i ==> names@[k]@ == #[trigger] self.configured@[k].spec_name(),
            decreases self.configured.len() - i,
        {
            names.push(self.configured[i].name());
            i = i + 1;
        }
        let c = self.configured.len();
        let mut j: usize = 0;
        while j < self.rules.len()
            invariant
                c == self.configured@.len(),
                j <= self.rules@.len(),
                names@.len() == c + j,
                forall|k: int| 0 <= k < c ==> names@[k]@ == #[trigger] self.configured@[k].spec_name(),
            decreases self.rules.len() - j,
        {
            names.push(self.rules[j].name());
            j = j + 1;
        }
        names
    }
}

pub open spec fn debit_parts(ts: Seq<TxnView>) -> Seq<Parts> {
    ts.map_values(|t: TxnView| t.debit.parts())
}

pub open spec fn credit_parts(ts: Seq<TxnView>) -> Seq<Parts> {
    ts.map_values(|t: TxnView| t.credit.parts())
}

/// Adds up the debits (`debit` true) or the credits of a journal; `None`
/// when a step overflows.
pub fn total_amount(transactions: &[Transaction], debit: bool) -> (r: Option<Money>)
    ensures
        ({
            let ps = if debit {
                debit_parts(txns_view(transactions@))
            } else {
                credit_parts(txns_view(transactions@))
            };
            sum_fits(ps) ==> r is Some && r.unwrap().parts() == sum_of_parts(ps)
        }),
{
    let ghost ts = txns_view(transactions@);
    let ghost ps = if debit {
        debit_parts(ts)
    } else {
        credit_parts(ts)
    };
    let mut acc = Money::zero();
    let mut j: usize = 0;
    while j < transactions.len()
        invariant
            ts == txns_view(transactions@),
            ps == (if debit { debit_parts(ts) } else { credit_parts(ts) }),
            j <= transactions@.len(),
            sum_fits(ps.subrange(0, j as int)) ==> acc.parts() == sum_of_parts(ps.subrange(0, j as int)),
        decreases transactions.len() - j,
    {
        let t = &transactions[j];
        assert(ts[j as int] == t@);
        let amount = if debit {
            t.debit
        } else {
            t.credit
        };
        assert(ps[j as int] == amount.parts());
        proof {
            assert(ps.subrange(0, j + 1).drop_last() =~= ps.subrange(0, j as int));
        }
        match acc.checked_add(&amount) {
            Some(next) => {
                acc = next;
            },
            None => {
                proof {
                    if sum_fits(ps) {
                        super::balance_check::lemma_sum_fits_prefix(ps, j + 1);
                        assert(ps.subrange(0, j + 1).last() == amount.parts());
                        assert(acc.add_fits(amount));
                    }
                }
                return None;
            },
        }
        j = j + 1;
    }
    assert(ps.subrange(0, transactions@.len() as int) =~= ps);
    Some(acc)
}

/// Runs the rules over the journal and collects their findings in a report
/// stamped with the current time, with the journal's size and totals.  Errs
/// only when a total overflows the range of decimals.
pub fn audit_with_rules(transactions: &[Transaction], executor: &RuleExecutor) -> (r: Result<AuditReport, AuditError>)
    ensures
        sum_fits(debit_parts(txns_view(transactions@))) && sum_fits(credit_parts(txns_view(transactions@)))
            ==> r is Ok,
        r is Ok ==> r.unwrap().total_transactions == transactions@.len(),
        sum_fits(debit_parts(txns_view(transactions@))) && r is Ok ==> r.unwrap().total_debit.parts()
            == sum_of_parts(debit_parts(txns_view(transactions@))),
        sum_fits(credit_parts(txns_view(transactions@))) && r is Ok ==> r.unwrap().total_credit.parts()
            == sum_of_parts(credit_parts(txns_view(transactions@))),
        r is Ok ==> exists|results: Seq<Result<Vec<AuditFinding>, AuditError>>|
            outcomes_of(executor.spec_configured(), executor.spec_rules(), txns_view(transactions@), results)
                && #[trigger] ok_findings(
                results,
            ) == findings_view(r.unwrap().findings@),
{
    let total_debit = match total_amount(transactions, true) {
        Some(m) => m,
        None => {
            return Err(AuditError::AmountOverflow);
        },
    };
    let total_credit = match total_amount(transactions, false) {
        Some(m) => m,
        None => {
            return Err(AuditError::AmountOverflow);
        },
    };
    let mut report = AuditReport::new(transactions.len(), total_debit, total_credit);
    let findings = executor.execute_all(transactions);
    let ghost empty = report.findings@;
    match findings {
        Ok(fs) => {
            let ghost added = fs@;
            let mut fs = fs;
            report.findings.append(&mut fs);
            assert(report.findings@ =~= added) by {
                assert(empty + added =~= added);
            }
        },
        Err(_) => {},
    }
    Ok(report)
}

} // verus!
