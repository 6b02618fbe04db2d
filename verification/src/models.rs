//! The journal's transactions, the findings of an audit, the report that
//! collects them, and the configuration of the rules.
use crate::date::Date;
use crate::money::{difference_of, opt_parts, Money};
use vstd::prelude::*;

verus! {

/// One line of a journal.
#[derive(Clone, Debug)]
pub struct Transaction {
    /// The row of the source data it came from.
    pub row_index: usize,
    pub date: Date,
    pub voucher_id: String,
    pub account_code: String,
    pub account_name: String,
    pub description: String,
    pub debit: Money,
    pub credit: Money,
}

/// The spec form of a transaction.
pub struct TxnView {
    pub row_index: usize,
    pub date: Date,
    pub voucher_id: Seq<char>,
    pub account_code: Seq<char>,
    pub account_name: Seq<char>,
    pub description: Seq<char>,
    pub debit: Money,
    pub credit: Money,
}

impl View for Transaction {
    type V = TxnView;

    open spec fn view(&self) -> TxnView {
        TxnView {
            row_index: self.row_index,
            date: self.date,
            voucher_id: self.voucher_id@,
            account_code: self.account_code@,
            account_name: self.account_name@,
            description: self.description@,
            debit: self.debit,
            credit: self.credit,
        }
    }
}

pub open spec fn txns_view(ts: Seq<Transaction>) -> Seq<TxnView> {
    ts.map_values(|t: Transaction| t@)
}

/// The larger of debit and credit, as `Decimal::max` picks it.
/// No two transactions share a row number.
pub open spec fn rows_distinct(ts: Seq<TxnView>) -> bool {
    forall|i: int, j: int| 0 <= i < j < ts.len() ==> #[trigger] ts[i].row_index != #[trigger] ts[j].row_index
}

/// Every amount holds a valid decimal.
pub open spec fn amounts_valid(ts: Seq<TxnView>) -> bool {
    forall|i: int| 0 <= i < ts.len() ==> (#[trigger] ts[i]).debit.inv() && ts[i].credit.inv()
}

pub open spec fn max_amount(t: TxnView) -> Money {
    t.debit.spec_max(t.credit)
}

impl Transaction {
    /// Debit minus credit, where the subtraction does not overflow.
    pub fn net_amount(&self) -> (r: Money)
        requires
            difference_of(self.debit, self.credit) is Some,
        ensures
            Some((r.spec_mantissa(), r.spec_scale() as int)) == difference_of(self.debit, self.credit),
            self.debit.sub_fits(self.credit) ==> r.units() == self.debit.units() - self.credit.units(),
    {
        let d = self.debit.checked_sub(&self.credit);
        d.unwrap()
    }

    /// Debit minus credit; `None` where the subtraction overflows.
    pub fn checked_net_amount(&self) -> (r: Option<Money>)
        ensures
            opt_parts(r) == difference_of(self.debit, self.credit),
            self.debit.sub_fits(self.credit) ==> r is Some && r.unwrap().units() == self.debit.units()
                - self.credit.units(),
    {
        let d = self.debit.checked_sub(&self.credit);
        if d.is_some() {
            Some(self.net_amount())
        } else {
            None
        }
    }

    /// Whether the debit is positive.
    pub fn is_debit(&self) -> (r: bool)
        ensures
            r == (self.debit.units() > 0),
    {
        let z = Money::zero();
        z.lt(&self.debit)
    }

    /// Whether the credit is positive.
    pub fn is_credit(&self) -> (r: bool)
        ensures
            r == (self.credit.units() > 0),
    {
        let z = Money::zero();
        z.lt(&self.credit)
    }
}

/// How serious a finding is.
#[derive(PartialEq, Eq, Structural, Clone, Copy, Debug)]
pub enum Severity {
    Info,
    Warning,
    Error,
}

pub open spec fn severity_text(s: Severity) -> Seq<char> {
    match s {
        Severity::Info => "信息"@,
        Severity::Warning => "警告"@,
        Severity::Error => "错误"@,
    }
}

impl Severity {
    /// The label a report prints for the severity.
    pub fn to_text(&self) -> (r: String)
        ensures
            r@ == severity_text(*self),
    {
        match self {
            Severity::Info => String::from_str("信息"),
            Severity::Warning => String::from_str("警告"),
            Severity::Error => String::from_str("错误"),
        }
    }
}

/// One finding of an audit.
#[derive(Clone, Debug)]
pub struct AuditFinding {
    pub rule_name: String,
    pub severity: Severity,
    pub message: String,
    /// The rows of the transactions it concerns.
    pub related_rows: Vec<usize>,
}

/// The spec form of a finding.
pub struct FindingView {
    pub rule_name: Seq<char>,
    pub severity: Severity,
    pub message: Seq<char>,
    pub related_rows: Seq<usize>,
}

impl View for AuditFinding {
    type V = FindingView;

    open spec fn view(&self) -> FindingView {
        FindingView {
            rule_name: self.rule_name@,
            severity: self.severity,
            message: self.message@,
            related_rows: self.related_rows@,
        }
    }
}

pub open spec fn findings_view(fs: Seq<AuditFinding>) -> Seq<FindingView> {
    fs.map_values(|f: AuditFinding| f@)
}

/// The number of findings of the given severity.
pub open spec fn count_severity(fs: Seq<FindingView>, s: Severity) -> nat
    decreases fs.len(),
{
    if fs.len() == 0 {
        0
    } else {
        count_severity(fs.drop_last(), s) + (if fs.last().severity == s {
            1nat
        } else {
            0nat
        })
    }
}

/// Why an audit step could not complete.
#[derive(PartialEq, Eq, Structural, Clone, Copy, Debug)]
pub enum AuditError {
    /// A sum of amounts left the range of decimals.
    AmountOverflow,
}

/// The findings of an audit with the journal's totals.
#[derive(Clone, Debug)]
pub struct AuditReport {
    pub findings: Vec<AuditFinding>,
    pub total_transactions: usize,
    pub total_debit: Money,
    pub total_credit: Money,
    /// When the report was made, as local time `%Y-%m-%d %H:%M:%S`.
    pub audit_time: String,
}

/// The local time, `%Y-%m-%d %H:%M:%S`; it depends on the clock, so nothing
/// is stated of it.
#[verifier::external_body]
pub(crate) fn local_time_text() -> String {
    chrono::Local::now().format("%Y-%m-%d %H:%M:%S").to_string()
}

impl AuditReport {
    /// An empty report stamped with the current local time.
    pub fn new(total_transactions: usize, total_debit: Money, total_credit: Money) -> (r:
        AuditReport)
        ensures
            r.findings@.len() == 0,
            r.total_transactions == total_transactions,
            r.total_debit == total_debit,
            r.total_credit == total_credit,
    {
        AuditReport {
            findings: Vec::new(),
            total_transactions,
            total_debit,
            total_credit,
            audit_time: local_time_text(),
        }
    }

    /// Appends a finding.
    pub fn add_finding(&mut self, finding: AuditFinding)
        ensures
            final(self).findings@ == old(self).findings@.push(finding),
            final(self).total_transactions == old(self).total_transactions,
            final(self).total_debit == old(self).total_debit,
            final(self).total_credit == old(self).total_credit,
            final(self).audit_time == old(self).audit_time,
    {
        self.findings.push(finding);
    }

    /// Appends the findings of another report.
    pub fn merge(&mut self, other: AuditReport)
        ensures
            final(self).findings@ == old(self).findings@ + other.findings@,
            final(self).total_transactions == old(self).total_transactions,
            final(self).total_debit == old(self).total_debit,
            final(self).total_credit == old(self).total_credit,
            final(self).audit_time == old(self).audit_time,
    {
        let mut more = other.findings;
        self.findings.append(&mut more);
    }

    /// The number of findings of a severity.
    pub fn count_by_severity(&self, severity: Severity) -> (r: usize)
        ensures
            r == count_severity(findings_view(self.findings@), severity),
    {
        let mut count: usize = 0;
        let mut i: usize = 0;
        while i < self.findings.len()
            invariant
                i <= self.findings@.len(),
                count == count_severity(findings_view(self.findings@.subrange(0, i as int)), severity),
                count <= i,
            decreases self.findings.len() - i,
        {
            proof {
                assert(findings_view(self.findings@.subrange(0, i + 1)).drop_last() =~= findings_view(
                    self.findings@.subrange(0, i as int),
                ));
            }
            if self.findings[i].severity == severity {
                count = count + 1;
            }
            i = i + 1;
        }
        assert(self.findings@.subrange(0, i as int) =~= self.findings@);
        count
    }

    pub fn error_count(&self) -> (r: usize)
        ensures
            r == count_severity(findings_view(self.findings@), Severity::Error),
    {
        self.count_by_severity(Severity::Error)
    }

    pub fn warning_count(&self) -> (r: usize)
        ensures
            r == count_severity(findings_view(self.findings@), Severity::Warning),
    {
        self.count_by_severity(Severity::Warning)
    }

    pub fn info_count(&self) -> (r: usize)
        ensures
            r == count_severity(findings_view(self.findings@), Severity::Info),
    {
        self.count_by_severity(Severity::Info)
    }
}

/// Every finding has exactly one severity: the errors, warnings and
/// informational findings of a report add up to all its findings.
pub proof fn lemma_severity_counts_partition(fs: Seq<FindingView>)
    ensures
        count_severity(fs, Severity::Error) + count_severity(fs, Severity::Warning) + count_severity(
            fs,
            Severity::Info,
        ) == fs.len(),
    decreases fs.len(),
{
    if fs.len() > 0 {
        lemma_severity_counts_partition(fs.drop_last());
    }
}

/// Merging reports adds up their counts: the findings of `a` followed by
/// those of `b` hold, of each severity, as many as `a` and `b` together.
pub proof fn law_merge_adds_counts(a: Seq<FindingView>, b: Seq<FindingView>, s: Severity)
    ensures
        count_severity(a + b, s) == count_severity(a, s) + count_severity(b, s),
    decreases b.len(),
{
    if b.len() > 0 {
        law_merge_adds_counts(a, b.drop_last(), s);
        assert((a + b).drop_last() =~= a + b.drop_last());
    } else {
        assert(a + b =~= a);
    }
}

/// Adding a finding raises the count of its severity by one and leaves the
/// other counts as they were.
pub proof fn law_add_finding_counts(fs: Seq<FindingView>, f: FindingView, s: Severity)
    ensures
        count_severity(fs.push(f), s) == count_severity(fs, s) + if f.severity == s {
            1nat
        } else {
            0nat
        },
{
    assert(fs.push(f).drop_last() =~= fs);
}

/// The general section of the configuration.
#[derive(Clone, Debug)]
pub struct GeneralConfig {
    pub decimal_places: Option<u32>,
}

/// The rules section of the configuration.
#[derive(Clone, Debug)]
pub struct RulesConfig {
    pub balance_check: Option<BalanceCheckConfig>,
    pub threshold: Option<ThresholdConfig>,
    pub duplicate: Option<DuplicateConfig>,
    pub date_continuity: Option<DateContinuityConfig>,
    pub account_compliance: Option<AccountComplianceConfig>,
    pub round_amount: Option<RoundAmountConfig>,
}

#[derive(Clone, Debug)]
pub struct BalanceCheckConfig {
    pub enabled: bool,
    pub tolerance: Option<String>,
}

#[derive(Clone, Debug)]
pub struct ThresholdConfig {
    pub enabled: bool,
    pub amount_threshold: Option<String>,
}

#[derive(Clone, Debug)]
pub struct DuplicateConfig {
    pub enabled: bool,
    pub time_window_days: Option<i64>,
}

#[derive(Clone, Debug)]
pub struct DateContinuityConfig {
    pub enabled: bool,
    pub max_gap_days: Option<i64>,
}

#[derive(Clone, Debug)]
pub struct AccountComplianceConfig {
    pub enabled: bool,
    pub valid_accounts: Option<Vec<String>>,
}

#[derive(Clone, Debug)]
pub struct RoundAmountConfig {
    pub enabled: bool,
    pub count_threshold: Option<usize>,
}

/// The audit configuration, as the rules read it.
#[derive(Clone, Debug)]
pub struct AuditConfig {
    pub general: Option<GeneralConfig>,
    pub rules: Option<RulesConfig>,
}

} // verus!
