//! The audit rules: a common trait, the rules themselves, and the execution
//! of a set of rules over a journal.
pub mod balance_check;
pub mod date_continuity;
pub mod duplicate;
pub mod related_party;
pub mod round_amount;
pub mod rules;
pub mod threshold;

use crate::models::{txns_view, AuditConfig, AuditError, AuditFinding, FindingView, Severity, Transaction, TxnView};
use crate::money::{Money, Parts};
use balance_check::{balance_rule_name, configured_tolerance, BalanceCheck};
use date_continuity::{continuity_rule_name, DateContinuityCheck};
use duplicate::{duplicate_rule_name, DuplicateCheck};
use round_amount::{round_amount_rule_name, RoundAmountCheck};
use threshold::{configured_threshold, threshold_rule_name, ThresholdCheck};
use vstd::prelude::*;

verus! {

/// An audit rule: a named check over a journal that reports findings.
pub trait AuditRule: Send + Sync {
    /// The rule's name.
    fn name(&self) -> &'static str;

    /// What the rule checks.
    fn description(&self) -> &'static str;

    /// What the rule may answer for a journal: a rule of this library holds
    /// here the exact outcome its check gives; a rule that does not say
    /// allows any outcome.
    open spec fn check_outcome(&self, transactions: Seq<TxnView>, r: Result<Vec<AuditFinding>, AuditError>) -> bool {
        true
    }

    /// Runs the check over the transactions.
    fn check(&self, transactions: &[Transaction]) -> (r: Result<Vec<AuditFinding>, AuditError>)
        ensures
            self.check_outcome(txns_view(transactions@), r),
    ;
}

/// The spec form of a finding built from its parts.
pub open spec fn finding_of(
    rule_name: Seq<char>,
    severity: Severity,
    message: Seq<char>,
    related_rows: Seq<usize>,
) -> FindingView {
    FindingView { rule_name, severity, message, related_rows }
}

/// A finding with the given parts.
pub fn make_finding(
    rule_name: &str,
    severity: Severity,
    message: String,
    related_rows: Vec<usize>,
) -> (f: AuditFinding)
    ensures
        f@ == finding_of(rule_name@, severity, message@, related_rows@),
{
    AuditFinding { rule_name: String::from_str(rule_name), severity, message, related_rows }
}

/// A one-element row list.
pub fn one_row(row: usize) -> (v: Vec<usize>)
    ensures
        v@ == seq![row],
{
    let mut v: Vec<usize> = Vec::new();
    v.push(row);
    v
}

/// A two-element row list.
pub fn two_rows(a: usize, b: usize) -> (v: Vec<usize>)
    ensures
        v@ == seq![a, b],
{
    let mut v: Vec<usize> = Vec::new();
    v.push(a);
    v.push(b);
    proof {
        assert(v@ =~= seq![a, b]);
    }
    v
}

/// A rule the configuration switches on.
pub enum ConfiguredRule {
    Balance(BalanceCheck),
    Threshold(ThresholdCheck),
    Duplicate(DuplicateCheck),
    DateContinuity(DateContinuityCheck),
    RoundAmount(RoundAmountCheck),
}

/// The kind and setting of a configured rule.
pub enum RuleSetting {
    Balance(Parts),
    Threshold(Parts),
    Duplicate(int),
    DateContinuity(int),
    RoundAmount(nat),
}

impl ConfiguredRule {
    pub open spec fn setting(&self) -> RuleSetting {
        match self {
            ConfiguredRule::Balance(r) => RuleSetting::Balance(r.spec_tolerance().parts()),
            ConfiguredRule::Threshold(r) => RuleSetting::Threshold(r.spec_threshold().parts()),
            ConfiguredRule::Duplicate(r) => RuleSetting::Duplicate(r.spec_time_window_days() as int),
            ConfiguredRule::DateContinuity(r) => RuleSetting::DateContinuity(r.spec_max_gap_days() as int),
            ConfiguredRule::RoundAmount(r) => RuleSetting::RoundAmount(r.spec_count_threshold() as nat),
        }
    }

    /// The name of the rule.
    pub open spec fn spec_name(&self) -> Seq<char> {
        match self {
            ConfiguredRule::Balance(_) => balance_rule_name(),
            ConfiguredRule::Threshold(_) => threshold_rule_name(),
            ConfiguredRule::Duplicate(_) => duplicate_rule_name(),
            ConfiguredRule::DateContinuity(_) => continuity_rule_name(),
            ConfiguredRule::RoundAmount(_) => round_amount_rule_name(),
        }
    }

    /// The rule as a trait object, which allows the same outcomes.
    pub fn into_boxed(self) -> (r: Box<dyn AuditRule>)
        ensures
            forall|ts: Seq<TxnView>, res: Result<Vec<AuditFinding>, AuditError>| #[trigger]
                r.check_outcome(ts, res) == self.check_outcome(ts, res),
    {
        match self {
            ConfiguredRule::Balance(r) => {
                return Box::new(r);
            },
            ConfiguredRule::Threshold(r) => {
                return Box::new(r);
            },
            ConfiguredRule::Duplicate(r) => {
                return Box::new(r);
            },
            ConfiguredRule::DateContinuity(r) => {
                return Box::new(r);
            },
            ConfiguredRule::RoundAmount(r) => {
                return Box::new(r);
            },
        };
    }
}

impl AuditRule for ConfiguredRule {
    open spec fn check_outcome(&self, transactions: Seq<TxnView>, r: Result<Vec<AuditFinding>, AuditError>) -> bool {
        match self {
            ConfiguredRule::Balance(rule) => rule.check_outcome(transactions, r),
            ConfiguredRule::Threshold(rule) => rule.check_outcome(transactions, r),
            ConfiguredRule::Duplicate(rule) => rule.check_outcome(transactions, r),
            ConfiguredRule::DateContinuity(rule) => rule.check_outcome(transactions, r),
            ConfiguredRule::RoundAmount(rule) => rule.check_outcome(transactions, r),
        }
    }

    fn name(&self) -> (r: &'static str)
        ensures
            r@ == self.spec_name(),
    {
        match self {
            ConfiguredRule::Balance(rule) => rule.name(),
            ConfiguredRule::Threshold(rule) => rule.name(),
            ConfiguredRule::Duplicate(rule) => rule.name(),
            ConfiguredRule::DateContinuity(rule) => rule.name(),
            ConfiguredRule::RoundAmount(rule) => rule.name(),
        }
    }

    fn description(&self) -> &'static str {
        match self {
            ConfiguredRule::Balance(rule) => rule.description(),
            ConfiguredRule::Threshold(rule) => rule.description(),
            ConfiguredRule::Duplicate(rule) => rule.description(),
            ConfiguredRule::DateContinuity(rule) => rule.description(),
            ConfiguredRule::RoundAmount(rule) => rule.description(),
        }
    }

    fn check(&self, transactions: &[Transaction]) -> (r: Result<Vec<AuditFinding>, AuditError>) {
        match self {
            ConfiguredRule::Balance(rule) => rule.check(transactions),
            ConfiguredRule::Threshold(rule) => rule.check(transactions),
            ConfiguredRule::Duplicate(rule) => rule.check(transactions),
            ConfiguredRule::DateContinuity(rule) => rule.check(transactions),
            ConfiguredRule::RoundAmount(rule) => rule.check(transactions),
        }
    }
}

pub open spec fn opt_text(o: Option<String>) -> Option<Seq<char>> {
    match o {
        Some(s) => Some(s@),
        None => None,
    }
}

/// The rules a configuration switches on, in the order balance, threshold,
/// duplicate, date continuity, round amount, each with its setting or its
/// default (tolerance 0.01, threshold 50000, window 1 day, gap 7 days, 5
/// occurrences).
pub open spec fn configured_settings(config: AuditConfig) -> Seq<RuleSetting> {
    match config.rules {
        None => Seq::empty(),
        Some(rc) => {
            let s1 = match rc.balance_check {
                Some(c) if c.enabled => seq![RuleSetting::Balance(configured_tolerance(opt_text(c.tolerance)))],
                _ => Seq::empty(),
            };
            let s2 = match rc.threshold {
                Some(c) if c.enabled => seq![RuleSetting::Threshold(configured_threshold(opt_text(c.amount_threshold)))],
                _ => Seq::empty(),
            };
            let s3 = match rc.duplicate {
                Some(c) if c.enabled => seq![
                    RuleSetting::Duplicate(
                        match c.time_window_days {
                            Some(w) => w as int,
                            None => 1,
                        },
                    ),
                ],
                _ => Seq::empty(),
            };
            let s4 = match rc.date_continuity {
                Some(c) if c.enabled => seq![
                    RuleSetting::DateContinuity(
                        match c.max_gap_days {
                            Some(g) => g as int,
                            None => 7,
                        },
                    ),
                ],
                _ => Seq::empty(),
            };
            let s5 = match rc.round_amount {
                Some(c) if c.enabled => seq![
                    RuleSetting::RoundAmount(
                        match c.count_threshold {
                            Some(t) => t as nat,
                            None => 5,
                        },
                    ),
                ],
                _ => Seq::empty(),
            };
            s1 + s2 + s3 + s4 + s5
        },
    }
}

pub open spec fn settings_of(rules: Seq<ConfiguredRule>) -> Seq<RuleSetting> {
    rules.map_values(|r: ConfiguredRule| r.setting())
}

/// The rules the configuration switches on, with their settings.
#[verifier::rlimit(40)]
pub fn configured_rules(config: &AuditConfig) -> (r: Vec<ConfiguredRule>)
    ensures
        settings_of(r@) == configured_settings(*config),
{
    let mut rules: Vec<ConfiguredRule> = Vec::new();
    match &config.rules {
        None => {
            assert(settings_of(rules@) =~= Seq::<RuleSetting>::empty());
        },
        Some(rc) => {
            let ghost s0 = settings_of(rules@);
            if let Some(bc) = &rc.balance_check {
                if bc.enabled {
                    rules.push(ConfiguredRule::Balance(BalanceCheck::from_config(bc)));
                }
            }
            let ghost s1 = settings_of(rules@);
            if let Some(th) = &rc.threshold {
                if th.enabled {
                    rules.push(ConfiguredRule::Threshold(ThresholdCheck::from_config(th)));
                }
            }
            let ghost s2 = settings_of(rules@);
            if let Some(dup) = &rc.duplicate {
                if dup.enabled {
                    rules.push(ConfiguredRule::Duplicate(DuplicateCheck::from_config(dup)));
                }
            }
            let ghost s3 = settings_of(rules@);
            if let Some(dc) = &rc.date_continuity {
                if dc.enabled {
                    let max_gap = match dc.max_gap_days {
                        Some(g) => g,
                        None => 7,
                    };
                    rules.push(ConfiguredRule::DateContinuity(DateContinuityCheck::new(max_gap)));
                }
            }
            let ghost s4 = settings_of(rules@);
            if let Some(ra) = &rc.round_amount {
                if ra.enabled {
                    let threshold = match ra.count_threshold {
                        Some(t) => t,
                        None => 5,
                    };
                    rules.push(ConfiguredRule::RoundAmount(RoundAmountCheck::new(threshold)));
                }
            }
            let ghost s5 = settings_of(rules@);
            proof {
                let cfg = *config;
                let rcv = cfg.rules.unwrap();
                assert(s0 =~= Seq::<RuleSetting>::empty());
                assert(settings_of(rules@) =~= configured_settings(cfg));
            }
        },
    }
    rules
}

/// The rules of a configuration: the rules it switches on, kept as
/// `ConfiguredRule` values so that what each one does stays known, followed
/// by the rules that are always on.
pub struct RuleSet {
    pub configured: Vec<ConfiguredRule>,
    pub always_on: Vec<Box<dyn AuditRule>>,
}

/// The rules of a configuration: the configured rules, in the order
/// balance, threshold, duplicate, date continuity, round amount, each with
/// its setting (`configured_settings`), then the rules that are always on,
/// in the order given (the Benford's-law and related-party rules, which
/// compute in floating point and so are built by the caller).
pub fn create_rules_from_config(config: &AuditConfig, always_on: Vec<Box<dyn AuditRule>>) -> (r: RuleSet)
    ensures
        settings_of(r.configured@) == configured_settings(*config),
        r.always_on@ == always_on@,
{
    RuleSet { configured: configured_rules(config), always_on }
}

} // verus!
