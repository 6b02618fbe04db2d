//! The amount threshold rule: flags transactions larger than a threshold.
use super::{finding_of, make_finding, one_row, AuditRule};
use crate::models::{
    max_amount, txns_view, findings_view, AuditError, AuditFinding, FindingView, Severity,
    ThresholdConfig, Transaction, TxnView,
};
use crate::money::{decimal_parse, nat_text, Money, Parts};
use crate::text::{nat_to_text, push_str};
use vstd::prelude::*;

verus! {

/// Flags every transaction whose larger amount exceeds the threshold.
pub struct ThresholdCheck {
    threshold: Money,
}

pub open spec fn threshold_rule_name() -> Seq<char> {
    "金额阈值检测"@
}

/// The threshold a configuration gives: its text parsed as a decimal, or
/// 50000 when it is absent or does not parse.
pub open spec fn configured_threshold(amount_threshold: Option<Seq<char>>) -> Parts {
    match amount_threshold {
        Some(t) => match decimal_parse(t) {
            Some(p) => (p.0, p.1 as nat),
            None => (50000, 0),
        },
        None => (50000, 0),
    }
}

/// The message of a threshold finding.
pub open spec fn threshold_message(t: TxnView, threshold: Money) -> Seq<char> {
    "第 "@ + nat_text(t.row_index as nat) + " 行：大额交易 "@ + max_amount(t).text() + "（阈值 "@
        + threshold.text() + "），凭证号 "@ + t.voucher_id + "，科目 "@ + t.account_code + " "@
        + t.account_name
}

/// The findings of the threshold rule, in the order of the transactions.
pub open spec fn threshold_findings(ts: Seq<TxnView>, threshold: Money) -> Seq<FindingView>
    decreases ts.len(),
{
    if ts.len() == 0 {
        Seq::empty()
    } else {
        let prev = threshold_findings(ts.drop_last(), threshold);
        let t = ts.last();
        if max_amount(t).units() > threshold.units() {
            prev.push(
                finding_of(
                    threshold_rule_name(),
                    Severity::Warning,
                    threshold_message(t, threshold),
                    seq![t.row_index],
                ),
            )
        } else {
            prev
        }
    }
}

impl ThresholdCheck {
    pub closed spec fn spec_threshold(self) -> Money {
        self.threshold
    }

    /// The rule with the configured threshold, 50000 by default.
    pub fn from_config(config: &ThresholdConfig) -> (r: Self)
        ensures
            r.spec_threshold().parts() == configured_threshold(
                match config.amount_threshold {
                    Some(s) => Some(s@),
                    None => None,
                },
            ),
    {
        let threshold = match &config.amount_threshold {
            Some(s) => match Money::parse(s.as_str()) {
                Some(m) => m,
                None => Money::new(50000, 0),
            },
            None => Money::new(50000, 0),
        };
        ThresholdCheck { threshold }
    }

    /// The rule with the given threshold.
    pub fn new(threshold: Money) -> (r: Self)
        ensures
            r.spec_threshold() == threshold,
    {
        ThresholdCheck { threshold }
    }
}

/// The message of a threshold finding.
fn threshold_message_exec(t: &Transaction, amount: &Money, threshold: &Money) -> (r: String)
    requires
        *amount == max_amount(t@),
    ensures
        r@ == threshold_message(t@, *threshold),
{
    let mut s = String::new();
    push_str(&mut s, "第 ");
    let row = nat_to_text(t.row_index as u64);
    push_str(&mut s, row.as_str());
    push_str(&mut s, " 行：大额交易 ");
    let a = amount.to_text();
    push_str(&mut s, a.as_str());
    push_str(&mut s, "（阈值 ");
    let th = threshold.to_text();
    push_str(&mut s, th.as_str());
    push_str(&mut s, "），凭证号 ");
    push_str(&mut s, t.voucher_id.as_str());
    push_str(&mut s, "，科目 ");
    push_str(&mut s, t.account_code.as_str());
    push_str(&mut s, " ");
    push_str(&mut s, t.account_name.as_str());
    s
}

impl AuditRule for ThresholdCheck {
    open spec fn check_outcome(&self, transactions: Seq<TxnView>, r: Result<Vec<AuditFinding>, AuditError>) -> bool {
        r is Ok && findings_view(r.unwrap()@) == threshold_findings(transactions, self.spec_threshold())
    }

    fn name(&self) -> (r: &'static str)
        ensures
            r@ == threshold_rule_name(),
    {
        "金额阈值检测"
    }

    fn description(&self) -> (r: &'static str)
        ensures
            r@ == "标记超过预设阈值的大额交易"@,
    {
        "标记超过预设阈值的大额交易"
    }

    fn check(&self, transactions: &[Transaction]) -> (r: Result<Vec<AuditFinding>, AuditError>)
        ensures
            r is Ok,
            findings_view(r.unwrap()@) == threshold_findings(
                txns_view(transactions@),
                self.spec_threshold(),
            ),
    {
        let mut findings: Vec<AuditFinding> = Vec::new();
        let mut i: usize = 0;
        while i < transactions.len()
            invariant
                i <= transactions@.len(),
                findings_view(findings@) == threshold_findings(
                    txns_view(transactions@.subrange(0, i as int)),
                    self.spec_threshold(),
                ),
            decreases transactions.len() - i,
        {
            let t = &transactions[i];
            proof {
                assert(txns_view(transactions@.subrange(0, i + 1)).drop_last() =~= txns_view(
                    transactions@.subrange(0, i as int),
                ));
                assert(txns_view(transactions@.subrange(0, i + 1)).last() == t@);
            }
            let amount = t.debit.max(&t.credit);
            if self.threshold.lt(&amount) {
                let msg = threshold_message_exec(t, &amount, &self.threshold);
                let f = make_finding("金额阈值检测", Severity::Warning, msg, one_row(t.row_index));
                findings.push(f);
                proof {
                    assert(findings_view(findings@) =~= findings_view(findings@.drop_last()).push(
                        f@,
                    ));
                }
            }
            i = i + 1;
        }
        assert(transactions@.subrange(0, transactions@.len() as int) =~= transactions@);
        Ok(findings)
    }
}

} // verus!
