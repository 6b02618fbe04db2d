use auditlens::date::Date;
use auditlens::models::{
    AuditConfig, AuditError, AuditFinding, BalanceCheckConfig, DateContinuityConfig, DuplicateConfig, RoundAmountConfig,
    RulesConfig, Severity, ThresholdConfig, Transaction,
};
use auditlens::money::Money;
use auditlens::rule_engine::balance_check::BalanceCheck;
use auditlens::rule_engine::date_continuity::DateContinuityCheck;
use auditlens::rule_engine::duplicate::DuplicateCheck;
use auditlens::rule_engine::related_party::{last_day_of_month, RelatedPartyCheck};
use auditlens::rule_engine::round_amount::RoundAmountCheck;
use auditlens::rule_engine::rules::{audit_with_rules, RuleExecutor};
use auditlens::rule_engine::threshold::ThresholdCheck;
use auditlens::rule_engine::{create_rules_from_config, AuditRule};

fn ymd(y: i32, m: u32, d: u32) -> Date {
    Date::from_ymd_opt(y, m, d).unwrap()
}

fn iso(text: &str) -> Date {
    Date::parse_from_str(text, "%Y-%m-%d").unwrap()
}

fn txn(row: usize, date: Date, voucher: &str, account: &str, name: &str, debit: Money, credit: Money) -> Transaction {
    Transaction {
        row_index: row,
        date,
        voucher_id: voucher.to_string(),
        account_code: account.to_string(),
        account_name: name.to_string(),
        description: "测试".to_string(),
        debit,
        credit,
    }
}

fn balance_txn(row: usize, voucher: &str, debit: Money, credit: Money) -> Transaction {
    txn(row, ymd(2024, 1, 1), voucher, "1001", "库存现金", debit, credit)
}

#[test]
fn test_balanced_voucher() {
    let checker = BalanceCheck::new();
    let txns = vec![
        balance_txn(1, "V001", Money::new(1000, 0), Money::new(0, 0)),
        balance_txn(2, "V001", Money::new(0, 0), Money::new(1000, 0)),
    ];
    let findings = checker.check(&txns).unwrap();
    assert!(findings.is_empty());
}

#[test]
fn test_unbalanced_voucher() {
    let checker = BalanceCheck::new();
    let txns = vec![
        balance_txn(1, "V001", Money::new(1000, 0), Money::new(0, 0)),
        balance_txn(2, "V001", Money::new(0, 0), Money::new(500, 0)),
    ];
    let findings = checker.check(&txns).unwrap();
    assert_eq!(findings.len(), 1);
    assert_eq!(findings[0].severity, Severity::Error);
}

#[test]
fn test_within_tolerance() {
    let checker = BalanceCheck::new();
    let txns = vec![
        balance_txn(1, "V001", Money::new(100000, 2), Money::new(0, 0)),
        balance_txn(2, "V001", Money::new(0, 0), Money::new(999995, 3)),
    ];
    let findings = checker.check(&txns).unwrap();
    assert!(findings.is_empty());
}

#[test]
fn balance_message_names_the_voucher_and_the_difference() {
    let checker = BalanceCheck::new();
    let txns = vec![
        balance_txn(1, "V009", Money::new(1000, 0), Money::new(0, 0)),
        balance_txn(2, "V009", Money::new(0, 0), Money::new(500, 0)),
    ];
    let findings = checker.check(&txns).unwrap();
    assert_eq!(findings[0].message, "凭证 V009 借贷不平衡：借方合计 1000，贷方合计 500，差额 500");
    assert_eq!(findings[0].related_rows, vec![1, 2]);
    assert_eq!(findings[0].rule_name, "借贷平衡检查");
}

#[test]
fn balance_check_is_per_voucher() {
    let checker = BalanceCheck::new();
    let txns = vec![
        balance_txn(1, "V001", Money::new(1000, 0), Money::new(0, 0)),
        balance_txn(2, "V002", Money::new(0, 0), Money::new(1000, 0)),
    ];
    let findings = checker.check(&txns).unwrap();
    assert_eq!(findings.len(), 2);
}

fn threshold_txn(row: usize, debit: Money, credit: Money) -> Transaction {
    txn(row, ymd(2024, 1, 1), "V001", "1001", "库存现金", debit, credit)
}

#[test]
fn test_below_threshold() {
    let checker = ThresholdCheck::new(Money::new(50000, 0));
    let txns = vec![threshold_txn(1, Money::new(10000, 0), Money::new(0, 0))];
    let findings = checker.check(&txns).unwrap();
    assert!(findings.is_empty());
}

#[test]
fn test_above_threshold() {
    let checker = ThresholdCheck::new(Money::new(50000, 0));
    let txns = vec![threshold_txn(1, Money::new(100000, 0), Money::new(0, 0))];
    let findings = checker.check(&txns).unwrap();
    assert_eq!(findings.len(), 1);
    assert_eq!(findings[0].severity, Severity::Warning);
}

#[test]
fn threshold_checks_credits_too() {
    let checker = ThresholdCheck::new(Money::new(50000, 0));
    let txns = vec![threshold_txn(7, Money::new(0, 0), Money::new(60000, 0))];
    let findings = checker.check(&txns).unwrap();
    assert_eq!(findings.len(), 1);
    assert_eq!(findings[0].related_rows, vec![7]);
}

fn gap_txn(row: usize, date: &str) -> Transaction {
    txn(row, iso(date), &format!("V{:03}", row), "1001", "测试", Money::new(100, 0), Money::new(0, 0))
}

#[test]
fn test_date_gap() {
    let checker = DateContinuityCheck::new(7);
    let txns = vec![gap_txn(1, "2024-01-01"), gap_txn(2, "2024-01-20")];
    let findings = checker.check(&txns).unwrap();
    assert!(!findings.is_empty());
}

#[test]
fn test_no_gap() {
    let checker = DateContinuityCheck::new(7);
    let txns = vec![gap_txn(1, "2024-01-01"), gap_txn(2, "2024-01-05")];
    let findings = checker.check(&txns).unwrap();
    assert!(findings.is_empty());
}

#[test]
fn date_gap_of_exactly_the_limit_passes() {
    let checker = DateContinuityCheck::new(7);
    let txns = vec![gap_txn(1, "2024-01-01"), gap_txn(2, "2024-01-08")];
    assert!(checker.check(&txns).unwrap().is_empty());
    let txns = vec![gap_txn(1, "2024-01-01"), gap_txn(2, "2024-01-09")];
    assert_eq!(checker.check(&txns).unwrap().len(), 1);
}

fn dup_txn(row: usize, date: &str, account: &str, debit: Money) -> Transaction {
    txn(row, iso(date), &format!("V{:03}", row), account, "测试科目", debit, Money::new(0, 0))
}

#[test]
fn test_no_duplicates() {
    let checker = DuplicateCheck::new(1);
    let txns = vec![
        dup_txn(1, "2024-01-01", "1001", Money::new(1000, 0)),
        dup_txn(2, "2024-01-15", "1001", Money::new(1000, 0)),
    ];
    let findings = checker.check(&txns).unwrap();
    assert!(findings.is_empty());
}

#[test]
fn test_duplicate_detected() {
    let checker = DuplicateCheck::new(1);
    let txns = vec![
        dup_txn(1, "2024-01-01", "1001", Money::new(1000, 0)),
        dup_txn(2, "2024-01-01", "1001", Money::new(1000, 0)),
    ];
    let findings = checker.check(&txns).unwrap();
    assert_eq!(findings.len(), 1);
    assert_eq!(findings[0].severity, Severity::Warning);
}

#[test]
fn test_different_accounts_no_duplicate() {
    let checker = DuplicateCheck::new(1);
    let txns = vec![
        dup_txn(1, "2024-01-01", "1001", Money::new(1000, 0)),
        dup_txn(2, "2024-01-01", "1002", Money::new(1000, 0)),
    ];
    let findings = checker.check(&txns).unwrap();
    assert!(findings.is_empty());
}

#[test]
fn test_last_day_of_month() {
    assert_eq!(last_day_of_month(2024, 1), 31);
    assert_eq!(last_day_of_month(2024, 2), 29);
    assert_eq!(last_day_of_month(2023, 2), 28);
    assert_eq!(last_day_of_month(2024, 4), 30);
}

#[test]
fn last_day_of_december_and_century_years() {
    assert_eq!(last_day_of_month(2024, 12), 31);
    assert_eq!(last_day_of_month(1900, 2), 28);
    assert_eq!(last_day_of_month(2000, 2), 29);
}

#[test]
fn test_round_trip_detection() {
    let checker = RelatedPartyCheck::with_settings(2, 5);
    let txns: Vec<Transaction> = (0..3)
        .map(|i| txn(i + 1, ymd(2024, 1, 15), &format!("V{:03}", i + 1), "1001", "测试", Money::new(5000, 0), Money::new(0, 0)))
        .collect();
    let mut findings: Vec<AuditFinding> = Vec::new();
    checker.check_round_trip(&txns, &mut findings);
    assert!(findings.iter().any(|f| f.rule_name.contains("资金回流")));
}

#[test]
fn round_trip_message_and_rows() {
    let checker = RelatedPartyCheck::with_settings(2, 5);
    let txns: Vec<Transaction> = (0..3)
        .map(|i| txn(i + 1, ymd(2024, 1, 15), &format!("V{:03}", i + 1), "1001", "测试", Money::new(5000, 0), Money::new(0, 0)))
        .collect();
    let mut findings: Vec<AuditFinding> = Vec::new();
    checker.check_round_trip(&txns, &mut findings);
    assert_eq!(findings.len(), 1);
    assert_eq!(findings[0].message, "2024-01-15日金额 5000 出现 3 次，可能存在资金回流");
    assert_eq!(findings[0].related_rows, vec![1, 2, 3]);
}

#[test]
fn period_end_rows_are_the_last_days_of_the_month() {
    let checker = RelatedPartyCheck::new();
    let txns = vec![
        txn(1, ymd(2024, 1, 26), "V1", "1001", "a", Money::new(1, 0), Money::new(0, 0)),
        txn(2, ymd(2024, 1, 27), "V2", "1001", "a", Money::new(1, 0), Money::new(0, 0)),
        txn(3, ymd(2024, 2, 25), "V3", "1001", "a", Money::new(1, 0), Money::new(0, 0)),
    ];
    assert_eq!(checker.period_end_rows(&txns), vec![2, 3]);
}

#[test]
fn test_round_amount_warning() {
    let checker = RoundAmountCheck::new(2);
    let txns: Vec<Transaction> = (0..3)
        .map(|i| txn(i + 1, ymd(2024, 1, 1), &format!("V{:03}", i), "1001", "测试", Money::new(5000, 0), Money::new(0, 0)))
        .collect();
    let findings = checker.check(&txns).unwrap();
    assert!(!findings.is_empty());
}

struct TestRule;

impl AuditRule for TestRule {
    fn name(&self) -> &'static str {
        "测试规则"
    }

    fn description(&self) -> &'static str {
        "测试用规则"
    }

    fn check(&self, transactions: &[Transaction]) -> Result<Vec<AuditFinding>, AuditError> {
        let findings: Vec<_> = transactions
            .iter()
            .filter(|t| Money::zero().lt(&t.debit))
            .map(|t| AuditFinding {
                rule_name: self.name().to_string(),
                severity: Severity::Info,
                message: format!("借方交易: {}", t.debit.to_text()),
                related_rows: vec![t.row_index],
            })
            .collect();
        Ok(findings)
    }
}

#[test]
fn test_rule_executor() {
    let rules: Vec<Box<dyn AuditRule>> = vec![Box::new(TestRule)];
    let executor = RuleExecutor::new(rules);
    let txns = vec![txn(1, ymd(2024, 1, 1), "V001", "1001", "库存现金", Money::new(100, 0), Money::new(0, 0))];
    let findings = executor.execute_all(&txns).unwrap();
    assert_eq!(findings.len(), 1);
    assert_eq!(executor.rule_count(), 1);
}

#[test]
fn rows_sort_stably_by_key() {
    let rows = vec![0, 1, 2, 3, 4];
    let key = vec![5, 3, 5, 1, 3];
    assert_eq!(auditlens::sort::sort_rows_by_key(&rows, &key), vec![3, 1, 4, 0, 2]);
}

fn all_rules_config() -> AuditConfig {
    AuditConfig {
        general: None,
        rules: Some(RulesConfig {
            balance_check: Some(BalanceCheckConfig { enabled: true, tolerance: Some("0.01".to_string()) }),
            threshold: Some(ThresholdConfig { enabled: true, amount_threshold: Some("50000".to_string()) }),
            duplicate: Some(DuplicateConfig { enabled: true, time_window_days: Some(1) }),
            date_continuity: Some(DateContinuityConfig { enabled: true, max_gap_days: Some(7) }),
            account_compliance: None,
            round_amount: Some(RoundAmountConfig { enabled: true, count_threshold: Some(5) }),
        }),
    }
}

#[test]
fn test_audit_empty_data() {
    let config = all_rules_config();
    let executor = RuleExecutor::from_rule_set(create_rules_from_config(&config, vec![Box::new(TestRule)]));
    let transactions: Vec<Transaction> = vec![];
    let report = audit_with_rules(&transactions, &executor).expect("审计执行失败");
    assert_eq!(report.total_transactions, 0);
    assert!(report.findings.is_empty());
}

#[test]
fn test_report_severity_counts() {
    let config = all_rules_config();
    let executor = RuleExecutor::from_rule_set(create_rules_from_config(&config, vec![Box::new(TestRule)]));
    let transactions = vec![
        balance_txn(1, "V001", Money::new(10000, 0), Money::new(0, 0)),
        balance_txn(2, "V001", Money::new(0, 0), Money::new(9000, 0)),
        balance_txn(3, "V002", Money::new(150000, 0), Money::new(0, 0)),
        balance_txn(4, "V002", Money::new(0, 0), Money::new(150000, 0)),
    ];
    let report = audit_with_rules(&transactions, &executor).expect("审计执行失败");
    assert!(!report.findings.is_empty());
    let total = report.error_count() + report.warning_count() + report.info_count();
    assert_eq!(total, report.findings.len());
}

#[test]
fn rule_list_has_the_configured_rules_then_those_always_on() {
    let set = create_rules_from_config(&all_rules_config(), vec![Box::new(TestRule)]);
    assert_eq!(set.configured.len(), 5);
    assert_eq!(set.always_on.len(), 1);
    let executor = RuleExecutor::from_rule_set(set);
    assert_eq!(executor.rule_count(), 6);
    assert_eq!(
        executor.rule_names(),
        vec!["借贷平衡检查", "金额阈值检测", "重复交易识别", "日期连续性检查", "整数金额预警", "测试规则"]
    );
    let none = AuditConfig { general: None, rules: None };
    let empty = create_rules_from_config(&none, vec![]);
    assert!(empty.configured.is_empty() && empty.always_on.is_empty());
}

#[test]
fn configured_rule_keeps_its_name_as_a_trait_object() {
    let set = create_rules_from_config(&all_rules_config(), vec![]);
    let names: Vec<&str> = set.configured.into_iter().map(|r| r.into_boxed().name()).collect();
    assert_eq!(names, vec!["借贷平衡检查", "金额阈值检测", "重复交易识别", "日期连续性检查", "整数金额预警"]);
}

#[test]
fn configured_rules_run_before_the_others() {
    let executor = RuleExecutor::from_rule_set(create_rules_from_config(&all_rules_config(), vec![Box::new(TestRule)]));
    let txns = vec![
        balance_txn(1, "V001", Money::new(60000, 0), Money::new(0, 0)),
        balance_txn(2, "V001", Money::new(0, 0), Money::new(60000, 0)),
    ];
    let findings = executor.execute_all(&txns).unwrap();
    let names: Vec<&str> = findings.iter().map(|f| f.rule_name.as_str()).collect();
    assert_eq!(names, vec!["金额阈值检测", "金额阈值检测", "测试规则"]);
}

#[test]
fn duplicates_compare_amounts_by_value() {
    let checker = DuplicateCheck::new(1);
    let txns = vec![
        dup_txn(1, "2024-01-01", "1001", Money::new(1000, 0)),
        dup_txn(2, "2024-01-01", "1001", Money::new(100000, 2)),
    ];
    let findings = checker.check(&txns).unwrap();
    assert_eq!(findings.len(), 1);
    assert_eq!(findings[0].related_rows, vec![1, 2]);
}

#[test]
fn round_amounts_are_counted_by_value() {
    let checker = RoundAmountCheck::new(3);
    let txns = vec![
        txn(1, ymd(2024, 1, 1), "V001", "1001", "测试", Money::new(5000, 0), Money::new(0, 0)),
        txn(2, ymd(2024, 1, 2), "V002", "1001", "测试", Money::new(500000, 2), Money::new(0, 0)),
        txn(3, ymd(2024, 1, 3), "V003", "1001", "测试", Money::new(50000, 1), Money::new(0, 0)),
    ];
    let findings = checker.check(&txns).unwrap();
    assert_eq!(findings.len(), 1);
    assert_eq!(findings[0].related_rows, vec![1, 2, 3]);
}

#[test]
fn round_trips_compare_amounts_by_value() {
    let checker = RelatedPartyCheck::with_settings(2, 5);
    let txns = vec![
        txn(1, ymd(2024, 1, 15), "V001", "1001", "测试", Money::new(5000, 0), Money::new(0, 0)),
        txn(2, ymd(2024, 1, 15), "V002", "1001", "测试", Money::new(500000, 2), Money::new(0, 0)),
    ];
    let mut findings: Vec<AuditFinding> = Vec::new();
    checker.check_round_trip(&txns, &mut findings);
    assert_eq!(findings.len(), 1);
    assert_eq!(findings[0].related_rows, vec![1, 2]);
}
