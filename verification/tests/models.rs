use auditlens::date::Date;
use auditlens::models::{AuditFinding, AuditReport, Severity, Transaction};
use auditlens::money::Money;

fn finding(rule: &str, severity: Severity, message: &str, rows: Vec<usize>) -> AuditFinding {
    AuditFinding { rule_name: rule.to_string(), severity, message: message.to_string(), related_rows: rows }
}

#[test]
fn test_transaction_net_amount() {
    let txn = Transaction {
        row_index: 1,
        date: Date::from_ymd_opt(2024, 1, 15).unwrap(),
        voucher_id: "V001".to_string(),
        account_code: "1001".to_string(),
        account_name: "库存现金".to_string(),
        description: "测试交易".to_string(),
        debit: Money::new(100000, 2),
        credit: Money::new(0, 2),
    };
    assert_eq!(txn.net_amount(), Money::new(100000, 2));
    assert!(txn.is_debit());
    assert!(!txn.is_credit());
}

#[test]
fn test_audit_report_counts() {
    let mut report = AuditReport::new(10, Money::new(500000, 2), Money::new(500000, 2));
    report.add_finding(finding("test", Severity::Error, "错误", vec![1]));
    report.add_finding(finding("test", Severity::Warning, "警告", vec![2]));
    assert_eq!(report.error_count(), 1);
    assert_eq!(report.warning_count(), 1);
    assert_eq!(report.info_count(), 0);
}

#[test]
fn merged_reports_add_their_counts() {
    let mut a = AuditReport::new(1, Money::zero(), Money::zero());
    a.add_finding(finding("r", Severity::Error, "e", vec![]));
    let mut b = AuditReport::new(1, Money::zero(), Money::zero());
    b.add_finding(finding("r", Severity::Error, "e", vec![]));
    b.add_finding(finding("r", Severity::Info, "i", vec![]));
    a.merge(b);
    assert_eq!(a.error_count(), 2);
    assert_eq!(a.info_count(), 1);
    assert_eq!(a.error_count() + a.warning_count() + a.info_count(), a.findings.len());
}

#[test]
fn money_equality_ignores_the_scale() {
    assert_eq!(Money::new(1000, 0), Money::new(100000, 2));
    assert_ne!(Money::new(1000, 0), Money::new(1001, 0));
    assert_eq!(Money::new(100050, 2).to_text(), "1000.50");
    assert_eq!(Money::new(-5, 1).to_text(), "-0.5");
}

#[test]
fn money_parse_and_add() {
    let a = Money::parse("1234.56").unwrap();
    let b = Money::parse("0.44").unwrap();
    assert_eq!(a.checked_add(&b).unwrap().to_text(), "1235.00");
    assert_eq!(a.checked_sub(&b).unwrap().to_text(), "1234.12");
    assert!(Money::parse("abc").is_none());
}

#[test]
fn net_amount_of_a_credit() {
    let txn = Transaction {
        row_index: 2,
        date: Date::from_ymd_opt(2024, 3, 1).unwrap(),
        voucher_id: "V002".to_string(),
        account_code: "1002".to_string(),
        account_name: "银行存款".to_string(),
        description: "".to_string(),
        debit: Money::zero(),
        credit: Money::new(250, 0),
    };
    assert_eq!(txn.net_amount(), Money::new(-250, 0));
    assert!(txn.is_credit());
    assert!(!txn.is_debit());
}

#[test]
fn severity_labels() {
    assert_eq!(Severity::Error.to_text(), "错误");
    assert_eq!(Severity::Warning.to_text(), "警告");
    assert_eq!(Severity::Info.to_text(), "信息");
}

#[test]
fn dates_and_their_text() {
    let d = Date::from_ymd_opt(2024, 2, 29).unwrap();
    assert_eq!(d.to_text(), "2024-02-29");
    assert!(Date::from_ymd_opt(2023, 2, 29).is_none());
    assert_eq!(d.checked_add_days(1).unwrap(), Date::from_ymd_opt(2024, 3, 1).unwrap());
}

#[test]
fn checked_net_amount_matches_net_amount() {
    let txn = Transaction {
        row_index: 3,
        date: Date::from_ymd_opt(2024, 5, 1).unwrap(),
        voucher_id: "V3".to_string(),
        account_code: "1001".to_string(),
        account_name: "a".to_string(),
        description: "d".to_string(),
        debit: Money::new(1050, 1),
        credit: Money::new(5, 0),
    };
    assert_eq!(txn.checked_net_amount(), Some(txn.net_amount()));
    assert_eq!(txn.net_amount().to_text(), "100.0");
}

#[test]
fn normalized_amounts_drop_trailing_zeros() {
    assert_eq!(Money::new(100000, 2).normalized(), (1000, 0));
    assert_eq!(Money::new(-1050, 2).normalized(), (-105, 1));
    assert_eq!(Money::new(0, 3).normalized(), (0, 0));
    assert_eq!(Money::new(1000, 0).normalized(), (1000, 0));
    assert_eq!(Money::new(12345, 2).normalized(), (12345, 2));
}
