use auditlens::ai::simplify_rule_name;
use auditlens::ai_analysis::{
    build_audit_prompt, generate_local_analysis, interpret_chat_reply, plan_analysis, uses_local_analysis, AiConfig, AnalysisStep,
};
use auditlens::cli::ExportFormat;
use auditlens::database::{DatabaseConfig, DatabaseType};
use auditlens::date::Date;
use auditlens::models::{AuditFinding, AuditReport, Severity, Transaction};
use auditlens::money::Money;
use auditlens::report::{join_rows_exec, CsvExporter, PdfExporter, PdfReportGenerator, TerminalReporter, Verdict};
use auditlens::web::{ai_config_from, connection_string, database_type_of, summarize_by_date, upload_extension};

fn finding(rule: &str, severity: Severity, message: &str, rows: Vec<usize>) -> AuditFinding {
    AuditFinding { rule_name: rule.to_string(), severity, message: message.to_string(), related_rows: rows }
}

#[test]
fn test_local_analysis() {
    let mut report = AuditReport::new(100, Money::new(500000, 0), Money::new(495000, 0));
    report.add_finding(finding("借贷平衡检查", Severity::Error, "凭证不平衡", vec![1]));
    report.add_finding(finding("金额阈值检测", Severity::Warning, "大额交易", vec![5]));
    let analysis = generate_local_analysis(&report);
    assert!(analysis.contains("风险等级"));
    assert!(analysis.contains("紧急"));
    assert!(analysis.contains("合规"));
}

#[test]
fn local_analysis_grades_and_numbers_advice() {
    let mut report = AuditReport::new(3, Money::new(10, 0), Money::new(10, 0));
    report.add_finding(finding("重复交易检测", Severity::Warning, "m", vec![]));
    let analysis = generate_local_analysis(&report);
    assert!(analysis.contains("🟢 **风险等级：低**"));
    assert!(analysis.contains("✅ 借贷总额平衡"));
    assert!(analysis.contains("**1. [建议]**"));
    assert!(analysis.contains("**2. [常规]**"));
    assert!(analysis.contains("- 🟡 **重复交易检测**：0 个错误 / 1 个警告 / 0 个信息"));
}

#[test]
fn local_analysis_reports_the_imbalance() {
    let report = AuditReport::new(2, Money::new(500000, 0), Money::new(495000, 0));
    let analysis = generate_local_analysis(&report);
    assert!(analysis.contains("借方总额 500000 与贷方总额 495000 存在差额 5000"));
}

#[test]
fn prompt_lists_findings() {
    let mut report = AuditReport::new(7, Money::new(1, 0), Money::new(2, 0));
    report.add_finding(finding("R", Severity::Info, "M", vec![]));
    let prompt = build_audit_prompt(&report);
    assert!(prompt.contains("1. [信息] R - M\n"));
    assert!(prompt.contains("- 交易总数：7\n"));
}

#[test]
fn chat_replies() {
    assert_eq!(interpret_chat_reply(Some("bad key".to_string()), Some("x".to_string())), Err("AI API 错误: bad key".to_string()));
    assert_eq!(interpret_chat_reply(None, Some("fine".to_string())), Ok("fine".to_string()));
    assert_eq!(interpret_chat_reply(None, None), Err("AI 未返回有效响应".to_string()));
    assert!(uses_local_analysis(&AiConfig::default()));
}

#[test]
fn csv_export_test_csv_export() {
    let mut report = AuditReport::new(5, Money::new(10000, 0), Money::new(10000, 0));
    report.add_finding(finding("测试规则", Severity::Error, "错误描述", vec![1, 3]));
    let records = CsvExporter.records(&report);
    let content: String = records.iter().map(|r| r.join(",")).collect::<Vec<_>>().join("\n");
    assert!(content.contains("测试规则"));
    assert!(content.contains("1;3"));
}

#[test]
fn csv_records_have_a_header_and_one_row_per_finding() {
    let mut report = AuditReport::new(1, Money::zero(), Money::zero());
    report.add_finding(finding("a", Severity::Warning, "b", vec![]));
    let records = CsvExporter.records(&report);
    assert_eq!(records.len(), 2);
    assert_eq!(records[0], vec!["序号", "严重级别", "规则名称", "说明", "涉及行"]);
    assert_eq!(records[1], vec!["1", "警告", "a", "b", ""]);
}

#[test]
fn html_report() {
    let mut report = AuditReport::new(10, Money::new(50000, 0), Money::new(50000, 0));
    report.add_finding(finding("Test Rule", Severity::Warning, "line one\nline two", vec![1, 2]));
    let html = PdfExporter.html(&report);
    assert!(html.starts_with("<!DOCTYPE html>"));
    assert!(html.contains("⚠️ 审计发现警告事项，建议进一步核实"));
    assert!(html.contains("line one<br>line two"));
    assert!(html.contains(">1, 2</td>"));
    assert!(html.contains("{ margin: 0; padding: 0; box-sizing: border-box; }"));
}

#[test]
fn terminal_verdicts() {
    let reporter = TerminalReporter;
    let empty = AuditReport::new(0, Money::zero(), Money::zero());
    assert_eq!(reporter.verdict(&empty), Verdict::Clean);
    assert_eq!(reporter.verdict(&empty).text(), "  ✅ 未发现异常，账目审计通过！");
    let mut report = AuditReport::new(10, Money::new(5000, 0), Money::new(5000, 0));
    report.add_finding(finding("测试规则", Severity::Warning, "测试警告", vec![1, 2]));
    assert_eq!(reporter.verdict(&report), Verdict::Warned);
    assert_eq!(reporter.tag(Severity::Warning), "[警告]");
    assert_eq!(
        reporter.finding_lines(&report.findings[0]),
        vec!["  规则：测试规则", "  说明：测试警告", "  涉及行：1, 2"]
    );
}

#[test]
fn pdf_texts() {
    assert_eq!(PdfReportGenerator::rule_label("Short"), "Short");
    assert_eq!(PdfReportGenerator::rule_label("abcdefghijklmnopqrstuvwxyz"), "abcdefghijklmnopq...");
    assert_eq!(PdfReportGenerator::description("价格 ok"), "?? ok");
    let long = "x".repeat(70);
    assert_eq!(PdfReportGenerator::description(&long), format!("{}...", "x".repeat(57)));
    assert_eq!(PdfReportGenerator::severity_code(Severity::Error), "ERROR");
    assert_eq!(PdfReportGenerator::page_header(2), "AuditLens Report - Page 2");
    let report = AuditReport::new(3, Money::new(15, 1), Money::zero());
    let items = PdfReportGenerator::overview_items(&report);
    assert_eq!(items[1], "Total Transactions: 3");
    assert_eq!(items[2], "Total Debit: 1.5");
}

#[test]
fn join_rows_separators() {
    assert_eq!(join_rows_exec(&vec![1, 3], ";"), "1;3");
    assert_eq!(join_rows_exec(&vec![], ", "), "");
}

fn day_txn(row: usize, y: i32, m: u32, d: u32, debit: i64, credit: i64) -> Transaction {
    Transaction {
        row_index: row,
        date: Date::from_ymd_opt(y, m, d).unwrap(),
        voucher_id: "V".to_string(),
        account_code: "1001".to_string(),
        account_name: "a".to_string(),
        description: "d".to_string(),
        debit: Money::new(debit, 0),
        credit: Money::new(credit, 0),
    }
}

#[test]
fn daily_summary_is_sorted_by_day() {
    let txns = vec![
        day_txn(1, 2024, 1, 5, 10, 0),
        day_txn(2, 2024, 1, 2, 0, 7),
        day_txn(3, 2024, 1, 5, 5, 1),
    ];
    let days = summarize_by_date(&txns).unwrap();
    assert_eq!(days.len(), 2);
    assert_eq!(days[0].date, "2024-01-02");
    assert_eq!(days[0].count, 1);
    assert_eq!(days[0].total_credit, "7");
    assert_eq!(days[1].date, "2024-01-05");
    assert_eq!(days[1].total_debit, "15");
    assert_eq!(days[1].count, 2);
    assert_eq!(days.iter().map(|d| d.count).sum::<usize>(), txns.len());
}

#[test]
fn database_queries_and_requests() {
    let mut config = DatabaseConfig {
        connection_string: String::new(),
        db_type: DatabaseType::MySQL,
        query: None,
        table_name: None,
    };
    assert_eq!(
        config.get_query(),
        "SELECT date, voucher_id, account_code, account_name, description, debit, credit FROM transactions ORDER BY date"
    );
    config.table_name = Some("ledger".to_string());
    assert!(config.get_query().ends_with("FROM ledger ORDER BY date"));
    config.query = Some("SELECT 1".to_string());
    assert_eq!(config.get_query(), "SELECT 1");
    assert_eq!(database_type_of("postgres"), Some(DatabaseType::PostgreSQL));
    assert_eq!(database_type_of("oracle"), None);
    assert_eq!(connection_string(DatabaseType::MySQL, "u", "p", "h", "d"), "mysql://u:p@h/d");
    assert_eq!(upload_extension("book.xls"), ".xlsx");
    assert_eq!(upload_extension("data.txt"), ".csv");
    let ai = ai_config_from(None, Some("k".to_string()), None);
    assert_eq!(ai.model, "deepseek-chat");
    assert_eq!(ExportFormat::Json.default_output(), Some("audit_report.json"));
}

#[test]
fn local_issues_put_high_risk_first() {
    let mut report = AuditReport::new(4, Money::zero(), Money::zero());
    report.add_finding(finding("重复交易检测", Severity::Warning, "w", vec![]));
    report.add_finding(finding("日期连续性检查", Severity::Warning, "w", vec![]));
    report.add_finding(finding("借贷平衡检查", Severity::Error, "e", vec![]));
    let analysis = auditlens::ai::local_analysis(&report);
    let risks: Vec<&str> = analysis.issue_analysis.iter().map(|i| i.risk.as_str()).collect();
    assert_eq!(risks, vec!["高", "中", "低"]);
    assert_eq!(analysis.issue_analysis[0].category, "借贷平衡");
    assert_eq!(analysis.risk_level, "中");
}

#[test]
fn test_terminal_report_empty() {
    let report = AuditReport::new(0, Money::new(0, 0), Money::new(0, 0));
    let reporter = TerminalReporter;
    assert_eq!(reporter.verdict(&report), Verdict::Clean);
}

#[test]
fn test_terminal_report_with_findings() {
    let mut report = AuditReport::new(10, Money::new(5000, 0), Money::new(5000, 0));
    report.add_finding(AuditFinding {
        rule_name: "测试规则".to_string(),
        severity: Severity::Warning,
        message: "测试警告".to_string(),
        related_rows: vec![1, 2],
    });
    let reporter = TerminalReporter;
    assert_eq!(reporter.verdict(&report), Verdict::Warned);
    assert_eq!(reporter.finding_lines(&report.findings[0]).len(), 3);
}

#[test]
fn analysis_without_a_key_stays_local() {
    let mut report = AuditReport::new(10, Money::new(5000, 0), Money::new(4000, 0));
    report.add_finding(finding("金额阈值检测", Severity::Warning, "大额", vec![3]));
    let local = AiConfig::default();
    match plan_analysis(&report, &local) {
        AnalysisStep::Local(Some(text)) => assert_eq!(text, generate_local_analysis(&report)),
        _ => panic!("expected a local analysis"),
    }
    let remote = AiConfig { api_key: "k".to_string(), ..AiConfig::default() };
    match plan_analysis(&report, &remote) {
        AnalysisStep::Remote(prompt) => assert_eq!(prompt, build_audit_prompt(&report)),
        _ => panic!("expected a prompt"),
    }
}

#[test]
fn simplifying_a_rule_name_twice_changes_nothing() {
    for name in ["关联交易-资金回流", "借贷平衡检查", "Benford 定律检测", "Z-Score 异常", "其他规则", "整数金额预警"] {
        let once = simplify_rule_name(name);
        assert_eq!(simplify_rule_name(&once), once);
    }
    assert_eq!(simplify_rule_name("关联交易-资金回流"), "关联交易");
}
