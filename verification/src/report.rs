//! An audit report in the forms it is exported in: CSV records, a
//! printable HTML page, and the texts of the terminal report and of the PDF
//! document.
use crate::ai::push_count;
use crate::models::{count_severity, findings_view, severity_text, AuditFinding, AuditReport, FindingView, Severity};
use crate::money::nat_text;
use crate::text::{chars_of, push_char, push_str, utf8_len};
use vstd::prelude::*;

verus! {

/// Writes the findings of a report as CSV.
pub struct CsvExporter;

/// Writes a report as JSON.
pub struct JsonExporter;

/// Writes a report as an HTML page to print as PDF.
pub struct PdfExporter;

/// Prints a report on the terminal.
pub struct TerminalReporter;

/// Draws a report as a PDF document.
pub struct PdfReportGenerator;

/// Row numbers joined by a separator.
pub open spec fn join_rows(rows: Seq<usize>, sep: Seq<char>) -> Seq<char>
    decreases rows.len(),
{
    if rows.len() == 0 {
        Seq::empty()
    } else if rows.len() == 1 {
        nat_text(rows[0] as nat)
    } else {
        join_rows(rows.drop_last(), sep) + sep + nat_text(rows.last() as nat)
    }
}

/// Row numbers joined by a separator.
pub fn join_rows_exec(rows: &Vec<usize>, sep: &str) -> (r: String)
    ensures
        r@ == join_rows(rows@, sep@),
{
    let mut s = String::new();
    let mut i: usize = 0;
    while i < rows.len()
        invariant
            i <= rows@.len(),
            s@ == join_rows(rows@.subrange(0, i as int), sep@),
        decreases rows.len() - i,
    {
        if i > 0 {
            push_str(&mut s, sep);
        }
        push_count(&mut s, rows[i]);
        assert(rows@.subrange(0, i + 1).drop_last() =~= rows@.subrange(0, i as int));
        i = i + 1;
    }
    assert(rows@.subrange(0, rows@.len() as int) =~= rows@);
    s
}

/// The header of the CSV export.
pub open spec fn csv_header() -> Seq<Seq<char>> {
    seq!["序号"@, "严重级别"@, "规则名称"@, "说明"@, "涉及行"@]
}

/// The CSV record of the finding at index `i`.
pub open spec fn csv_row(i: nat, f: FindingView) -> Seq<Seq<char>> {
    seq![nat_text(i + 1), severity_text(f.severity), f.rule_name, f.message, join_rows(f.related_rows, ";"@)]
}

/// The CSV records of a report: the header, then one record per finding.
pub open spec fn csv_records(fs: Seq<FindingView>) -> Seq<Seq<Seq<char>>> {
    seq![csv_header()] + Seq::new(fs.len(), |i: int| csv_row(i as nat, fs[i]))
}

pub open spec fn texts_view(v: Seq<String>) -> Seq<Seq<char>> {
    v.map_values(|s: String| s@)
}

pub open spec fn records_view(r: Seq<Vec<String>>) -> Seq<Seq<Seq<char>>> {
    r.map_values(|v: Vec<String>| texts_view(v@))
}

impl CsvExporter {
    /// The records to write: the header, then per finding its number, its
    /// severity, its rule, its message and its rows joined by ';'.
    pub fn records(&self, report: &AuditReport) -> (r: Vec<Vec<String>>)
        ensures
            records_view(r@) == csv_records(findings_view(report.findings@)),
    {
        let ghost fs = findings_view(report.findings@);
        let mut out: Vec<Vec<String>> = Vec::new();
        let mut header: Vec<String> = Vec::new();
        header.push(String::from_str("序号"));
        header.push(String::from_str("严重级别"));
        header.push(String::from_str("规则名称"));
        header.push(String::from_str("说明"));
        header.push(String::from_str("涉及行"));
        assert(texts_view(header@) =~= csv_header());
        out.push(header);
        let mut i: usize = 0;
        while i < report.findings.len()
            invariant
                fs == findings_view(report.findings@),
                i <= fs.len(),
                records_view(out@) =~= seq![csv_header()] + Seq::new(i as nat, |k: int| csv_row(k as nat, fs[k])),
            decreases report.findings.len() - i,
        {
            let f = &report.findings[i];
            assert(fs[i as int] == f@);
            let mut rec: Vec<String> = Vec::new();
            let mut num = String::new();
            push_count(&mut num, i + 1);
            rec.push(num);
            rec.push(f.severity.to_text());
            rec.push(f.rule_name.clone());
            rec.push(f.message.clone());
            rec.push(join_rows_exec(&f.related_rows, ";"));
            assert(texts_view(rec@) =~= csv_row(i as nat, fs[i as int]));
            let ghost before = out@;
            out.push(rec);
            proof {
                assert(records_view(out@) =~= records_view(before).push(texts_view(rec@)));
                assert(seq![csv_header()] + Seq::new((i + 1) as nat, |k: int| csv_row(k as nat, fs[k])) =~= (seq![
                    csv_header(),
                ] + Seq::new(i as nat, |k: int| csv_row(k as nat, fs[k]))).push(csv_row(i as nat, fs[i as int])));
            }
            i = i + 1;
        }
        assert(Seq::new(fs.len(), |k: int| csv_row(k as nat, fs[k])) =~= Seq::new(i as nat, |k: int| csv_row(k as nat, fs[k])));
        out
    }
}

/// The verdict of the HTML report.
pub open spec fn conclusion_text(errors: nat, warnings: nat) -> Seq<char> {
    if errors > 0 {
        "❌ 审计发现严重问题，需立即核查整改"@
    } else if warnings > 0 {
        "⚠️ 审计发现警告事项，建议进一步核实"@
    } else {
        "✅ 审计通过，未发现重大异常"@
    }
}

pub open spec fn conclusion_color(errors: nat, warnings: nat) -> Seq<char> {
    if errors > 0 {
        "#c53030"@
    } else if warnings > 0 {
        "#b7791f"@
    } else {
        "#276749"@
    }
}

pub open spec fn conclusion_bg(errors: nat, warnings: nat) -> Seq<char> {
    if errors > 0 {
        "#fed7d7"@
    } else if warnings > 0 {
        "#fefcbf"@
    } else {
        "#c6f6d5"@
    }
}

fn conclusion_exec(errors: usize, warnings: usize) -> (r: &'static str)
    ensures
        r@ == conclusion_text(errors as nat, warnings as nat),
{
    if errors > 0 {
        "❌ 审计发现严重问题，需立即核查整改"
    } else if warnings > 0 {
        "⚠️ 审计发现警告事项，建议进一步核实"
    } else {
        "✅ 审计通过，未发现重大异常"
    }
}

fn conclusion_color_exec(errors: usize, warnings: usize) -> (r: &'static str)
    ensures
        r@ == conclusion_color(errors as nat, warnings as nat),
{
    if errors > 0 {
        "#c53030"
    } else if warnings > 0 {
        "#b7791f"
    } else {
        "#276749"
    }
}

fn conclusion_bg_exec(errors: usize, warnings: usize) -> (r: &'static str)
    ensures
        r@ == conclusion_bg(errors as nat, warnings as nat),
{
    if errors > 0 {
        "#fed7d7"
    } else if warnings > 0 {
        "#fefcbf"
    } else {
        "#c6f6d5"
    }
}

pub open spec fn severity_label(s: Severity) -> Seq<char> {
    severity_text(s)
}

pub open spec fn severity_background(s: Severity) -> Seq<char> {
    match s {
        Severity::Error => "#fed7d7"@,
        Severity::Warning => "#fefcbf"@,
        Severity::Info => "#bee3f8"@,
    }
}

pub open spec fn severity_color(s: Severity) -> Seq<char> {
    match s {
        Severity::Error => "#c53030"@,
        Severity::Warning => "#b7791f"@,
        Severity::Info => "#2b6cb0"@,
    }
}

fn severity_label_exec(s: Severity) -> (r: &'static str)
    ensures
        r@ == severity_label(s),
{
    match s {
        Severity::Error => "错误",
        Severity::Warning => "警告",
        Severity::Info => "信息",
    }
}

fn severity_background_exec(s: Severity) -> (r: &'static str)
    ensures
        r@ == severity_background(s),
{
    match s {
        Severity::Error => "#fed7d7",
        Severity::Warning => "#fefcbf",
        Severity::Info => "#bee3f8",
    }
}

fn severity_color_exec(s: Severity) -> (r: &'static str)
    ensures
        r@ == severity_color(s),
{
    match s {
        Severity::Error => "#c53030",
        Severity::Warning => "#b7791f",
        Severity::Info => "#2b6cb0",
    }
}

/// Alternate rows are shaded.
pub open spec fn row_background(i: nat) -> Seq<char> {
    if i % 2 == 0 {
        "#ffffff"@
    } else {
        "#f7fafc"@
    }
}

fn row_background_exec(i: usize) -> (r: &'static str)
    ensures
        r@ == row_background(i as nat),
{
    if i % 2 == 0 {
        "#ffffff"
    } else {
        "#f7fafc"
    }
}

/// A text with each line break written as `<br>`.
pub open spec fn newlines_as_breaks(s: Seq<char>) -> Seq<char>
    decreases s.len(),
{
    if s.len() == 0 {
        Seq::empty()
    } else {
        newlines_as_breaks(s.drop_last()) + if s.last() == '\n' {
            "<br>"@
        } else {
            seq![s.last()]
        }
    }
}

fn push_breaks(s: &mut String, text: &str)
    ensures
        final(s)@ == old(s)@ + newlines_as_breaks(text@),
{
    let ghost start = s@;
    let cs = chars_of(text);
    let mut i: usize = 0;
    while i < cs.len()
        invariant
            i <= cs@.len(),
            cs@ == text@,
            s@ == start + newlines_as_breaks(cs@.subrange(0, i as int)),
        decreases cs.len() - i,
    {
        let c = cs[i];
        assert(cs@.subrange(0, i + 1).drop_last() =~= cs@.subrange(0, i as int));
        if c == '\n' {
            push_str(s, "<br>");
        } else {
            push_char(s, c);
        }
        i = i + 1;
    }
    assert(cs@.subrange(0, cs@.len() as int) =~= cs@);
}

/// The rows cell: the rows joined by ", ", or "-" where there are none.
pub open spec fn rows_cell(rows: Seq<usize>) -> Seq<char> {
    if rows.len() == 0 {
        "-"@
    } else {
        join_rows(rows, ", "@)
    }
}

fn push_rows_cell(s: &mut String, rows: &Vec<usize>)
    ensures
        final(s)@ == old(s)@ + rows_cell(rows@),
{
    if rows.len() == 0 {
        push_str(s, "-");
    } else {
        let t = join_rows_exec(rows, ", ");
        push_str(s, t.as_str());
    }
}

/// The table row of the finding at index `i`.
pub open spec fn row_html(i: nat, f: FindingView) -> Seq<char> {
    "<tr style=\"background:"@
        + row_background(i)
        + "\">\n                    <td style=\"padding:8px; border-bottom:1px solid #e2e8f0; text-align:center\">"@
        + nat_text(i + 1)
        + "</td>\n                    <td style=\"padding:8px; border-bottom:1px solid #e2e8f0; text-align:center\">\n                        <span style=\"background:"@
        + severity_background(f.severity)
        + "; color:"@
        + severity_color(f.severity)
        + "; padding:2px 8px; border-radius:10px; font-size:12px\">"@
        + severity_label(f.severity)
        + "</span>\n                    </td>\n                    <td style=\"padding:8px; border-bottom:1px solid #e2e8f0\">"@
        + f.rule_name
        + "</td>\n                    <td style=\"padding:8px; border-bottom:1px solid #e2e8f0; font-size:13px\">"@
        + newlines_as_breaks(f.message)
        + "</td>\n                    <td style=\"padding:8px; border-bottom:1px solid #e2e8f0; text-align:center; font-size:12px; color:#718096\">"@
        + rows_cell(f.related_rows)
        + "</td>\n                </tr>"@
}

fn push_row(s: &mut String, i: usize, f: &AuditFinding)
    requires
        i < usize::MAX,
    ensures
        final(s)@ == old(s)@ + row_html(i as nat, f@),
{
    let ghost start = s@;
    push_str(s, "<tr style=\"background:");
    push_str(s, row_background_exec(i));
    push_str(s, "\">\n                    <td style=\"padding:8px; border-bottom:1px solid #e2e8f0; text-align:center\">");
    push_count(s, i + 1);
    push_str(s, "</td>\n                    <td style=\"padding:8px; border-bottom:1px solid #e2e8f0; text-align:center\">\n                        <span style=\"background:");
    push_str(s, severity_background_exec(f.severity));
    push_str(s, "; color:");
    push_str(s, severity_color_exec(f.severity));
    push_str(s, "; padding:2px 8px; border-radius:10px; font-size:12px\">");
    push_str(s, severity_label_exec(f.severity));
    push_str(s, "</span>\n                    </td>\n                    <td style=\"padding:8px; border-bottom:1px solid #e2e8f0\">");
    push_str(s, f.rule_name.as_str());
    push_str(s, "</td>\n                    <td style=\"padding:8px; border-bottom:1px solid #e2e8f0; font-size:13px\">");
    push_breaks(s, f.message.as_str());
    push_str(s, "</td>\n                    <td style=\"padding:8px; border-bottom:1px solid #e2e8f0; text-align:center; font-size:12px; color:#718096\">");
    push_rows_cell(s, &f.related_rows);
    push_str(s, "</td>\n                </tr>");
    assert(s@ =~= start + row_html(i as nat, f@));
}

/// The table rows of the findings `0..k`.
pub open spec fn rows_html(fs: Seq<FindingView>, k: int) -> Seq<char>
    decreases k,
{
    if k <= 0 {
        Seq::empty()
    } else {
        rows_html(fs, k - 1) + row_html((k - 1) as nat, fs[k - 1])
    }
}

/// The opening of the HTML page up to the audit time in the overview.
pub open spec fn page_overview(
    total_txn: nat,
    errors: nat,
    warnings: nat,
    infos: nat,
    debit: Seq<char>,
    credit: Seq<char>,
    audit_time: Seq<char>,
) -> Seq<char> {
    "<!DOCTYPE html>\n<html lang=\"zh-CN\">\n<head>\n    <meta charset=\"UTF-8\">\n    <title>AuditLens 审计报告</title>\n    <style>\n        @page { margin: 20mm; }\n        * { margin: 0; padding: 0; box-sizing: border-box; }\n        body { font-family: \"Microsoft YaHei\", \"SimSun\", sans-serif; color: #1a202c; font-size: 14px; line-height: 1.6; }\n        .header { background: linear-gradient(135deg, #1a365d, #2b6cb0); color: white; padding: 32px; margin: -20px -20px 24px; }\n        .header h1 { font-size: 24px; margin-bottom: 4px; }\n        .header .sub { font-size: 13px; opacity: 0.8; }\n        .section { margin-bottom: 24px; }\n        .section h2 { color: #1a365d; font-size: 17px; padding-bottom: 6px; border-bottom: 2px solid #2b6cb0; margin-bottom: 12px; }\n        .stats { display: flex; gap: 16px; margin-bottom: 20px; flex-wrap: wrap; }\n        .stat-box { flex: 1; min-width: 120px; background: #f7fafc; border: 1px solid #e2e8f0; border-radius: 8px; padding: 16px; text-align: center; }\n        .stat-box .value { font-size: 24px; font-weight: 700; }\n        .stat-box .label { font-size: 12px; color: #718096; }\n        .stat-box.error .value { color: #e53e3e; }\n        .stat-box.warning .value { color: #dd6b20; }\n        .stat-box.info .value { color: #2b6cb0; }\n        .conclusion { padding: 16px; border-radius: 8px; font-size: 16px; font-weight: 600; margin-bottom: 20px; }\n        table { width: 100%; border-collapse: collapse; font-size: 13px; }\n        th { background: #2c5282; color: white; padding: 10px; text-align: left; }\n        .footer { margin-top: 32px; padding-top: 16px; border-top: 1px solid #e2e8f0; color: #a0aec0; font-size: 11px; text-align: center; }\n        @media print {\n            .header { -webkit-print-color-adjust: exact; print-color-adjust: exact; }\n            th { -webkit-print-color-adjust: exact; print-color-adjust: exact; }\n        }\n    </style>\n</head>\n<body>\n    <div class=\"header\">\n        <h1>🔍 AuditLens 审计报告</h1>\n        <div class=\"sub\">会计智能查账系统 · 自动生成</div>\n    </div>\n\n    <div class=\"section\">\n        <h2>📊 审计概览</h2>\n        <div class=\"stats\">\n            <div class=\"stat-box\"><div class=\"value\">"@
        + nat_text(total_txn)
        + "</div><div class=\"label\">交易总数</div></div>\n            <div class=\"stat-box error\"><div class=\"value\">"@
        + nat_text(errors)
        + "</div><div class=\"label\">错误</div></div>\n            <div class=\"stat-box warning\"><div class=\"value\">"@
        + nat_text(warnings)
        + "</div><div class=\"label\">警告</div></div>\n            <div class=\"stat-box info\"><div class=\"value\">"@
        + nat_text(infos)
        + "</div><div class=\"label\">信息</div></div>\n        </div>\n        <div class=\"stats\">\n            <div class=\"stat-box\"><div class=\"value\" style=\"font-size:18px\">"@
        + debit
        + "</div><div class=\"label\">借方总额</div></div>\n            <div class=\"stat-box\"><div class=\"value\" style=\"font-size:18px\">"@
        + credit
        + "</div><div class=\"label\">贷方总额</div></div>\n            <div class=\"stat-box\"><div class=\"value\" style=\"font-size:18px\">"@
        + audit_time
}

/// The verdict section of the HTML page, up to its counts.
pub open spec fn page_verdict(errors: nat, warnings: nat, infos: nat, total_findings: nat) -> Seq<char> {
    "</div><div class=\"label\">审计时间</div></div>\n        </div>\n    </div>\n\n    <div class=\"section\">\n        <h2>📋 审计结论</h2>\n        <div class=\"conclusion\" style=\"background: "@
        + conclusion_bg(errors, warnings)
        + "; color: "@
        + conclusion_color(errors, warnings)
        + "\">\n            "@
        + conclusion_text(errors, warnings)
        + "\n            <div style=\"font-size:13px; font-weight:normal; margin-top:4px; color:#4a5568\">\n                共发现 "@
        + nat_text(total_findings)
        + " 项问题（错误 "@
        + nat_text(errors)
        + " 项 / 警告 "@
        + nat_text(warnings)
        + " 项 / 信息 "@
        + nat_text(infos)
}

/// The findings table and the footer of the HTML page.
pub open spec fn page_findings(rows: Seq<char>, audit_time: Seq<char>) -> Seq<char> {
    " 项）\n            </div>\n        </div>\n    </div>\n\n    <div class=\"section\">\n        <h2>📝 审计发现明细</h2>\n        <table>\n            <thead>\n                <tr><th style=\"width:40px\">#</th><th style=\"width:60px\">级别</th><th style=\"width:140px\">规则</th><th>说明</th><th style=\"width:80px\">涉及行</th></tr>\n            </thead>\n            <tbody>\n                "@
        + rows
        + "\n            </tbody>\n        </table>\n    </div>\n\n    <div class=\"footer\">\n        <p>本报告由 AuditLens 会计智能查账系统自动生成 · 报告时间: "@
        + audit_time
        + "</p>\n        <p>报告仅供参考，最终审计意见以注册会计师签署的正式审计报告为准</p>\n    </div>\n</body>\n</html>"@
}

/// The HTML page of a report with the given figures and table rows.
pub open spec fn page_html(
    total_txn: nat,
    errors: nat,
    warnings: nat,
    infos: nat,
    debit: Seq<char>,
    credit: Seq<char>,
    audit_time: Seq<char>,
    total_findings: nat,
    rows: Seq<char>,
) -> Seq<char> {
    page_overview(total_txn, errors, warnings, infos, debit, credit, audit_time) + page_verdict(
        errors,
        warnings,
        infos,
        total_findings,
    ) + page_findings(rows, audit_time)
}

/// The HTML page of a report.
pub open spec fn report_html(
    total_txn: nat,
    debit: Seq<char>,
    credit: Seq<char>,
    audit_time: Seq<char>,
    fs: Seq<FindingView>,
) -> Seq<char> {
    page_html(
        total_txn,
        count_severity(fs, Severity::Error),
        count_severity(fs, Severity::Warning),
        count_severity(fs, Severity::Info),
        debit,
        credit,
        audit_time,
        fs.len(),
        rows_html(fs, fs.len() as int),
    )
}

fn push_overview(
    s: &mut String,
    total_txn: usize,
    errors: usize,
    warnings: usize,
    infos: usize,
    debit: &str,
    credit: &str,
    audit_time: &str,
)
    ensures
        final(s)@ == old(s)@ + page_overview(
            total_txn as nat,
            errors as nat,
            warnings as nat,
            infos as nat,
            debit@,
            credit@,
            audit_time@,
        ),
{
    let ghost start = s@;
    push_str(s, "<!DOCTYPE html>\n<html lang=\"zh-CN\">\n<head>\n    <meta charset=\"UTF-8\">\n    <title>AuditLens 审计报告</title>\n    <style>\n        @page { margin: 20mm; }\n        * { margin: 0; padding: 0; box-sizing: border-box; }\n        body { font-family: \"Microsoft YaHei\", \"SimSun\", sans-serif; color: #1a202c; font-size: 14px; line-height: 1.6; }\n        .header { background: linear-gradient(135deg, #1a365d, #2b6cb0); color: white; padding: 32px; margin: -20px -20px 24px; }\n        .header h1 { font-size: 24px; margin-bottom: 4px; }\n        .header .sub { font-size: 13px; opacity: 0.8; }\n        .section { margin-bottom: 24px; }\n        .section h2 { color: #1a365d; font-size: 17px; padding-bottom: 6px; border-bottom: 2px solid #2b6cb0; margin-bottom: 12px; }\n        .stats { display: flex; gap: 16px; margin-bottom: 20px; flex-wrap: wrap; }\n        .stat-box { flex: 1; min-width: 120px; background: #f7fafc; border: 1px solid #e2e8f0; border-radius: 8px; padding: 16px; text-align: center; }\n        .stat-box .value { font-size: 24px; font-weight: 700; }\n        .stat-box .label { font-size: 12px; color: #718096; }\n        .stat-box.error .value { color: #e53e3e; }\n        .stat-box.warning .value { color: #dd6b20; }\n        .stat-box.info .value { color: #2b6cb0; }\n        .conclusion { padding: 16px; border-radius: 8px; font-size: 16px; font-weight: 600; margin-bottom: 20px; }\n        table { width: 100%; border-collapse: collapse; font-size: 13px; }\n        th { background: #2c5282; color: white; padding: 10px; text-align: left; }\n        .footer { margin-top: 32px; padding-top: 16px; border-top: 1px solid #e2e8f0; color: #a0aec0; font-size: 11px; text-align: center; }\n        @media print {\n            .header { -webkit-print-color-adjust: exact; print-color-adjust: exact; }\n            th { -webkit-print-color-adjust: exact; print-color-adjust: exact; }\n        }\n    </style>\n</head>\n<body>\n    <div class=\"header\">\n        <h1>🔍 AuditLens 审计报告</h1>\n        <div class=\"sub\">会计智能查账系统 · 自动生成</div>\n    </div>\n\n    <div class=\"section\">\n        <h2>📊 审计概览</h2>\n        <div class=\"stats\">\n            <div class=\"stat-box\"><div class=\"value\">");
    push_count(s, total_txn);
    push_str(s, "</div><div class=\"label\">交易总数</div></div>\n            <div class=\"stat-box error\"><div class=\"value\">");
    push_count(s, errors);
    push_str(s, "</div><div class=\"label\">错误</div></div>\n            <div class=\"stat-box warning\"><div class=\"value\">");
    push_count(s, warnings);
    push_str(s, "</div><div class=\"label\">警告</div></div>\n            <div class=\"stat-box info\"><div class=\"value\">");
    push_count(s, infos);
    push_str(s, "</div><div class=\"label\">信息</div></div>\n        </div>\n        <div class=\"stats\">\n            <div class=\"stat-box\"><div class=\"value\" style=\"font-size:18px\">");
    push_str(s, debit);
    push_str(s, "</div><div class=\"label\">借方总额</div></div>\n            <div class=\"stat-box\"><div class=\"value\" style=\"font-size:18px\">");
    push_str(s, credit);
    push_str(s, "</div><div class=\"label\">贷方总额</div></div>\n            <div class=\"stat-box\"><div class=\"value\" style=\"font-size:18px\">");
    push_str(s, audit_time);
    assert(s@ =~= start + page_overview(
        total_txn as nat,
        errors as nat,
        warnings as nat,
        infos as nat,
        debit@,
        credit@,
        audit_time@,
    ));
}

fn push_verdict(s: &mut String, errors: usize, warnings: usize, infos: usize, total_findings: usize)
    ensures
        final(s)@ == old(s)@ + page_verdict(errors as nat, warnings as nat, infos as nat, total_findings as nat),
{
    let ghost start = s@;
    push_str(s, "</div><div class=\"label\">审计时间</div></div>\n        </div>\n    </div>\n\n    <div class=\"section\">\n        <h2>📋 审计结论</h2>\n        <div class=\"conclusion\" style=\"background: ");
    push_str(s, conclusion_bg_exec(errors, warnings));
    push_str(s, "; color: ");
    push_str(s, conclusion_color_exec(errors, warnings));
    push_str(s, "\">\n            ");
    push_str(s, conclusion_exec(errors, warnings));
    push_str(s, "\n            <div style=\"font-size:13px; font-weight:normal; margin-top:4px; color:#4a5568\">\n                共发现 ");
    push_count(s, total_findings);
    push_str(s, " 项问题（错误 ");
    push_count(s, errors);
    push_str(s, " 项 / 警告 ");
    push_count(s, warnings);
    push_str(s, " 项 / 信息 ");
    push_count(s, infos);
    assert(s@ =~= start + page_verdict(errors as nat, warnings as nat, infos as nat, total_findings as nat));
}

fn push_findings_table(s: &mut String, rows: &str, audit_time: &str)
    ensures
        final(s)@ == old(s)@ + page_findings(rows@, audit_time@),
{
    let ghost start = s@;
    push_str(s, " 项）\n            </div>\n        </div>\n    </div>\n\n    <div class=\"section\">\n        <h2>📝 审计发现明细</h2>\n        <table>\n            <thead>\n                <tr><th style=\"width:40px\">#</th><th style=\"width:60px\">级别</th><th style=\"width:140px\">规则</th><th>说明</th><th style=\"width:80px\">涉及行</th></tr>\n            </thead>\n            <tbody>\n                ");
    push_str(s, rows);
    push_str(s, "\n            </tbody>\n        </table>\n    </div>\n\n    <div class=\"footer\">\n        <p>本报告由 AuditLens 会计智能查账系统自动生成 · 报告时间: ");
    push_str(s, audit_time);
    push_str(s, "</p>\n        <p>报告仅供参考，最终审计意见以注册会计师签署的正式审计报告为准</p>\n    </div>\n</body>\n</html>");
    assert(s@ =~= start + page_findings(rows@, audit_time@));
}

impl PdfExporter {
    /// The printable HTML page of a report: its figures, its verdict, and a
    /// table of its findings.
    pub fn html(&self, report: &AuditReport) -> (r: String)
        ensures
            r@ == report_html(
                report.total_transactions as nat,
                report.total_debit.text(),
                report.total_credit.text(),
                report.audit_time@,
                findings_view(report.findings@),
            ),
    {
        let ghost fs = findings_view(report.findings@);
        let errors = report.error_count();
        let warnings = report.warning_count();
        let infos = report.info_count();
        let mut rows = String::new();
        let mut i: usize = 0;
        while i < report.findings.len()
            invariant
                fs == findings_view(report.findings@),
                i <= fs.len(),
                rows@ == rows_html(fs, i as int),
            decreases report.findings.len() - i,
        {
            let f = &report.findings[i];
            assert(fs[i as int] == f@);
            push_row(&mut rows, i, f);
            i = i + 1;
        }
        let debit = report.total_debit.to_text();
        let credit = report.total_credit.to_text();
        let mut s = String::new();
        push_overview(
            &mut s,
            report.total_transactions,
            errors,
            warnings,
            infos,
            debit.as_str(),
            credit.as_str(),
            report.audit_time.as_str(),
        );
        push_verdict(&mut s, errors, warnings, infos, report.findings.len());
        push_findings_table(&mut s, rows.as_str(), report.audit_time.as_str());
        assert(s@ =~= report_html(
            report.total_transactions as nat,
            report.total_debit.text(),
            report.total_credit.text(),
            report.audit_time@,
            fs,
        ));
        s
    }
}

/// The closing line of the terminal report.
#[derive(PartialEq, Eq, Structural, Clone, Copy, Debug)]
pub enum Verdict {
    /// No findings at all.
    Clean,
    /// At least one error.
    Failed,
    /// Warnings but no error.
    Warned,
    /// Only informational findings.
    InfoOnly,
}

pub open spec fn verdict_of(findings: nat, errors: nat, warnings: nat) -> Verdict {
    if findings == 0 {
        Verdict::Clean
    } else if errors > 0 {
        Verdict::Failed
    } else if warnings > 0 {
        Verdict::Warned
    } else {
        Verdict::InfoOnly
    }
}

pub open spec fn verdict_text(v: Verdict) -> Seq<char> {
    match v {
        Verdict::Clean => "  ✅ 未发现异常，账目审计通过！"@,
        Verdict::Failed => "  ❌ 审计发现严重问题，请立即核查！"@,
        Verdict::Warned => "  ⚠️  审计发现警告事项，建议进一步核实。"@,
        Verdict::InfoOnly => "  ✅ 审计通过，仅有信息提示。"@,
    }
}

impl Verdict {
    /// The line printed for the verdict.
    pub fn text(&self) -> (r: String)
        ensures
            r@ == verdict_text(*self),
    {
        match self {
            Verdict::Clean => String::from_str("  ✅ 未发现异常，账目审计通过！"),
            Verdict::Failed => String::from_str("  ❌ 审计发现严重问题，请立即核查！"),
            Verdict::Warned => String::from_str("  ⚠️  审计发现警告事项，建议进一步核实。"),
            Verdict::InfoOnly => String::from_str("  ✅ 审计通过，仅有信息提示。"),
        }
    }
}

/// The lines that describe a finding on the terminal, after its tag: its
/// rule, its message, and its rows where it has any.
pub open spec fn terminal_finding_lines(f: FindingView) -> Seq<Seq<char>> {
    let base = seq!["  规则："@ + f.rule_name, "  说明："@ + f.message];
    if f.related_rows.len() == 0 {
        base
    } else {
        base.push("  涉及行："@ + join_rows(f.related_rows, ", "@))
    }
}

pub open spec fn severity_tag(s: Severity) -> Seq<char> {
    "["@ + severity_text(s) + "]"@
}

impl TerminalReporter {
    /// The closing line's kind: `Clean` for a report without findings,
    /// else by its most serious severity.
    pub fn verdict(&self, report: &AuditReport) -> (r: Verdict)
        ensures
            r == verdict_of(
                report.findings@.len(),
                count_severity(findings_view(report.findings@), Severity::Error),
                count_severity(findings_view(report.findings@), Severity::Warning),
            ),
    {
        if report.findings.len() == 0 {
            Verdict::Clean
        } else if report.error_count() > 0 {
            Verdict::Failed
        } else if report.warning_count() > 0 {
            Verdict::Warned
        } else {
            Verdict::InfoOnly
        }
    }

    /// The tag a finding is printed under, such as `[错误]`.
    pub fn tag(&self, severity: Severity) -> (r: String)
        ensures
            r@ == severity_tag(severity),
    {
        let mut s = String::from_str("[");
        let t = severity.to_text();
        push_str(&mut s, t.as_str());
        push_str(&mut s, "]");
        s
    }

    /// The lines printed under a finding's tag.
    pub fn finding_lines(&self, f: &AuditFinding) -> (r: Vec<String>)
        ensures
            texts_view(r@) == terminal_finding_lines(f@),
    {
        let mut out: Vec<String> = Vec::new();
        let mut rule = String::from_str("  规则：");
        push_str(&mut rule, f.rule_name.as_str());
        out.push(rule);
        let mut msg = String::from_str("  说明：");
        push_str(&mut msg, f.message.as_str());
        out.push(msg);
        if f.related_rows.len() > 0 {
            let mut rows = String::from_str("  涉及行：");
            let j = join_rows_exec(&f.related_rows, ", ");
            push_str(&mut rows, j.as_str());
            out.push(rows);
        }
        assert(texts_view(out@) =~= terminal_finding_lines(f@));
        out
    }
}

/// The overview lines of the PDF document.
pub open spec fn pdf_overview(
    audit_time: Seq<char>,
    total: nat,
    debit: Seq<char>,
    credit: Seq<char>,
    errors: nat,
    warnings: nat,
    infos: nat,
) -> Seq<Seq<char>> {
    seq![
        "Audit Time: "@ + audit_time,
        "Total Transactions: "@ + nat_text(total),
        "Total Debit: "@ + debit,
        "Total Credit: "@ + credit,
        "Errors: "@ + nat_text(errors),
        "Warnings: "@ + nat_text(warnings),
        "Info: "@ + nat_text(infos),
    ]
}

pub open spec fn severity_code(s: Severity) -> Seq<char> {
    match s {
        Severity::Error => "ERROR"@,
        Severity::Warning => "WARNING"@,
        Severity::Info => "INFO"@,
    }
}

/// A rule name cut for the PDF table: longer than 20 bytes, its first 17
/// bytes and "...".
pub open spec fn rule_label_text(name: Seq<char>) -> Seq<char> {
    if utf8_len(name) > 20 {
        vstd::utf8::decode_utf8(vstd::utf8::encode_utf8(name).subrange(0, 17)) + "..."@
    } else {
        name
    }
}

/// Whether the PDF table can cut a rule name: where it is longer than 20
/// bytes, byte 17 starts a character.
pub open spec fn rule_label_cuttable(name: Seq<char>) -> bool {
    utf8_len(name) > 20 ==> vstd::utf8::is_char_boundary(vstd::utf8::encode_utf8(name), 17)
}

/// Each character outside ASCII shown as '?' (the PDF's built-in fonts have
/// no others).
pub open spec fn ascii_or_mark(s: Seq<char>) -> Seq<char> {
    s.map_values(|c: char| if (c as u32) < 128 { c } else { '?' })
}

/// A message cut for the PDF table: longer than 60 bytes, its first 57
/// characters and "..."; then in ASCII.
pub open spec fn description_text(message: Seq<char>) -> Seq<char> {
    ascii_or_mark(
        if utf8_len(message) > 60 {
            message.take(if message.len() < 57 { message.len() as int } else { 57 }) + "..."@
        } else {
            message
        },
    )
}

impl PdfReportGenerator {
    /// The overview lines: audit time, transaction count, totals and the
    /// counts of each severity.
    pub fn overview_items(report: &AuditReport) -> (r: Vec<String>)
        ensures
            texts_view(r@) == pdf_overview(
                report.audit_time@,
                report.total_transactions as nat,
                report.total_debit.text(),
                report.total_credit.text(),
                count_severity(findings_view(report.findings@), Severity::Error),
                count_severity(findings_view(report.findings@), Severity::Warning),
                count_severity(findings_view(report.findings@), Severity::Info),
            ),
    {
        let mut out: Vec<String> = Vec::new();
        let mut a = String::from_str("Audit Time: ");
        push_str(&mut a, report.audit_time.as_str());
        out.push(a);
        let mut b = String::from_str("Total Transactions: ");
        push_count(&mut b, report.total_transactions);
        out.push(b);
        let mut c = String::from_str("Total Debit: ");
        let d = report.total_debit.to_text();
        push_str(&mut c, d.as_str());
        out.push(c);
        let mut e = String::from_str("Total Credit: ");
        let f = report.total_credit.to_text();
        push_str(&mut e, f.as_str());
        out.push(e);
        let mut g = String::from_str("Errors: ");
        push_count(&mut g, report.error_count());
        out.push(g);
        let mut h = String::from_str("Warnings: ");
        push_count(&mut h, report.warning_count());
        out.push(h);
        let mut k = String::from_str("Info: ");
        push_count(&mut k, report.info_count());
        out.push(k);
        assert(texts_view(out@) =~= pdf_overview(
            report.audit_time@,
            report.total_transactions as nat,
            report.total_debit.text(),
            report.total_credit.text(),
            count_severity(findings_view(report.findings@), Severity::Error),
            count_severity(findings_view(report.findings@), Severity::Warning),
            count_severity(findings_view(report.findings@), Severity::Info),
        ));
        out
    }

    /// The severity as the PDF table prints it.
    pub fn severity_code(severity: Severity) -> (r: &'static str)
        ensures
            r@ == severity_code(severity),
    {
        match severity {
            Severity::Error => "ERROR",
            Severity::Warning => "WARNING",
            Severity::Info => "INFO",
        }
    }

    /// A rule name as the PDF table prints it.
    pub fn rule_label(name: &str) -> (r: String)
        requires
            rule_label_cuttable(name@),
        ensures
            r@ == rule_label_text(name@),
    {
        let n = name.as_bytes().len();
        if n > 20 {
            let (head, _) = name.split_at(17);
            proof {
                vstd::utf8::encode_utf8_decode_utf8(head@);
            }
            let mut s = String::from_str(head);
            push_str(&mut s, "...");
            s
        } else {
            String::from_str(name)
        }
    }

    /// A message as the PDF table prints it.
    pub fn description(message: &str) -> (r: String)
        ensures
            r@ == description_text(message@),
    {
        let cs = chars_of(message);
        let ghost cut = if utf8_len(message@) > 60 {
            message@.take(if message@.len() < 57 { message@.len() as int } else { 57 }) + "..."@
        } else {
            message@
        };
        let mut shown: Vec<char> = Vec::new();
        if message.as_bytes().len() > 60 {
            let limit: usize = if cs.len() < 57 { cs.len() } else { 57 };
            let mut i: usize = 0;
            while i < limit
                invariant
                    i <= limit,
                    limit <= cs@.len(),
                    shown@ == cs@.take(i as int),
                decreases limit - i,
            {
                shown.push(cs[i]);
                assert(cs@.take(i + 1) =~= cs@.take(i as int).push(cs@[i as int]));
                i = i + 1;
            }
            shown.push('.');
            shown.push('.');
            shown.push('.');
            proof {
                reveal_strlit("...");
            }
        } else {
            let mut i: usize = 0;
            while i < cs.len()
                invariant
                    i <= cs@.len(),
                    shown@ == cs@.take(i as int),
                decreases cs.len() - i,
            {
                shown.push(cs[i]);
                assert(cs@.take(i + 1) =~= cs@.take(i as int).push(cs@[i as int]));
                i = i + 1;
            }
        }
        assert(shown@ =~= cut);
        let mut s = String::new();
        let mut j: usize = 0;
        while j < shown.len()
            invariant
                j <= shown@.len(),
                s@ =~= ascii_or_mark(shown@.take(j as int)),
            decreases shown.len() - j,
        {
            let c = shown[j];
            if (c as u32) < 128 {
                push_char(&mut s, c);
            } else {
                push_char(&mut s, '?');
            }
            assert(shown@.take(j + 1) =~= shown@.take(j as int).push(c));
            j = j + 1;
        }
        assert(shown@.take(shown@.len() as int) =~= shown@);
        s
    }

    /// The header line of a continuation page.
    pub fn page_header(page: usize) -> (r: String)
        ensures
            r@ == "AuditLens Report - Page "@ + nat_text(page as nat),
    {
        let mut s = String::from_str("AuditLens Report - Page ");
        push_count(&mut s, page);
        s
    }
}

} // verus!
