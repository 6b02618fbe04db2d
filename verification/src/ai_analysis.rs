//! The written analysis of a report: a Markdown report built from the
//! findings by fixed rules, and the prompt for a model's analysis.
use crate::ai::{count_in_group, group_findings, prompt_label, push_count};
use crate::group::{group_rows, group_spec, groups_view, groups_wf, keys_view, lemma_group_spec_wf, KeyView, RowKey};
use crate::models::{count_severity, findings_view, AuditFinding, AuditReport, FindingView, Severity};
use crate::money::{abs_int, difference_of, nat_text, parts_text, sub_parts, units_of, Parts};
use crate::text::{chars_of, contains, contains_exec, push_str};
use vstd::prelude::*;

verus! {

/// The settings of an OpenAI-compatible chat service.
#[derive(Clone, Debug)]
pub struct AiConfig {
    pub api_url: String,
    pub api_key: String,
    pub model: String,
}

impl Default for AiConfig {
    /// DeepSeek's chat service and model, with no key.
    fn default() -> (r: AiConfig)
        ensures
            r.api_url@ == "https://api.deepseek.com/v1/chat/completions"@,
            r.api_key@.len() == 0,
            r.model@ == "deepseek-chat"@,
    {
        AiConfig {
            api_url: String::from_str("https://api.deepseek.com/v1/chat/completions"),
            api_key: String::new(),
            model: String::from_str("deepseek-chat"),
        }
    }
}

/// Whether an analysis is made locally: when no key is configured.
pub fn uses_local_analysis(config: &AiConfig) -> (r: bool)
    ensures
        r == (config.api_key@.len() == 0),
{
    config.api_key.as_str().is_empty()
}

/// What a chat service's reply gives: its error message as an error, else
/// the first choice's content, else an error.
pub fn interpret_chat_reply(error: Option<String>, first_choice: Option<String>) -> (r: Result<String, String>)
    ensures
        error is Some ==> r is Err && r->Err_0@ == "AI API 错误: "@ + error.unwrap()@,
        error is None && first_choice is Some ==> r is Ok && r->Ok_0 == first_choice.unwrap(),
        error is None && first_choice is None ==> r is Err && r->Err_0@ == "AI 未返回有效响应"@,
{
    match error {
        Some(e) => {
            let mut s = String::from_str("AI API 错误: ");
            push_str(&mut s, e.as_str());
            Err(s)
        },
        None => match first_choice {
            Some(c) => Ok(c),
            None => Err(String::from_str("AI 未返回有效响应")),
        },
    }
}

/// The finding lines of the prompt for the findings `0..k`.
pub open spec fn audit_prompt_lines(fs: Seq<FindingView>, k: int) -> Seq<char>
    decreases k,
{
    if k <= 0 {
        Seq::empty()
    } else {
        let f = fs[k - 1];
        audit_prompt_lines(fs, k - 1) + nat_text(k as nat) + ". ["@ + prompt_label(f.severity) + "] "@
            + f.rule_name + " - "@ + f.message + "\n"@
    }
}

/// The findings part of the prompt: the first 30 findings, and a note of
/// how many more there are.
pub open spec fn audit_prompt_findings(fs: Seq<FindingView>) -> Seq<char> {
    if fs.len() > 30 {
        audit_prompt_lines(fs, 30) + "... 还有 "@ + nat_text((fs.len() - 30) as nat) + " 条发现未列出\n"@
    } else {
        audit_prompt_lines(fs, fs.len() as int)
    }
}

pub open spec fn audit_prompt(
    audit_time: Seq<char>,
    total: nat,
    debit: Seq<char>,
    credit: Seq<char>,
    fs: Seq<FindingView>,
) -> Seq<char> {
    "你是一名资深注册会计师和审计专家。请根据以下审计数据，提供专业的审计分析报告。\n\n## 审计概览\n- 审计时间："@ + audit_time
        + "\n- 交易总数："@ + nat_text(total) + "\n- 借方总额："@ + debit + "\n- 贷方总额："@ + credit
        + "\n- 发现错误："@ + nat_text(count_severity(fs, Severity::Error)) + " 条\n- 发现警告："@
        + nat_text(count_severity(fs, Severity::Warning)) + " 条\n- 信息提示："@ + nat_text(
        count_severity(fs, Severity::Info),
    ) + " 条\n\n## 审计发现明细\n"@ + audit_prompt_findings(fs) + prompt_questions()
}

pub open spec fn prompt_questions() -> Seq<char> {
    "\n\n请从以下角度进行分析：\n\n### 1. 整体风险评估\n对该账目的整体风险等级进行评定（低/中/高/极高），并说明理由。\n\n### 2. 重点问题分析\n针对发现的错误和警告，分析可能的原因和潜在影响。\n\n### 3. 具体审计建议\n提供具体的、可操作的改进建议，按优先级排列。\n\n### 4. 合规性意见\n评估账目是否存在违反会计准则或法规的风险。\n\n### 5. 后续审计计划\n建议下一步需要重点关注的审计领域。\n\n请用中文回答，语言专业但易于理解。"@
}

fn prompt_label_exec(s: Severity) -> (r: &'static str)
    ensures
        r@ == prompt_label(s),
{
    match s {
        Severity::Error => "错误",
        Severity::Warning => "警告",
        Severity::Info => "信息",
    }
}

/// The prompt that asks a model for an audit analysis of a report.
pub fn build_audit_prompt(report: &AuditReport) -> (r: String)
    ensures
        r@ == audit_prompt(
            report.audit_time@,
            report.total_transactions as nat,
            report.total_debit.text(),
            report.total_credit.text(),
            findings_view(report.findings@),
        ),
{
    let ghost fs = findings_view(report.findings@);
    let errors = report.error_count();
    let warnings = report.warning_count();
    let infos = report.info_count();
    let n = report.findings.len();
    let shown: usize = if n > 30 {
        30
    } else {
        n
    };
    let mut lines = String::new();
    let mut i: usize = 0;
    while i < shown
        invariant
            fs == findings_view(report.findings@),
            shown <= report.findings@.len(),
            i <= shown,
            lines@ == audit_prompt_lines(fs, i as int),
        decreases shown - i,
    {
        let f = &report.findings[i];
        assert(fs[i as int] == f@);
        push_count(&mut lines, i + 1);
        push_str(&mut lines, ". [");
        push_str(&mut lines, prompt_label_exec(f.severity));
        push_str(&mut lines, "] ");
        push_str(&mut lines, f.rule_name.as_str());
        push_str(&mut lines, " - ");
        push_str(&mut lines, f.message.as_str());
        push_str(&mut lines, "\n");
        i = i + 1;
    }
    if n > 30 {
        push_str(&mut lines, "... 还有 ");
        push_count(&mut lines, n - 30);
        push_str(&mut lines, " 条发现未列出\n");
    }
    let mut s = String::new();
    push_str(&mut s, "你是一名资深注册会计师和审计专家。请根据以下审计数据，提供专业的审计分析报告。\n\n## 审计概览\n- 审计时间：");
    push_str(&mut s, report.audit_time.as_str());
    push_str(&mut s, "\n- 交易总数：");
    push_count(&mut s, report.total_transactions);
    push_str(&mut s, "\n- 借方总额：");
    let d = report.total_debit.to_text();
    push_str(&mut s, d.as_str());
    push_str(&mut s, "\n- 贷方总额：");
    let c = report.total_credit.to_text();
    push_str(&mut s, c.as_str());
    push_str(&mut s, "\n- 发现错误：");
    push_count(&mut s, errors);
    push_str(&mut s, " 条\n- 发现警告：");
    push_count(&mut s, warnings);
    push_str(&mut s, " 条\n- 信息提示：");
    push_count(&mut s, infos);
    push_str(&mut s, " 条\n\n## 审计发现明细\n");
    push_str(&mut s, lines.as_str());
    push_str(&mut s, "\n\n请从以下角度进行分析：\n\n### 1. 整体风险评估\n对该账目的整体风险等级进行评定（低/中/高/极高），并说明理由。\n\n### 2. 重点问题分析\n针对发现的错误和警告，分析可能的原因和潜在影响。\n\n### 3. 具体审计建议\n提供具体的、可操作的改进建议，按优先级排列。\n\n### 4. 合规性意见\n评估账目是否存在违反会计准则或法规的风险。\n\n### 5. 后续审计计划\n建议下一步需要重点关注的审计领域。\n\n请用中文回答，语言专业但易于理解。");
    s
}

/// The risk grade of the written analysis.
pub open spec fn grade_of(errors: nat, warnings: nat) -> Seq<char> {
    if errors >= 3 {
        "极高"@
    } else if errors >= 1 {
        "高"@
    } else if warnings >= 5 {
        "中"@
    } else {
        "低"@
    }
}

pub open spec fn grade_icon(errors: nat, warnings: nat) -> Seq<char> {
    if errors >= 3 {
        "🔴"@
    } else if errors >= 1 {
        "🟠"@
    } else if warnings >= 5 {
        "🟡"@
    } else {
        "🟢"@
    }
}

pub open spec fn rule_key(f: FindingView) -> KeyView {
    (seq![f.rule_name], Seq::empty())
}

pub open spec fn rule_keys(fs: Seq<FindingView>) -> Seq<KeyView> {
    fs.map_values(|f: FindingView| rule_key(f))
}

/// The summary line of one rule's findings.
pub open spec fn rule_line(rule: Seq<char>, e: nat, w: nat, i: nat) -> Seq<char> {
    let icon = if e > 0 {
        "🔴"@
    } else if w > 0 {
        "🟡"@
    } else {
        "🔵"@
    };
    "- "@ + icon + " **"@ + rule + "**："@ + nat_text(e) + " 个错误 / "@ + nat_text(w) + " 个警告 / "@
        + nat_text(i) + " 个信息\n"@
}

/// The summary lines of the rules `0..g`, in order of first appearance.
pub open spec fn rule_lines(fs: Seq<FindingView>, groups: Seq<Seq<usize>>, g: int) -> Seq<char>
    decreases g,
{
    if g <= 0 {
        Seq::empty()
    } else {
        let members = group_findings(fs, groups[g - 1]);
        rule_lines(fs, groups, g - 1) + rule_line(
            fs[groups[g - 1][0] as int].rule_name,
            count_severity(members, Severity::Error),
            count_severity(members, Severity::Warning),
            count_severity(members, Severity::Info),
        )
    }
}

/// Whether a Benford finding is a warning.
pub open spec fn has_benford_warning(fs: Seq<FindingView>) -> bool {
    exists|i: int| 0 <= i < fs.len() && contains(#[trigger] fs[i].rule_name, "Benford"@) && fs[i].severity == Severity::Warning
}

pub open spec fn has_rule_word(fs: Seq<FindingView>, word: Seq<char>) -> bool {
    exists|i: int| 0 <= i < fs.len() && contains(#[trigger] fs[i].rule_name, word)
}

pub open spec fn balance_note(debit: Parts, credit: Parts, diff: Parts) -> Seq<char> {
    if diff.0 != 0 {
        "⚠️ **借贷总额不平衡**：借方总额 "@ + parts_text(debit) + " 与贷方总额 "@ + parts_text(credit) + " 存在差额 "@
            + parts_text((abs_int(diff.0), diff.1)) + "，需重点核查。\n\n"@
    } else {
        "✅ 借贷总额平衡，整体账务框架正常。\n\n"@
    }
}

/// One numbered item of advice.
pub open spec fn advice_item(p: nat, body: Seq<char>) -> Seq<char> {
    "**"@ + nat_text(p) + body
}

pub open spec fn urgent_body(errors: nat) -> Seq<char> {
    ". [紧急]** 立即核查所有标记为「错误」的 "@ + nat_text(errors) + " 条记录，尤其关注借贷不平衡的凭证。\n\n"@
}

pub open spec fn benford_body() -> Seq<char> {
    ". [重要]** Benford 定律检测发现异常，建议对金额首位数字分布异常的科目进行抽样审查。\n\n"@
}

pub open spec fn related_body() -> Seq<char> {
    ". [重要]** 发现关联交易迹象，建议核实相关方关系并检查交易定价的公允性。\n\n"@
}

pub open spec fn duplicate_body() -> Seq<char> {
    ". [建议]** 存在疑似重复交易，请与业务部门确认是否为正常业务需要。\n\n"@
}

pub open spec fn routine_body() -> Seq<char> {
    ". [常规]** 建议定期（每月/每季）使用 AuditLens 进行自动化审计，持续监控账务质量。\n\n"@
}

/// The advice items that are due, numbered from `p` on: a `true` flag
/// brings in its item; the routine item always ends the list.
pub open spec fn advice_from(p: nat, items: Seq<(bool, Seq<char>)>) -> Seq<char>
    decreases items.len(),
{
    if items.len() == 0 {
        advice_item(p, routine_body())
    } else if items[0].0 {
        advice_item(p, items[0].1) + advice_from(p + 1, items.drop_first())
    } else {
        advice_from(p, items.drop_first())
    }
}

/// The numbered advice: urgent errors, Benford warnings, related parties,
/// duplicates, and the regular audit, numbered from 1 in that order.
pub open spec fn advice_text(errors: nat, benford: bool, related: bool, duplicate: bool) -> Seq<char> {
    advice_from(
        1,
        seq![
            (errors > 0, urgent_body(errors)),
            (benford, benford_body()),
            (related, related_body()),
            (duplicate, duplicate_body()),
        ],
    )
}

pub open spec fn compliance_text(errors: nat) -> Seq<char> {
    if errors > 0 {
        "⚠️ 当前账务存在合规风险。借贷不平衡违反了《企业会计准则——基本准则》中复式记账的基本要求，建议在报表编制前完成纠正。\n\n"@
    } else {
        "✅ 未发现明显的会计准则违规问题，但建议对警告事项进行进一步核实。\n\n"@
    }
}

pub open spec fn plan_text() -> Seq<char> {
    "## 5. 后续审计计划\n\n"@ + "1. 对本次发现的错误和高风险警告进行逐项整改确认\n"@ + "2. 扩大抽样范围，对关联方交易进行专项审计\n"@
        + "3. 下一审计周期重点关注大额交易和期末集中交易\n"@ + "4. 完善内部控制制度，减少人为错误\n\n"@
        + "---\n*本报告由 AuditLens 智能审计系统自动生成*\n"@
}

/// The opening of the analysis: the risk grade and the counts.
pub open spec fn header_text(total: nat, n: nat, errors: nat, warnings: nat) -> Seq<char> {
    "# AuditLens 智能审计分析报告\n\n## 1. 整体风险评估\n\n"@ + grade_icon(errors, warnings) + " **风险等级："@
        + grade_of(errors, warnings) + "**\n\n本次审计共检查 "@ + nat_text(total) + " 笔交易，发现 "@ + nat_text(n)
        + " 条问题（"@ + nat_text(errors) + " 个错误、"@ + nat_text(warnings) + " 个警告）。\n\n"@
}

/// The summary lines of every rule, in order of first appearance.
pub open spec fn rule_section(fs: Seq<FindingView>) -> Seq<char> {
    let groups = group_spec(rule_keys(fs));
    rule_lines(fs, groups, groups.len() as int)
}

/// The Markdown analysis of a report.
pub open spec fn local_analysis_text(
    total: nat,
    debit: Parts,
    credit: Parts,
    diff: Parts,
    fs: Seq<FindingView>,
) -> Seq<char> {
    let errors = count_severity(fs, Severity::Error);
    let warnings = count_severity(fs, Severity::Warning);
    header_text(total, fs.len(), errors, warnings) + balance_note(debit, credit, diff) + "## 2. 重点问题分析\n\n"@
        + rule_section(fs) + "\n## 3. 具体审计建议\n\n"@ + advice_text(
        errors,
        has_benford_warning(fs),
        has_rule_word(fs, "关联交易"@),
        has_rule_word(fs, "重复"@),
    ) + "## 4. 合规性意见\n\n"@ + compliance_text(errors) + plan_text()
}

fn rule_keys_exec(findings: &Vec<AuditFinding>) -> (r: Vec<RowKey>)
    ensures
        keys_view(r@) == rule_keys(findings_view(findings@)),
{
    let mut keys: Vec<RowKey> = Vec::new();
    let mut i: usize = 0;
    while i < findings.len()
        invariant
            i <= findings@.len(),
            keys_view(keys@) =~= rule_keys(findings_view(findings@)).subrange(0, i as int),
        decreases findings.len() - i,
    {
        let mut words: Vec<String> = Vec::new();
        words.push(findings[i].rule_name.clone());
        let k = RowKey { words, numbers: Vec::new() };
        proof {
            assert(k.key_view().0 =~= rule_key(findings@[i as int]@).0);
            assert(k.key_view().1 =~= rule_key(findings@[i as int]@).1);
        }
        let ghost old_keys = keys@;
        keys.push(k);
        proof {
            assert(keys_view(keys@) =~= keys_view(old_keys).push(k.key_view()));
        }
        i = i + 1;
    }
    keys
}

/// Whether some finding's rule name contains `word`.
fn any_rule_with(findings: &Vec<AuditFinding>, word: &str) -> (r: bool)
    ensures
        r == has_rule_word(findings_view(findings@), word@),
{
    let ghost fs = findings_view(findings@);
    let w = chars_of(word);
    let mut i: usize = 0;
    while i < findings.len()
        invariant
            fs == findings_view(findings@),
            w@ == word@,
            i <= findings@.len(),
            forall|k: int| 0 <= k < i ==> !contains(#[trigger] fs[k].rule_name, word@),
        decreases findings.len() - i,
    {
        let f = &findings[i];
        assert(fs[i as int] == f@);
        let name = chars_of(f.rule_name.as_str());
        if contains_exec(&name, &w) {
            assert(contains(fs[i as int].rule_name, word@));
            return true;
        }
        i = i + 1;
    }
    false
}

/// Whether some finding of a Benford rule is a warning.
fn any_benford_warning(findings: &Vec<AuditFinding>) -> (r: bool)
    ensures
        r == has_benford_warning(findings_view(findings@)),
{
    let ghost fs = findings_view(findings@);
    let w = chars_of("Benford");
    let mut i: usize = 0;
    while i < findings.len()
        invariant
            fs == findings_view(findings@),
            w@ == "Benford"@,
            i <= findings@.len(),
            forall|k: int|
                0 <= k < i ==> !(contains(#[trigger] fs[k].rule_name, "Benford"@) && fs[k].severity
                    == Severity::Warning),
        decreases findings.len() - i,
    {
        let f = &findings[i];
        assert(fs[i as int] == f@);
        let name = chars_of(f.rule_name.as_str());
        if contains_exec(&name, &w) && f.severity == Severity::Warning {
            assert(contains(fs[i as int].rule_name, "Benford"@));
            return true;
        }
        i = i + 1;
    }
    false
}

fn push_note(s: &mut String, debit: &crate::money::Money, credit: &crate::money::Money, diff: &crate::money::Money)
    ensures
        final(s)@ == old(s)@ + balance_note(debit.parts(), credit.parts(), diff.parts()),
{
    if diff.mantissa() != 0 {
        push_str(s, "⚠️ **借贷总额不平衡**：借方总额 ");
        let a = debit.to_text();
        push_str(s, a.as_str());
        push_str(s, " 与贷方总额 ");
        let b = credit.to_text();
        push_str(s, b.as_str());
        push_str(s, " 存在差额 ");
        let c = diff.abs().to_text();
        push_str(s, c.as_str());
        push_str(s, "，需重点核查。\n\n");
    } else {
        push_str(s, "✅ 借贷总额平衡，整体账务框架正常。\n\n");
    }
}

fn push_header(s: &mut String, total: usize, n: usize, errors: usize, warnings: usize)
    ensures
        final(s)@ == old(s)@ + header_text(total as nat, n as nat, errors as nat, warnings as nat),
{
    let ghost start = s@;
    push_str(s, "# AuditLens 智能审计分析报告\n\n## 1. 整体风险评估\n\n");
    if errors >= 3 {
        push_str(s, "🔴");
    } else if errors >= 1 {
        push_str(s, "🟠");
    } else if warnings >= 5 {
        push_str(s, "🟡");
    } else {
        push_str(s, "🟢");
    }
    push_str(s, " **风险等级：");
    if errors >= 3 {
        push_str(s, "极高");
    } else if errors >= 1 {
        push_str(s, "高");
    } else if warnings >= 5 {
        push_str(s, "中");
    } else {
        push_str(s, "低");
    }
    push_str(s, "**\n\n本次审计共检查 ");
    push_count(s, total);
    push_str(s, " 笔交易，发现 ");
    push_count(s, n);
    push_str(s, " 条问题（");
    push_count(s, errors);
    push_str(s, " 个错误、");
    push_count(s, warnings);
    push_str(s, " 个警告）。\n\n");
    assert(s@ =~= start + header_text(total as nat, n as nat, errors as nat, warnings as nat));
}

fn push_rule_section(s: &mut String, findings: &Vec<AuditFinding>)
    ensures
        final(s)@ == old(s)@ + rule_section(findings_view(findings@)),
{
    let ghost fs = findings_view(findings@);
    let keys = rule_keys_exec(findings);
    proof {
        lemma_group_spec_wf(rule_keys(fs));
    }
    let groups = group_rows(&keys);
    let ghost gs = groups_view(groups@);
    let ghost head = s@;
    let mut g: usize = 0;
    while g < groups.len()
        invariant
            fs == findings_view(findings@),
            gs == groups_view(groups@),
            gs == group_spec(rule_keys(fs)),
            groups_wf(gs, fs.len() as int),
            g <= groups@.len(),
            s@ == head + rule_lines(fs, gs, g as int),
        decreases groups.len() - g,
    {
        let group = &groups[g];
        assert(gs[g as int] == group@);
        let e = count_in_group(findings, group, Severity::Error);
        let w = count_in_group(findings, group, Severity::Warning);
        let i = count_in_group(findings, group, Severity::Info);
        let first = &findings[group[0]];
        assert(fs[group@[0] as int] == first@);
        let ghost before = s@;
        push_str(s, "- ");
        if e > 0 {
            push_str(s, "🔴");
        } else if w > 0 {
            push_str(s, "🟡");
        } else {
            push_str(s, "🔵");
        }
        push_str(s, " **");
        push_str(s, first.rule_name.as_str());
        push_str(s, "**：");
        push_count(s, e);
        push_str(s, " 个错误 / ");
        push_count(s, w);
        push_str(s, " 个警告 / ");
        push_count(s, i);
        push_str(s, " 个信息\n");
        assert(s@ =~= before + rule_line(first.rule_name@, e as nat, w as nat, i as nat));
        g = g + 1;
    }
}

fn push_item(s: &mut String, p: usize, body: &str)
    ensures
        final(s)@ == old(s)@ + advice_item(p as nat, body@),
{
    let ghost start = s@;
    push_str(s, "**");
    push_count(s, p);
    push_str(s, body);
    assert(s@ =~= start + advice_item(p as nat, body@));
}

proof fn lemma_advice_step(start: Seq<char>, p: nat, items: Seq<(bool, Seq<char>)>)
    requires
        items.len() > 0,
    ensures
        items[0].0 ==> start + advice_from(p, items) == (start + advice_item(p, items[0].1)) + advice_from(
            p + 1,
            items.drop_first(),
        ),
        !items[0].0 ==> start + advice_from(p, items) == start + advice_from(p, items.drop_first()),
{
    if items[0].0 {
        assert(start + advice_from(p, items) =~= (start + advice_item(p, items[0].1)) + advice_from(
            p + 1,
            items.drop_first(),
        ));
    }
}

fn push_advice(s: &mut String, errors: usize, benford: bool, related: bool, duplicate: bool)
    ensures
        final(s)@ == old(s)@ + advice_text(errors as nat, benford, related, duplicate),
{
    let ghost start = s@;
    let ghost items = seq![
        (errors > 0, urgent_body(errors as nat)),
        (benford, benford_body()),
        (related, related_body()),
        (duplicate, duplicate_body()),
    ];
    let ghost t1 = items.drop_first();
    let ghost t2 = t1.drop_first();
    let ghost t3 = t2.drop_first();
    let ghost t4 = t3.drop_first();
    assert(t4.len() == 0);
    proof {
        lemma_advice_step(start, 1, items);
    }
    let mut priority: usize = 1;
    if errors > 0 {
        let mut body = String::from_str(". [紧急]** 立即核查所有标记为「错误」的 ");
        push_count(&mut body, errors);
        push_str(&mut body, " 条记录，尤其关注借贷不平衡的凭证。\n\n");
        assert(body@ =~= urgent_body(errors as nat));
        push_item(s, priority, body.as_str());
        priority = priority + 1;
    }
    assert(start + advice_from(1, items) == s@ + advice_from(priority as nat, t1));
    proof {
        lemma_advice_step(s@, priority as nat, t1);
    }
    if benford {
        push_item(s, priority, ". [重要]** Benford 定律检测发现异常，建议对金额首位数字分布异常的科目进行抽样审查。\n\n");
        priority = priority + 1;
    }
    assert(start + advice_from(1, items) == s@ + advice_from(priority as nat, t2));
    proof {
        lemma_advice_step(s@, priority as nat, t2);
    }
    if related {
        push_item(s, priority, ". [重要]** 发现关联交易迹象，建议核实相关方关系并检查交易定价的公允性。\n\n");
        priority = priority + 1;
    }
    assert(start + advice_from(1, items) == s@ + advice_from(priority as nat, t3));
    proof {
        lemma_advice_step(s@, priority as nat, t3);
    }
    if duplicate {
        push_item(s, priority, ". [建议]** 存在疑似重复交易，请与业务部门确认是否为正常业务需要。\n\n");
        priority = priority + 1;
    }
    assert(start + advice_from(1, items) == s@ + advice_from(priority as nat, t4));
    push_item(s, priority, ". [常规]** 建议定期（每月/每季）使用 AuditLens 进行自动化审计，持续监控账务质量。\n\n");
}

fn push_closing(s: &mut String, errors: usize)
    ensures
        final(s)@ == old(s)@ + "## 4. 合规性意见\n\n"@ + compliance_text(errors as nat) + plan_text(),
{
    let ghost start = s@;
    push_str(s, "## 4. 合规性意见\n\n");
    if errors > 0 {
        push_str(s, "⚠️ 当前账务存在合规风险。借贷不平衡违反了《企业会计准则——基本准则》中复式记账的基本要求，建议在报表编制前完成纠正。\n\n");
    } else {
        push_str(s, "✅ 未发现明显的会计准则违规问题，但建议对警告事项进行进一步核实。\n\n");
    }
    let ghost mid = s@;
    push_str(s, "## 5. 后续审计计划\n\n");
    push_str(s, "1. 对本次发现的错误和高风险警告进行逐项整改确认\n");
    push_str(s, "2. 扩大抽样范围，对关联方交易进行专项审计\n");
    push_str(s, "3. 下一审计周期重点关注大额交易和期末集中交易\n");
    push_str(s, "4. 完善内部控制制度，减少人为错误\n\n");
    push_str(s, "---\n*本报告由 AuditLens 智能审计系统自动生成*\n");
    assert(s@ =~= mid + plan_text());
    assert(s@ =~= start + "## 4. 合规性意见\n\n"@ + compliance_text(errors as nat) + plan_text());
}

/// The Markdown analysis of a report, made by fixed rules: the risk grade,
/// whether the totals balance, each rule's counts in order of first
/// appearance, numbered advice, a compliance note, and the follow-up plan.
pub fn generate_local_analysis(report: &AuditReport) -> (r: String)
    requires
        difference_of(report.total_debit, report.total_credit) is Some,
    ensures
        r@ == local_analysis_text(
            report.total_transactions as nat,
            report.total_debit.parts(),
            report.total_credit.parts(),
            parts_of(difference_of(report.total_debit, report.total_credit).unwrap()),
            findings_view(report.findings@),
        ),
        report.total_debit.sub_fits(report.total_credit) ==> r@ == local_analysis_text(
            report.total_transactions as nat,
            report.total_debit.parts(),
            report.total_credit.parts(),
            sub_parts(report.total_debit.parts(), report.total_credit.parts()),
            findings_view(report.findings@),
        ),
{
    let ghost fs = findings_view(report.findings@);
    let errors = report.error_count();
    let warnings = report.warning_count();
    let mut s = String::new();
    push_header(&mut s, report.total_transactions, report.findings.len(), errors, warnings);
    let diff = report.total_debit.checked_sub(&report.total_credit).unwrap();
    push_note(&mut s, &report.total_debit, &report.total_credit, &diff);
    push_str(&mut s, "## 2. 重点问题分析\n\n");
    push_rule_section(&mut s, &report.findings);
    push_str(&mut s, "\n## 3. 具体审计建议\n\n");
    let benford = any_benford_warning(&report.findings);
    let related = any_rule_with(&report.findings, "关联交易");
    let duplicate = any_rule_with(&report.findings, "重复");
    push_advice(&mut s, errors, benford, related, duplicate);
    push_closing(&mut s, errors);
    assert(s@ =~= local_analysis_text(
        report.total_transactions as nat,
        report.total_debit.parts(),
        report.total_credit.parts(),
        diff.parts(),
        fs,
    ));
    s
}

/// The written analysis of a report, where its debit total minus its credit
/// total does not overflow; `None` where it does.
pub fn local_analysis_checked(report: &AuditReport) -> (r: Option<String>)
    ensures
        r is Some <==> difference_of(report.total_debit, report.total_credit) is Some,
        r matches Some(t) ==> t@ == local_analysis_text(
            report.total_transactions as nat,
            report.total_debit.parts(),
            report.total_credit.parts(),
            parts_of(difference_of(report.total_debit, report.total_credit).unwrap()),
            findings_view(report.findings@),
        ),
{
    if report.total_debit.checked_sub(&report.total_credit).is_some() {
        Some(generate_local_analysis(report))
    } else {
        None
    }
}

/// What an analysis of a report takes: a local answer, made without any
/// request, or a prompt to send to the chat service.
pub enum AnalysisStep {
    /// The local analysis (`local_analysis_checked`): `None` where the
    /// difference of the totals overflows.
    Local(Option<String>),
    /// The prompt for the chat service.
    Remote(String),
}

/// The first step of an analysis: with no key configured the local analysis,
/// and no request at all; with a key, the prompt to send.
pub fn plan_analysis(report: &AuditReport, config: &AiConfig) -> (r: AnalysisStep)
    ensures
        r is Local <==> config.api_key@.len() == 0,
        r matches AnalysisStep::Local(t) ==> {
            &&& t is Some <==> difference_of(report.total_debit, report.total_credit) is Some
            &&& t matches Some(text) ==> text@ == local_analysis_text(
                report.total_transactions as nat,
                report.total_debit.parts(),
                report.total_credit.parts(),
                parts_of(difference_of(report.total_debit, report.total_credit).unwrap()),
                findings_view(report.findings@),
            )
        },
        r matches AnalysisStep::Remote(p) ==> p@ == audit_prompt(
            report.audit_time@,
            report.total_transactions as nat,
            report.total_debit.text(),
            report.total_credit.text(),
            findings_view(report.findings@),
        ),
{
    if uses_local_analysis(config) {
        AnalysisStep::Local(local_analysis_checked(report))
    } else {
        AnalysisStep::Remote(build_audit_prompt(report))
    }
}

/// Mantissa and scale as decimal parts.
pub open spec fn parts_of(p: (int, int)) -> Parts {
    (p.0, p.1 as nat)
}

} // verus!
