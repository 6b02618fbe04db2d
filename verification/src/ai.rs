//! Rule-based analysis of a report: a risk level, the problem areas with
//! their risk and advice, and recommendations; and the prompt and settings
//! for asking a language model for the same.
use crate::group::{group_rows, group_spec, groups_view, groups_wf, keys_view, lemma_group_spec_wf, KeyView, RowKey};
use crate::models::{count_severity, findings_view, AuditFinding, AuditReport, FindingView, Severity};
use crate::money::nat_text;
use crate::text::{chars_of, contains, contains_exec, nat_to_text, occurs_at, push_str, str_eq, string_of};
use vstd::prelude::*;

verus! {

/// The settings for an analysis service.
#[derive(Clone, Debug)]
pub struct AiConfig {
    /// "openai", "deepseek", "qwen", or "local".
    pub provider: String,
    pub api_key: String,
    /// The service's address; empty for the provider's default.
    pub api_url: String,
    /// The model; empty for the provider's default.
    pub model: String,
}

impl Default for AiConfig {
    /// The local provider with no key, address or model.
    fn default() -> (r: AiConfig)
        ensures
            r.provider@ == "local"@,
            r.api_key@.len() == 0,
            r.api_url@.len() == 0,
            r.model@.len() == 0,
    {
        AiConfig {
            provider: String::from_str("local"),
            api_key: String::new(),
            api_url: String::new(),
            model: String::new(),
        }
    }
}

/// One problem area of an analysis.
#[derive(Clone, Debug)]
pub struct IssueDetail {
    pub category: String,
    pub description: String,
    pub risk: String,
    pub suggestion: String,
}

pub struct IssueView {
    pub category: Seq<char>,
    pub description: Seq<char>,
    pub risk: Seq<char>,
    pub suggestion: Seq<char>,
}

impl View for IssueDetail {
    type V = IssueView;

    open spec fn view(&self) -> IssueView {
        IssueView {
            category: self.category@,
            description: self.description@,
            risk: self.risk@,
            suggestion: self.suggestion@,
        }
    }
}

/// An analysis of a report.
#[derive(Clone, Debug)]
pub struct AiAnalysis {
    pub risk_level: String,
    pub summary: String,
    pub issue_analysis: Vec<IssueDetail>,
    pub recommendations: Vec<String>,
}

pub open spec fn issues_view(v: Seq<IssueDetail>) -> Seq<IssueView> {
    v.map_values(|i: IssueDetail| i@)
}

pub open spec fn texts_view(v: Seq<String>) -> Seq<Seq<char>> {
    v.map_values(|s: String| s@)
}

/// The category of a rule name: the first of 平衡, 阈值, 重复, 日期, 整数,
/// Benford, 关联, Z-Score that it contains, or the name itself.
pub open spec fn category_of(name: Seq<char>) -> Seq<char> {
    if contains(name, "平衡"@) {
        "借贷平衡"@
    } else if contains(name, "阈值"@) {
        "金额阈值"@
    } else if contains(name, "重复"@) {
        "重复交易"@
    } else if contains(name, "日期"@) {
        "日期连续"@
    } else if contains(name, "整数"@) {
        "整数金额"@
    } else if contains(name, "Benford"@) {
        "Benford"@
    } else if contains(name, "关联"@) {
        "关联交易"@
    } else if contains(name, "Z-Score"@) {
        "Z-Score"@
    } else {
        name
    }
}

/// A pattern whose first character does not occur in `s` does not occur
/// in `s`.
proof fn lemma_first_char_absent(s: Seq<char>, pat: Seq<char>)
    requires
        pat.len() > 0,
        forall|j: int| 0 <= j < s.len() ==> s[j] != pat[0],
    ensures
        !contains(s, pat),
{
    assert forall|i: int| !occurs_at(s, pat, i) by {
        if occurs_at(s, pat, i) {
            assert(s.subrange(i, i + pat.len())[0] == s[i]);
        }
    }
}

/// Each category is its own category.
proof fn lemma_categories_fixed()
    ensures
        category_of("借贷平衡"@) == "借贷平衡"@,
        category_of("金额阈值"@) == "金额阈值"@,
        category_of("重复交易"@) == "重复交易"@,
        category_of("日期连续"@) == "日期连续"@,
        category_of("整数金额"@) == "整数金额"@,
        category_of("Benford"@) == "Benford"@,
        category_of("关联交易"@) == "关联交易"@,
        category_of("Z-Score"@) == "Z-Score"@,
{
    reveal_strlit("借贷平衡");
    reveal_strlit("金额阈值");
    reveal_strlit("重复交易");
    reveal_strlit("日期连续");
    reveal_strlit("整数金额");
    reveal_strlit("Benford");
    reveal_strlit("关联交易");
    reveal_strlit("Z-Score");
    reveal_strlit("平衡");
    reveal_strlit("阈值");
    reveal_strlit("重复");
    reveal_strlit("日期");
    reveal_strlit("整数");
    reveal_strlit("关联");
    assert("借贷平衡"@.subrange(2, 4) =~= "平衡"@);
    assert("金额阈值"@.subrange(2, 4) =~= "阈值"@);
    assert(occurs_at("借贷平衡"@, "平衡"@, 2));
    assert(occurs_at("金额阈值"@, "阈值"@, 2));
    assert("重复交易"@.subrange(0, 2) =~= "重复"@);
    assert(occurs_at("重复交易"@, "重复"@, 0));
    assert("日期连续"@.subrange(0, 2) =~= "日期"@);
    assert(occurs_at("日期连续"@, "日期"@, 0));
    assert("整数金额"@.subrange(0, 2) =~= "整数"@);
    assert(occurs_at("整数金额"@, "整数"@, 0));
    assert("Benford"@.subrange(0, 7) =~= "Benford"@);
    assert(occurs_at("Benford"@, "Benford"@, 0));
    assert("关联交易"@.subrange(0, 2) =~= "关联"@);
    assert(occurs_at("关联交易"@, "关联"@, 0));
    assert("Z-Score"@.subrange(0, 7) =~= "Z-Score"@);
    assert(occurs_at("Z-Score"@, "Z-Score"@, 0));
    let earlier = seq!["平衡"@, "阈值"@, "重复"@, "日期"@, "整数"@, "Benford"@, "关联"@];
    let cats = seq!["金额阈值"@, "重复交易"@, "日期连续"@, "整数金额"@, "Benford"@, "关联交易"@, "Z-Score"@];
    assert forall|c: int, k: int| 0 <= k <= c < 7 implies !contains(#[trigger] cats[c], #[trigger] earlier[k]) by {
        lemma_first_char_absent(cats[c], earlier[k]);
    }
    assert(!contains(cats[0], earlier[0]));
    assert(!contains(cats[1], earlier[0]) && !contains(cats[1], earlier[1]));
    assert(!contains(cats[2], earlier[0]) && !contains(cats[2], earlier[1]) && !contains(cats[2], earlier[2]));
    assert(!contains(cats[3], earlier[0]) && !contains(cats[3], earlier[1]) && !contains(cats[3], earlier[2])
        && !contains(cats[3], earlier[3]));
    assert(!contains(cats[4], earlier[0]) && !contains(cats[4], earlier[1]) && !contains(cats[4], earlier[2])
        && !contains(cats[4], earlier[3]) && !contains(cats[4], earlier[4]));
    assert(!contains(cats[5], earlier[0]) && !contains(cats[5], earlier[1]) && !contains(cats[5], earlier[2])
        && !contains(cats[5], earlier[3]) && !contains(cats[5], earlier[4]) && !contains(cats[5], earlier[5]));
    assert(!contains(cats[6], earlier[0]) && !contains(cats[6], earlier[1]) && !contains(cats[6], earlier[2])
        && !contains(cats[6], earlier[3]) && !contains(cats[6], earlier[4]) && !contains(cats[6], earlier[5])
        && !contains(cats[6], earlier[6]));
}

/// Simplifying a rule name twice gives what simplifying it once gives.
pub proof fn law_category_idempotent(name: Seq<char>)
    ensures
        category_of(category_of(name)) == category_of(name),
{
    lemma_categories_fixed();
}

fn contains_lit(s: &Vec<char>, pat: &str) -> (r: bool)
    ensures
        r == contains(s@, pat@),
{
    let p = chars_of(pat);
    contains_exec(s, &p)
}

/// The category of a rule name.
pub fn simplify_rule_name(name: &str) -> (r: String)
    ensures
        r@ == category_of(name@),
{
    let s = chars_of(name);
    if contains_lit(&s, "平衡") {
        String::from_str("借贷平衡")
    } else if contains_lit(&s, "阈值") {
        String::from_str("金额阈值")
    } else if contains_lit(&s, "重复") {
        String::from_str("重复交易")
    } else if contains_lit(&s, "日期") {
        String::from_str("日期连续")
    } else if contains_lit(&s, "整数") {
        String::from_str("整数金额")
    } else if contains_lit(&s, "Benford") {
        String::from_str("Benford")
    } else if contains_lit(&s, "关联") {
        String::from_str("关联交易")
    } else if contains_lit(&s, "Z-Score") {
        String::from_str("Z-Score")
    } else {
        String::from_str(name)
    }
}

/// The risk level: high for 3 or more errors, medium for an error or 5 or
/// more warnings, else low.
pub open spec fn risk_level_of(errors: nat, warnings: nat) -> Seq<char> {
    if errors >= 3 {
        "高"@
    } else if errors >= 1 || warnings >= 5 {
        "中"@
    } else {
        "低"@
    }
}

/// The risk and advice for a category.
pub open spec fn category_advice(cat: Seq<char>) -> (Seq<char>, Seq<char>) {
    if cat == "借贷平衡"@ {
        ("高"@, "立即核查不平衡凭证，确认是否存在记账错误或资金挪用"@)
    } else if cat == "金额阈值"@ {
        ("中"@, "对大额交易逐笔核实，确认业务真实性和审批流程"@)
    } else if cat == "重复交易"@ {
        ("中"@, "核查重复交易是否为误操作，是否需要冲红处理"@)
    } else if cat == "日期连续"@ {
        ("低"@, "确认日期间断是否正常（如节假日），排除漏记可能"@)
    } else if cat == "整数金额"@ {
        ("中"@, "高频整数金额需关注是否存在虚构交易或预算凑数"@)
    } else if cat == "Benford"@ {
        ("中"@, "首位数字分布异常可能暗示人为数据篡改，建议抽样核查"@)
    } else if cat == "关联交易"@ {
        ("高"@, "关联方交易需确认定价公允性和信息披露合规性"@)
    } else if cat == "Z-Score"@ {
        ("中"@, "统计异常交易需逐笔核实业务背景"@)
    } else {
        ("低"@, "建议人工复核确认"@)
    }
}

pub open spec fn category_key(f: FindingView) -> KeyView {
    (seq![category_of(f.rule_name)], Seq::empty())
}

pub open spec fn category_keys(fs: Seq<FindingView>) -> Seq<KeyView> {
    fs.map_values(|f: FindingView| category_key(f))
}

/// The findings a group lists.
pub open spec fn group_findings(fs: Seq<FindingView>, group: Seq<usize>) -> Seq<FindingView> {
    group.map_values(|j: usize| fs[j as int])
}

pub open spec fn issue_of(cat: Seq<char>, errors: nat, warnings: nat) -> IssueView {
    IssueView {
        category: cat,
        description: "发现 "@ + nat_text(errors) + " 项错误、"@ + nat_text(warnings) + " 项警告"@,
        risk: category_advice(cat).0,
        suggestion: category_advice(cat).1,
    }
}

/// The issues of the categories `0..g` that have an error or a warning.
pub open spec fn category_issues(fs: Seq<FindingView>, groups: Seq<Seq<usize>>, g: int) -> Seq<IssueView>
    decreases g,
{
    if g <= 0 {
        Seq::empty()
    } else {
        let prev = category_issues(fs, groups, g - 1);
        let members = group_findings(fs, groups[g - 1]);
        let e = count_severity(members, Severity::Error);
        let w = count_severity(members, Severity::Warning);
        if e > 0 || w > 0 {
            prev.push(issue_of(category_of(fs[groups[g - 1][0] as int].rule_name), e, w))
        } else {
            prev
        }
    }
}

/// The rank of a risk: high first, then medium, then the rest.
pub open spec fn risk_rank(risk: Seq<char>) -> int {
    if risk == "高"@ {
        0
    } else if risk == "中"@ {
        1
    } else {
        2
    }
}

/// The issues stably sorted by risk rank.
pub open spec fn sort_issues(issues: Seq<IssueView>) -> Seq<IssueView> {
    issues.filter(|i: IssueView| risk_rank(i.risk) == 0) + issues.filter(
        |i: IssueView| risk_rank(i.risk) == 1,
    ) + issues.filter(|i: IssueView| risk_rank(i.risk) == 2)
}

/// Sorting the issues puts every high-risk issue before every medium one,
/// and every medium one before the rest.
pub proof fn law_issues_high_risk_first(issues: Seq<IssueView>)
    ensures
        forall|a: int, b: int|
            0 <= a < b < sort_issues(issues).len() ==> risk_rank(#[trigger] sort_issues(issues)[a].risk) <= risk_rank(
                #[trigger] sort_issues(issues)[b].risk,
            ),
{
    let p0 = |i: IssueView| risk_rank(i.risk) == 0;
    let p1 = |i: IssueView| risk_rank(i.risk) == 1;
    let p2 = |i: IssueView| risk_rank(i.risk) == 2;
    let f0 = issues.filter(p0);
    let f1 = issues.filter(p1);
    let f2 = issues.filter(p2);
    let r = sort_issues(issues);
    assert(r == f0 + f1 + f2);
    assert forall|k: int| 0 <= k < r.len() implies #[trigger] risk_rank(r[k].risk) == if k < f0.len() {
        0int
    } else if k < f0.len() + f1.len() {
        1int
    } else {
        2int
    } by {
        if k < f0.len() {
            issues.lemma_filter_pred(p0, k);
            assert(r[k] == f0[k]);
        } else if k < f0.len() + f1.len() {
            issues.lemma_filter_pred(p1, k - f0.len());
            assert(r[k] == f1[k - f0.len()]);
        } else {
            issues.lemma_filter_pred(p2, k - f0.len() - f1.len());
            assert(r[k] == f2[k - f0.len() - f1.len()]);
        }
    }
    assert forall|a: int, b: int| 0 <= a < b < r.len() implies risk_rank(#[trigger] r[a].risk) <= risk_rank(
        #[trigger] r[b].risk,
    ) by {
        assert(risk_rank(r[a].risk) == if a < f0.len() {
            0int
        } else if a < f0.len() + f1.len() {
            1int
        } else {
            2int
        });
        assert(risk_rank(r[b].risk) == if b < f0.len() {
            0int
        } else if b < f0.len() + f1.len() {
            1int
        } else {
            2int
        });
    }
}

/// The problem areas of a report, one per category of rule with an error or
/// a warning, high risk first.
pub open spec fn analysis_issues(fs: Seq<FindingView>) -> Seq<IssueView> {
    let groups = group_spec(category_keys(fs));
    sort_issues(category_issues(fs, groups, groups.len() as int))
}

/// Whether some finding's rule falls in the category.
pub open spec fn has_category(fs: Seq<FindingView>, cat: Seq<char>) -> bool {
    exists|i: int| 0 <= i < fs.len() && category_of(#[trigger] fs[i].rule_name) == cat
}

pub open spec fn opt_seq(c: bool, s: Seq<char>) -> Seq<Seq<char>> {
    if c {
        seq![s]
    } else {
        Seq::empty()
    }
}

/// The recommendations for a report.
pub open spec fn analysis_recommendations(fs: Seq<FindingView>) -> Seq<Seq<char>> {
    let errors = count_severity(fs, Severity::Error);
    let warnings = count_severity(fs, Severity::Warning);
    opt_seq(errors > 0, "优先处理所有标记为「错误」的审计发现，这些问题可能涉及合规风险"@) + opt_seq(
        has_category(fs, "借贷平衡"@),
        "对借贷不平衡的凭证进行逐笔核对，联系相关业务部门确认"@,
    ) + opt_seq(
        has_category(fs, "关联交易"@),
        "审查关联方交易的定价依据和审批流程，确保符合《企业会计准则》要求"@,
    ) + opt_seq(
        has_category(fs, "Benford"@),
        "对 Benford 定律检测异常的科目进行抽样审计，重点关注金额集中区间"@,
    ) + opt_seq(warnings > 5, "警告数量较多，建议增加审计抽样比例，扩大核查范围"@) + seq![
        "建议定期（至少每季度）运行审计检查，建立持续监控机制"@,
    ]
}

/// The closing sentence of the summary.
pub open spec fn summary_tail(errors: nat, warnings: nat) -> Seq<char> {
    if errors > 0 {
        "建议立即采取纠正措施。"@
    } else if warnings > 3 {
        "建议尽快复核相关事项。"@
    } else {
        "账务整体状况良好。"@
    }
}

pub open spec fn analysis_summary(
    total: nat,
    debit: Seq<char>,
    credit: Seq<char>,
    fs: Seq<FindingView>,
) -> Seq<char> {
    let errors = count_severity(fs, Severity::Error);
    let warnings = count_severity(fs, Severity::Warning);
    let infos = count_severity(fs, Severity::Info);
    "本次审计共检查 "@ + nat_text(total) + " 笔交易（借方 "@ + debit + "，贷方 "@ + credit + "），发现 "@
        + nat_text(fs.len()) + " 项问题。其中错误 "@ + nat_text(errors) + " 项、警告 "@ + nat_text(
        warnings,
    ) + " 项、信息 "@ + nat_text(infos) + " 项。整体风险等级评估为「"@ + risk_level_of(errors, warnings)
        + "」。"@ + summary_tail(errors, warnings)
}

pub fn push_count(s: &mut String, n: usize)
    ensures
        final(s)@ == old(s)@ + nat_text(n as nat),
{
    let t = nat_to_text(n as u64);
    push_str(s, t.as_str());
}

fn risk_level_exec(errors: usize, warnings: usize) -> (r: String)
    ensures
        r@ == risk_level_of(errors as nat, warnings as nat),
{
    if errors >= 3 {
        String::from_str("高")
    } else if errors >= 1 || warnings >= 5 {
        String::from_str("中")
    } else {
        String::from_str("低")
    }
}

fn advice_exec(cat: &String) -> (r: (String, String))
    ensures
        r.0@ == category_advice(cat@).0,
        r.1@ == category_advice(cat@).1,
{
    let c = cat.as_str();
    if str_eq(c, "借贷平衡") {
        (String::from_str("高"), String::from_str("立即核查不平衡凭证，确认是否存在记账错误或资金挪用"))
    } else if str_eq(c, "金额阈值") {
        (String::from_str("中"), String::from_str("对大额交易逐笔核实，确认业务真实性和审批流程"))
    } else if str_eq(c, "重复交易") {
        (String::from_str("中"), String::from_str("核查重复交易是否为误操作，是否需要冲红处理"))
    } else if str_eq(c, "日期连续") {
        (String::from_str("低"), String::from_str("确认日期间断是否正常（如节假日），排除漏记可能"))
    } else if str_eq(c, "整数金额") {
        (String::from_str("中"), String::from_str("高频整数金额需关注是否存在虚构交易或预算凑数"))
    } else if str_eq(c, "Benford") {
        (String::from_str("中"), String::from_str("首位数字分布异常可能暗示人为数据篡改，建议抽样核查"))
    } else if str_eq(c, "关联交易") {
        (String::from_str("高"), String::from_str("关联方交易需确认定价公允性和信息披露合规性"))
    } else if str_eq(c, "Z-Score") {
        (String::from_str("中"), String::from_str("统计异常交易需逐笔核实业务背景"))
    } else {
        (String::from_str("低"), String::from_str("建议人工复核确认"))
    }
}

fn rank_exec(risk: &String) -> (r: u8)
    ensures
        r as int == risk_rank(risk@),
{
    if str_eq(risk.as_str(), "高") {
        0
    } else if str_eq(risk.as_str(), "中") {
        1
    } else {
        2
    }
}

/// The issues of the given rank, in order.
fn issues_of_rank(issues: &Vec<IssueDetail>, rank: u8) -> (r: Vec<IssueDetail>)
    ensures
        issues_view(r@) == issues_view(issues@).filter(|i: IssueView| risk_rank(i.risk) == rank as int),
{
    let ghost all = issues_view(issues@);
    let mut r: Vec<IssueDetail> = Vec::new();
    let mut i: usize = 0;
    while i < issues.len()
        invariant
            all == issues_view(issues@),
            i <= issues@.len(),
            issues_view(r@) == all.subrange(0, i as int).filter(|x: IssueView| risk_rank(x.risk) == rank as int),
        decreases issues.len() - i,
    {
        proof {
            assert(all.subrange(0, i + 1).drop_last() =~= all.subrange(0, i as int));
            all.subrange(0, i as int).lemma_filter_push(all[i as int], |x: IssueView| risk_rank(x.risk) == rank as int);
            assert(all.subrange(0, i as int).push(all[i as int]) =~= all.subrange(0, i + 1));
        }
        let it = &issues[i];
        if rank_exec(&it.risk) == rank {
            let ghost old_r = issues_view(r@);
            let copy = IssueDetail {
                category: it.category.clone(),
                description: it.description.clone(),
                risk: it.risk.clone(),
                suggestion: it.suggestion.clone(),
            };
            r.push(copy);
            proof {
                assert(issues_view(r@) =~= old_r.push(all[i as int]));
            }
        }
        i = i + 1;
    }
    assert(all.subrange(0, issues@.len() as int) =~= all);
    r
}

fn category_keys_exec(findings: &Vec<AuditFinding>) -> (r: (Vec<RowKey>, Vec<String>))
    ensures
        keys_view(r.0@) == category_keys(findings_view(findings@)),
        r.1@.len() == findings@.len(),
        forall|i: int| 0 <= i < findings@.len() ==> #[trigger] r.1@[i]@ == category_of(findings@[i].rule_name@),
{
    let mut keys: Vec<RowKey> = Vec::new();
    let mut cats: Vec<String> = Vec::new();
    let mut i: usize = 0;
    while i < findings.len()
        invariant
            i <= findings@.len(),
            keys_view(keys@) =~= category_keys(findings_view(findings@)).subrange(0, i as int),
            cats@.len() == i,
            forall|k: int| 0 <= k < i ==> #[trigger] cats@[k]@ == category_of(findings@[k].rule_name@),
        decreases findings.len() - i,
    {
        let cat = simplify_rule_name(findings[i].rule_name.as_str());
        let mut words: Vec<String> = Vec::new();
        words.push(cat.clone());
        let k = RowKey { words, numbers: Vec::new() };
        proof {
            assert(k.key_view().0 =~= category_key(findings@[i as int]@).0);
            assert(k.key_view().1 =~= category_key(findings@[i as int]@).1);
        }
        let ghost old_keys = keys@;
        keys.push(k);
        cats.push(cat);
        proof {
            assert(keys_view(keys@) =~= keys_view(old_keys).push(k.key_view()));
        }
        i = i + 1;
    }
    (keys, cats)
}

/// The number of findings of a severity among those a group lists.
pub fn count_in_group(findings: &Vec<AuditFinding>, group: &Vec<usize>, severity: Severity) -> (r: usize)
    requires
        forall|k: int| 0 <= k < group@.len() ==> #[trigger] group@[k] < findings@.len(),
    ensures
        r == count_severity(group_findings(findings_view(findings@), group@), severity),
        r <= group@.len(),
{
    let ghost fs = findings_view(findings@);
    let mut count: usize = 0;
    let mut j: usize = 0;
    while j < group.len()
        invariant
            fs == findings_view(findings@),
            forall|k: int| 0 <= k < group@.len() ==> #[trigger] group@[k] < findings@.len(),
            j <= group@.len(),
            count <= j,
            count == count_severity(group_findings(fs, group@.subrange(0, j as int)), severity),
        decreases group.len() - j,
    {
        proof {
            assert(group_findings(fs, group@.subrange(0, j + 1)).drop_last() =~= group_findings(fs, group@.subrange(0, j as int)));
            assert(group_findings(fs, group@.subrange(0, j + 1)).last() == fs[group@[j as int] as int]);
        }
        if findings[group[j]].severity == severity {
            count = count + 1;
        }
        j = j + 1;
    }
    assert(group@.subrange(0, group@.len() as int) =~= group@);
    count
}

fn has_category_exec(cats: &Vec<String>, findings: &Vec<AuditFinding>, cat: &str) -> (r: bool)
    requires
        cats@.len() == findings@.len(),
        forall|i: int| 0 <= i < findings@.len() ==> #[trigger] cats@[i]@ == category_of(findings@[i].rule_name@),
    ensures
        r == has_category(findings_view(findings@), cat@),
{
    let ghost fs = findings_view(findings@);
    let mut i: usize = 0;
    while i < cats.len()
        invariant
            fs == findings_view(findings@),
            cats@.len() == findings@.len(),
            forall|k: int| 0 <= k < findings@.len() ==> #[trigger] cats@[k]@ == category_of(findings@[k].rule_name@),
            i <= cats@.len(),
            forall|k: int| 0 <= k < i ==> category_of(#[trigger] fs[k].rule_name) != cat@,
        decreases cats.len() - i,
    {
        if str_eq(cats[i].as_str(), cat) {
            assert(category_of(fs[i as int].rule_name) == cat@);
            return true;
        }
        assert(category_of(fs[i as int].rule_name) != cat@);
        i = i + 1;
    }
    false
}

/// The rule-based analysis of a report.
pub fn local_analysis(report: &AuditReport) -> (r: AiAnalysis)
    ensures
        r.risk_level@ == risk_level_of(
            count_severity(findings_view(report.findings@), Severity::Error),
            count_severity(findings_view(report.findings@), Severity::Warning),
        ),
        issues_view(r.issue_analysis@) == analysis_issues(findings_view(report.findings@)),
        texts_view(r.recommendations@) == analysis_recommendations(findings_view(report.findings@)),
        r.summary@ == analysis_summary(
            report.total_transactions as nat,
            report.total_debit.text(),
            report.total_credit.text(),
            findings_view(report.findings@),
        ),
{
    let ghost fs = findings_view(report.findings@);
    let errors = report.error_count();
    let warnings = report.warning_count();
    let risk_level = risk_level_exec(errors, warnings);
    let (keys, cats) = category_keys_exec(&report.findings);
    proof {
        lemma_group_spec_wf(category_keys(fs));
    }
    let groups = group_rows(&keys);
    let ghost gs = groups_view(groups@);
    let mut issues: Vec<IssueDetail> = Vec::new();
    let mut g: usize = 0;
    while g < groups.len()
        invariant
            fs == findings_view(report.findings@),
            cats@.len() == report.findings@.len(),
            forall|i: int| 0 <= i < report.findings@.len() ==> #[trigger] cats@[i]@ == category_of(report.findings@[i].rule_name@),
            gs == groups_view(groups@),
            gs == group_spec(category_keys(fs)),
            groups_wf(gs, fs.len() as int),
            g <= groups@.len(),
            issues_view(issues@) == category_issues(fs, gs, g as int),
        decreases groups.len() - g,
    {
        let group = &groups[g];
        assert(gs[g as int] == group@);
        let e = count_in_group(&report.findings, group, Severity::Error);
        let w = count_in_group(&report.findings, group, Severity::Warning);
        if e > 0 || w > 0 {
            let first = group[0];
            let cat = cats[first].clone();
            let (risk, suggestion) = advice_exec(&cat);
            let mut description = String::new();
            push_str(&mut description, "发现 ");
            push_count(&mut description, e);
            push_str(&mut description, " 项错误、");
            push_count(&mut description, w);
            push_str(&mut description, " 项警告");
            let ghost old_i = issues_view(issues@);
            let issue = IssueDetail { category: cat, description, risk, suggestion };
            issues.push(issue);
            proof {
                assert(issues_view(issues@) =~= old_i.push(issue@));
            }
        }
        g = g + 1;
    }
    let mut sorted = issues_of_rank(&issues, 0);
    let mut mid = issues_of_rank(&issues, 1);
    let mut low = issues_of_rank(&issues, 2);
    let ghost v0 = issues_view(sorted@);
    let ghost v1 = issues_view(mid@);
    let ghost v2 = issues_view(low@);
    sorted.append(&mut mid);
    sorted.append(&mut low);
    proof {
        assert(issues_view(sorted@) =~= v0 + v1 + v2);
    }
    let mut recommendations: Vec<String> = Vec::new();
    let ghost r0 = texts_view(recommendations@);
    if errors > 0 {
        recommendations.push(String::from_str("优先处理所有标记为「错误」的审计发现，这些问题可能涉及合规风险"));
    }
    let ghost r1 = texts_view(recommendations@);
    if has_category_exec(&cats, &report.findings, "借贷平衡") {
        recommendations.push(String::from_str("对借贷不平衡的凭证进行逐笔核对，联系相关业务部门确认"));
    }
    let ghost r2 = texts_view(recommendations@);
    if has_category_exec(&cats, &report.findings, "关联交易") {
        recommendations.push(String::from_str("审查关联方交易的定价依据和审批流程，确保符合《企业会计准则》要求"));
    }
    let ghost r3 = texts_view(recommendations@);
    if has_category_exec(&cats, &report.findings, "Benford") {
        recommendations.push(String::from_str("对 Benford 定律检测异常的科目进行抽样审计，重点关注金额集中区间"));
    }
    let ghost r4 = texts_view(recommendations@);
    if warnings > 5 {
        recommendations.push(String::from_str("警告数量较多，建议增加审计抽样比例，扩大核查范围"));
    }
    let ghost r5 = texts_view(recommendations@);
    recommendations.push(String::from_str("建议定期（至少每季度）运行审计检查，建立持续监控机制"));
    proof {
        assert(r0 =~= Seq::<Seq<char>>::empty());
        assert(texts_view(recommendations@) =~= analysis_recommendations(fs));
    }
    let infos = report.info_count();
    let mut summary = String::new();
    push_str(&mut summary, "本次审计共检查 ");
    push_count(&mut summary, report.total_transactions);
    push_str(&mut summary, " 笔交易（借方 ");
    let d = report.total_debit.to_text();
    push_str(&mut summary, d.as_str());
    push_str(&mut summary, "，贷方 ");
    let c = report.total_credit.to_text();
    push_str(&mut summary, c.as_str());
    push_str(&mut summary, "），发现 ");
    push_count(&mut summary, report.findings.len());
    push_str(&mut summary, " 项问题。其中错误 ");
    push_count(&mut summary, errors);
    push_str(&mut summary, " 项、警告 ");
    push_count(&mut summary, warnings);
    push_str(&mut summary, " 项、信息 ");
    push_count(&mut summary, infos);
    push_str(&mut summary, " 项。整体风险等级评估为「");
    push_str(&mut summary, risk_level.as_str());
    push_str(&mut summary, "」。");
    if errors > 0 {
        push_str(&mut summary, "建议立即采取纠正措施。");
    } else if warnings > 3 {
        push_str(&mut summary, "建议尽快复核相关事项。");
    } else {
        push_str(&mut summary, "账务整体状况良好。");
    }
    AiAnalysis { risk_level, summary, issue_analysis: sorted, recommendations }
}

/// Whether the provider is a language model service rather than the local
/// rules.
pub open spec fn is_remote_provider(provider: Seq<char>) -> bool {
    provider == "openai"@ || provider == "deepseek"@ || provider == "qwen"@
}

/// Whether an analysis goes to a language model service: for the providers
/// openai, deepseek and qwen.
pub fn uses_remote_model(config: &AiConfig) -> (r: bool)
    ensures
        r == is_remote_provider(config.provider@),
{
    let p = config.provider.as_str();
    str_eq(p, "openai") || str_eq(p, "deepseek") || str_eq(p, "qwen")
}

/// The address of the provider's chat service: the configured one, or the
/// provider's default when none is configured.
pub open spec fn api_url_of(provider: Seq<char>, api_url: Seq<char>) -> Seq<char> {
    if api_url.len() == 0 && provider == "openai"@ {
        "https://api.openai.com/v1/chat/completions"@
    } else if api_url.len() == 0 && provider == "deepseek"@ {
        "https://api.deepseek.com/v1/chat/completions"@
    } else if api_url.len() == 0 && provider == "qwen"@ {
        "https://dashscope.aliyuncs.com/compatible-mode/v1/chat/completions"@
    } else {
        api_url
    }
}

/// The model to ask: the configured one, or the provider's default.
pub open spec fn model_of(provider: Seq<char>, model: Seq<char>) -> Seq<char> {
    if model.len() != 0 {
        model
    } else if provider == "deepseek"@ {
        "deepseek-chat"@
    } else if provider == "qwen"@ {
        "qwen-plus"@
    } else {
        "gpt-4o-mini"@
    }
}

pub fn resolve_api_url(config: &AiConfig) -> (r: String)
    ensures
        r@ == api_url_of(config.provider@, config.api_url@),
{
    let p = config.provider.as_str();
    let empty = config.api_url.as_str().is_empty();
    if empty && str_eq(p, "openai") {
        String::from_str("https://api.openai.com/v1/chat/completions")
    } else if empty && str_eq(p, "deepseek") {
        String::from_str("https://api.deepseek.com/v1/chat/completions")
    } else if empty && str_eq(p, "qwen") {
        String::from_str("https://dashscope.aliyuncs.com/compatible-mode/v1/chat/completions")
    } else {
        config.api_url.clone()
    }
}

pub fn resolve_model(config: &AiConfig) -> (r: String)
    ensures
        r@ == model_of(config.provider@, config.model@),
{
    if !config.model.as_str().is_empty() {
        return config.model.clone();
    }
    let p = config.provider.as_str();
    if str_eq(p, "deepseek") {
        String::from_str("deepseek-chat")
    } else if str_eq(p, "qwen") {
        String::from_str("qwen-plus")
    } else {
        String::from_str("gpt-4o-mini")
    }
}

/// `str::trim_start_matches`: `pat` removed from the front as often as it
/// occurs there.
pub open spec fn strip_start_all(s: Seq<char>, pat: Seq<char>) -> Seq<char>
    decreases s.len(),
{
    if pat.len() > 0 && pat.len() <= s.len() && s.subrange(0, pat.len() as int) == pat {
        strip_start_all(s.subrange(pat.len() as int, s.len() as int), pat)
    } else {
        s
    }
}

/// `str::trim_end_matches`: `pat` removed from the back as often as it
/// occurs there.
pub open spec fn strip_end_all(s: Seq<char>, pat: Seq<char>) -> Seq<char>
    decreases s.len(),
{
    if pat.len() > 0 && pat.len() <= s.len() && s.subrange(s.len() - pat.len(), s.len() as int) == pat {
        strip_end_all(s.subrange(0, s.len() - pat.len()), pat)
    } else {
        s
    }
}

/// A model's reply without the code fence it may be wrapped in.
pub open spec fn clean_reply(s: Seq<char>) -> Seq<char> {
    crate::text::trim(
        strip_end_all(strip_start_all(strip_start_all(crate::text::trim(s), "```json"@), "```"@), "```"@),
    )
}

fn strip_start_exec(s: Vec<char>, pat: &str) -> (r: Vec<char>)
    ensures
        r@ == strip_start_all(s@, pat@),
{
    let p = chars_of(pat);
    let mut cur = s;
    if p.len() == 0 {
        return cur;
    }
    while p.len() <= cur.len() && crate::text::occurs_at_exec(&cur, &p, 0)
        invariant
            p@ == pat@,
            p@.len() > 0,
            strip_start_all(cur@, p@) == strip_start_all(s@, p@),
        decreases cur@.len(),
    {
        let mut next: Vec<char> = Vec::new();
        let mut i: usize = p.len();
        while i < cur.len()
            invariant
                p@.len() <= i <= cur@.len(),
                next@ =~= cur@.subrange(p@.len() as int, i as int),
            decreases cur.len() - i,
        {
            next.push(cur[i]);
            i = i + 1;
        }
        cur = next;
    }
    cur
}

fn strip_end_exec(s: Vec<char>, pat: &str) -> (r: Vec<char>)
    ensures
        r@ == strip_end_all(s@, pat@),
{
    let p = chars_of(pat);
    let mut cur = s;
    if p.len() == 0 {
        return cur;
    }
    while p.len() <= cur.len() && crate::text::occurs_at_exec(&cur, &p, cur.len() - p.len())
        invariant
            p@ == pat@,
            p@.len() > 0,
            strip_end_all(cur@, p@) == strip_end_all(s@, p@),
        decreases cur@.len(),
    {
        let keep = cur.len() - p.len();
        let mut next: Vec<char> = Vec::new();
        let mut i: usize = 0;
        while i < keep
            invariant
                keep == cur@.len() - p@.len(),
                i <= keep,
                next@ =~= cur@.subrange(0, i as int),
            decreases keep - i,
        {
            next.push(cur[i]);
            i = i + 1;
        }
        cur = next;
    }
    cur
}

/// A model's reply with surrounding white space and a ```json fence removed.
pub fn clean_model_reply(content: &str) -> (r: String)
    ensures
        r@ == clean_reply(content@),
{
    let v = chars_of(content);
    let t = crate::text::trim_chars(&v);
    let a = strip_start_exec(t, "```json");
    let b = strip_start_exec(a, "```");
    let c = strip_end_exec(b, "```");
    let d = crate::text::trim_chars(&c);
    string_of(d.as_slice())
}

/// The label a prompt gives a severity.
pub open spec fn prompt_label(s: Severity) -> Seq<char> {
    match s {
        Severity::Error => "错误"@,
        Severity::Warning => "警告"@,
        Severity::Info => "信息"@,
    }
}

/// At most the first `n` characters.
pub open spec fn first_chars(s: Seq<char>, n: nat) -> Seq<char> {
    if s.len() <= n {
        s
    } else {
        s.subrange(0, n as int)
    }
}

/// The finding lines of a prompt for the findings `0..k`.
pub open spec fn prompt_lines(fs: Seq<FindingView>, k: int) -> Seq<char>
    decreases k,
{
    if k <= 0 {
        Seq::empty()
    } else {
        let f = fs[k - 1];
        prompt_lines(fs, k - 1) + nat_text(k as nat) + ". ["@ + prompt_label(f.severity) + "] "@
            + f.rule_name + ": "@ + first_chars(f.message, 200) + "\n"@
    }
}

/// The prompt that asks a model to analyse a report: its totals and counts,
/// and its first 30 findings with messages cut to 200 characters.
pub open spec fn analysis_prompt(report_total: nat, debit: Seq<char>, credit: Seq<char>, fs: Seq<FindingView>) -> Seq<char> {
    let shown = if fs.len() < 30 { fs.len() as int } else { 30 };
    "以下是一份自动化审计检查结果，请分析并给出专业意见：\n\n审计概览：\n- 交易总数: "@ + nat_text(report_total)
        + "\n- 借方总额: "@ + debit + "\n- 贷方总额: "@ + credit + "\n- 错误: "@ + nat_text(
        count_severity(fs, Severity::Error),
    ) + " 项\n- 警告: "@ + nat_text(count_severity(fs, Severity::Warning)) + " 项\n- 信息: "@
        + nat_text(count_severity(fs, Severity::Info)) + " 项\n\n审计发现（前30条）：\n"@ + prompt_lines(fs, shown)
}

fn first_chars_exec(s: &String, n: usize) -> (r: String)
    ensures
        r@ == first_chars(s@, n as nat),
{
    let v = chars_of(s.as_str());
    if v.len() <= n {
        return s.clone();
    }
    let mut out: Vec<char> = Vec::new();
    let mut i: usize = 0;
    while i < n
        invariant
            n < v@.len(),
            i <= n,
            out@ =~= v@.subrange(0, i as int),
        decreases n - i,
    {
        out.push(v[i]);
        i = i + 1;
    }
    string_of(out.as_slice())
}

fn prompt_label_exec(s: Severity) -> (r: &'static str)
    ensures
        r@ == prompt_label(s),
{
    match s {
        Severity::Error => "错误",
        Severity::Warning => "警告",
        Severity::Info => "信息",
    }
}

/// The prompt for a model's analysis of a report.
pub fn build_prompt(report: &AuditReport) -> (r: String)
    ensures
        r@ == analysis_prompt(
            report.total_transactions as nat,
            report.total_debit.text(),
            report.total_credit.text(),
            findings_view(report.findings@),
        ),
{
    let ghost fs = findings_view(report.findings@);
    let errors = report.error_count();
    let warnings = report.warning_count();
    let infos = report.info_count();
    let shown: usize = if report.findings.len() < 30 {
        report.findings.len()
    } else {
        30
    };
    let mut lines = String::new();
    let mut i: usize = 0;
    while i < shown
        invariant
            fs == findings_view(report.findings@),
            shown <= report.findings@.len(),
            i <= shown,
            lines@ == prompt_lines(fs, i as int),
        decreases shown - i,
    {
        let f = &report.findings[i];
        assert(fs[i as int] == f@);
        push_count(&mut lines, i + 1);
        push_str(&mut lines, ". [");
        push_str(&mut lines, prompt_label_exec(f.severity));
        push_str(&mut lines, "] ");
        push_str(&mut lines, f.rule_name.as_str());
        push_str(&mut lines, ": ");
        let m = first_chars_exec(&f.message, 200);
        push_str(&mut lines, m.as_str());
        push_str(&mut lines, "\n");
        i = i + 1;
    }
    let mut s = String::new();
    push_str(&mut s, "以下是一份自动化审计检查结果，请分析并给出专业意见：\n\n审计概览：\n- 交易总数: ");
    push_count(&mut s, report.total_transactions);
    push_str(&mut s, "\n- 借方总额: ");
    let d = report.total_debit.to_text();
    push_str(&mut s, d.as_str());
    push_str(&mut s, "\n- 贷方总额: ");
    let c = report.total_credit.to_text();
    push_str(&mut s, c.as_str());
    push_str(&mut s, "\n- 错误: ");
    push_count(&mut s, errors);
    push_str(&mut s, " 项\n- 警告: ");
    push_count(&mut s, warnings);
    push_str(&mut s, " 项\n- 信息: ");
    push_count(&mut s, infos);
    push_str(&mut s, " 项\n\n审计发现（前30条）：\n");
    push_str(&mut s, lines.as_str());
    s
}

} // verus!
