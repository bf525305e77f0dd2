//! Obfuscation of a code package: where its files go, how the AST script is
//! called and what its failure says, whether the result changed `game.js`,
//! and the log lines about each pass and about the repositories of a build.

use vstd::prelude::*;
use crate::git::{BranchPrepareResult, CommitPushResult};
use crate::paths::{join_path, join_text};
use crate::text::{concat2, concat3, copy_string, dec, dec_int, push_str, trim, trim_str, u64_to_string};

verus! {

/// What the classic pass did.
#[derive(Debug, Clone, PartialEq)]
pub struct ObfuscationResult {
    pub target_input_path: String,
    pub target_output_path: String,
    pub work_dir: String,
    pub whitelist_path: String,
    pub whitelist_keyword_count: usize,
    pub mapping_path: Option<String>,
    pub file_count: usize,
    pub replaced_word_count: usize,
    pub copied_back: bool,
}

/// What the AST pass did.
#[derive(Debug, Clone, PartialEq)]
pub struct AstObfuscationResult {
    pub target_input_path: String,
    pub target_output_path: String,
    pub work_dir: String,
    pub whitelist_path: String,
    pub whitelist_keyword_count: usize,
    pub renamed_binding_count: usize,
    pub rewritten_expression_count: usize,
    pub rewritten_literal_count: usize,
    pub dead_code_target_count: usize,
    pub dead_code_actual_count: usize,
    pub dead_code_block_count: usize,
    pub candidate_function_count: usize,
    pub dead_code_shortage_reason: Option<String>,
    pub copied_back: bool,
}

/// Where a task's obfuscation writes: its directory, the output of the
/// classic pass, its mapping, and the output of the AST pass.
pub open spec fn obfuscation_dir_of(task_dir: Seq<char>) -> Seq<char> {
    join_text(task_dir, "obfuscation"@)
}

pub fn obfuscation_dir(task_dir: &str) -> (r: String)
    ensures
        r@ == obfuscation_dir_of(task_dir@),
{
    join_path(task_dir, "obfuscation")
}

pub fn classic_output_path(task_dir: &str) -> (r: String)
    ensures
        r@ == join_text(obfuscation_dir_of(task_dir@), "game_obfuscation.js"@),
{
    let d = obfuscation_dir(task_dir);
    join_path(d.as_str(), "game_obfuscation.js")
}

pub fn classic_mapping_path(task_dir: &str) -> (r: String)
    ensures
        r@ == join_text(obfuscation_dir_of(task_dir@), "obfuscation_mapping.json"@),
{
    let d = obfuscation_dir(task_dir);
    join_path(d.as_str(), "obfuscation_mapping.json")
}

pub fn ast_output_path(task_dir: &str) -> (r: String)
    ensures
        r@ == join_text(obfuscation_dir_of(task_dir@), "game_ast_obfuscation.js"@),
{
    let d = obfuscation_dir(task_dir);
    join_path(d.as_str(), "game_ast_obfuscation.js")
}

/// The whitelist of a task's dictionary directory.
pub fn whitelist_path(dict_dir: &str) -> (r: String)
    ensures
        r@ == join_text(dict_dir@, "whitelist.json"@),
{
    join_path(dict_dir, "whitelist.json")
}

/// The arguments `node` gets to run the AST script: the script, input,
/// output and whitelist, then the seed when there is one, then the dead code
/// flags when dead code is injected.
pub open spec fn ast_args_spec(
    script: Seq<char>,
    input: Seq<char>,
    output: Seq<char>,
    whitelist: Seq<char>,
    seed: Option<u64>,
    dead_code: bool,
    count: u32,
) -> Seq<Seq<char>> {
    let base = seq![script, "--input"@, input, "--output"@, output, "--whitelist"@, whitelist];
    let with_seed = match seed { Some(s) => base + seq!["--seed"@, dec(s as nat)], None => base };
    if dead_code { with_seed + seq!["--dead-code"@, "--dead-code-count"@, dec(count as nat)] } else { with_seed }
}

pub fn ast_script_args(
    script_path: &str,
    input: &str,
    output: &str,
    whitelist: &str,
    seed: Option<u64>,
    enable_dead_code_injection: bool,
    dead_code_injection_count: u32,
) -> (r: Vec<String>)
    ensures
        crate::text::views(r@) == ast_args_spec(script_path@, input@, output@, whitelist@, seed, enable_dead_code_injection, dead_code_injection_count),
{
    let mut v: Vec<String> = Vec::new();
    v.push(copy_string(script_path));
    v.push("--input".to_string());
    v.push(copy_string(input));
    v.push("--output".to_string());
    v.push(copy_string(output));
    v.push("--whitelist".to_string());
    v.push(copy_string(whitelist));
    if let Some(s) = seed {
        v.push("--seed".to_string());
        v.push(u64_to_string(s));
    }
    if enable_dead_code_injection {
        v.push("--dead-code".to_string());
        v.push("--dead-code-count".to_string());
        v.push(u64_to_string(dead_code_injection_count as u64));
    }
    proof {
        reveal_strlit("--input");
        reveal_strlit("--output");
        reveal_strlit("--whitelist");
        reveal_strlit("--seed");
        reveal_strlit("--dead-code");
        reveal_strlit("--dead-code-count");
    }
    assert(crate::text::views(v@) =~= ast_args_spec(script_path@, input@, output@, whitelist@, seed, enable_dead_code_injection, dead_code_injection_count));
    v
}

/// A text trimmed, or `无` when nothing is left.
pub open spec fn or_none(s: Seq<char>) -> Seq<char> {
    if trim(s).len() == 0 { "无"@ } else { trim(s) }
}

/// How `{:?}` prints an exit code.
pub open spec fn exit_code_text(code: Option<i32>) -> Seq<char> {
    match code {
        Some(c) => "Some("@ + dec_int(c as int) + ")"@,
        None => "None"@,
    }
}

/// The error of a failed run of the AST script.
pub open spec fn ast_failure_text(code: Option<i32>, stdout: Seq<char>, stderr: Seq<char>) -> Seq<char> {
    "AST 混淆脚本执行失败: exit_code="@ + exit_code_text(code) + ", stdout="@ + or_none(stdout) + ", stderr="@ + or_none(stderr)
}

fn or_none_string(s: &str) -> (r: String)
    ensures
        r@ == or_none(s@),
{
    let t = trim_str(s);
    if t.as_str().is_empty() { "无".to_string() } else { t }
}

pub fn ast_failure_message(exit_code: Option<i32>, stdout: &str, stderr: &str) -> (r: String)
    ensures
        r@ == ast_failure_text(exit_code, stdout@, stderr@),
{
    let code = match exit_code {
        Some(c) => {
            let n = crate::text::i64_to_string(c as i64);
            concat3("Some(", n.as_str(), ")")
        },
        None => "None".to_string(),
    };
    let mut m = concat2("AST 混淆脚本执行失败: exit_code=", code.as_str());
    push_str(&mut m, ", stdout=");
    let o = or_none_string(stdout);
    push_str(&mut m, o.as_str());
    push_str(&mut m, ", stderr=");
    let e = or_none_string(stderr);
    push_str(&mut m, e.as_str());
    m
}

/// Whether a pass changed `game.js`: its output differs from the original.
pub fn contents_differ(original: &[u8], obfuscated: &[u8]) -> (r: bool)
    ensures
        r == (original@ != obfuscated@),
{
    if original.len() != obfuscated.len() {
        return true;
    }
    let mut i: usize = 0;
    while i < original.len()
        invariant
            i <= original@.len(),
            original@.len() == obfuscated@.len(),
            original@.take(i as int) == obfuscated@.take(i as int),
        decreases original.len() - i,
    {
        if original[i] != obfuscated[i] {
            assert(original@[i as int] != obfuscated@[i as int]);
            return true;
        }
        assert(original@.take(i + 1) =~= original@.take(i as int).push(original@[i as int]));
        assert(obfuscated@.take(i + 1) =~= obfuscated@.take(i as int).push(obfuscated@[i as int]));
        i = i + 1;
    }
    assert(original@ =~= original@.take(original@.len() as int));
    assert(obfuscated@ =~= obfuscated@.take(obfuscated@.len() as int));
    false
}

pub open spec fn flag(b: bool) -> Seq<char> {
    if b { "true"@ } else { "false"@ }
}

fn flag_str(b: bool) -> (r: &'static str)
    ensures
        r@ == flag(b),
{
    if b { "true" } else { "false" }
}

/// The log line of a readied branch.
pub open spec fn branch_prepare_text(label: Seq<char>, r: BranchPrepareResult) -> Seq<char> {
    label + "分支准备完成: previous_branch="@ + r.previous_branch@ + ", target_branch="@ + r.branch@
        + ", source_branch="@ + r.source_branch@ + ", remote_exists="@ + flag(r.remote_exists)
        + ", created="@ + flag(r.created) + ", pushed="@ + flag(r.pushed)
}

pub fn branch_prepare_line(label: &str, r: &BranchPrepareResult) -> (s: String)
    ensures
        s@ == branch_prepare_text(label@, *r),
{
    let mut s = concat3(label, "分支准备完成: previous_branch=", r.previous_branch.as_str());
    push_str(&mut s, ", target_branch=");
    push_str(&mut s, r.branch.as_str());
    push_str(&mut s, ", source_branch=");
    push_str(&mut s, r.source_branch.as_str());
    push_str(&mut s, ", remote_exists=");
    push_str(&mut s, flag_str(r.remote_exists));
    push_str(&mut s, ", created=");
    push_str(&mut s, flag_str(r.created));
    push_str(&mut s, ", pushed=");
    push_str(&mut s, flag_str(r.pushed));
    s
}

/// The log line of a repository handled after a build.
pub open spec fn commit_push_text(label: Seq<char>, r: CommitPushResult) -> Seq<char> {
    label + "后处理完成: branch="@ + r.branch@ + ", had_changes="@ + flag(r.had_changes)
        + ", discarded_changes="@ + flag(r.discarded_changes)
        + ", commit_sha="@ + match r.commit_sha { Some(c) => c@, None => "无"@ }
        + ", had_unpushed_commits="@ + flag(r.had_unpushed_commits) + ", pushed="@ + flag(r.pushed)
}

pub fn commit_push_line(label: &str, r: &CommitPushResult) -> (s: String)
    ensures
        s@ == commit_push_text(label@, *r),
{
    let mut s = concat3(label, "后处理完成: branch=", r.branch.as_str());
    push_str(&mut s, ", had_changes=");
    push_str(&mut s, flag_str(r.had_changes));
    push_str(&mut s, ", discarded_changes=");
    push_str(&mut s, flag_str(r.discarded_changes));
    push_str(&mut s, ", commit_sha=");
    match &r.commit_sha {
        Some(c) => push_str(&mut s, c.as_str()),
        None => push_str(&mut s, "无"),
    }
    push_str(&mut s, ", had_unpushed_commits=");
    push_str(&mut s, flag_str(r.had_unpushed_commits));
    push_str(&mut s, ", pushed=");
    push_str(&mut s, flag_str(r.pushed));
    s
}

/// The log line of a synchronized repository.
pub open spec fn synced_text(label: Seq<char>, path: Seq<char>, branch: Seq<char>, commit: Seq<char>) -> Seq<char> {
    label + "同步完成: path="@ + path + ", branch="@ + branch + ", commit="@ + commit
}

pub fn synced_line(label: &str, path: &str, branch: &str, commit: &str) -> (s: String)
    ensures
        s@ == synced_text(label@, path@, branch@, commit@),
{
    let mut s = concat3(label, "同步完成: path=", path);
    push_str(&mut s, ", branch=");
    push_str(&mut s, branch);
    push_str(&mut s, ", commit=");
    push_str(&mut s, commit);
    s
}

/// The log line of a pass of obfuscation.
pub open spec fn classic_text(head: Seq<char>, r: ObfuscationResult) -> Seq<char> {
    head + ": work_dir="@ + r.work_dir@ + ", target_input="@ + r.target_input_path@
        + ", target_output="@ + r.target_output_path@ + ", whitelist_path="@ + r.whitelist_path@
        + ", whitelist_keyword_count="@ + dec(r.whitelist_keyword_count as nat)
        + ", file_count="@ + dec(r.file_count as nat)
        + ", replaced_word_count="@ + dec(r.replaced_word_count as nat)
        + ", mapping_path="@ + match r.mapping_path { Some(p) => p@, None => "无"@ }
}

/// `head` is `代码包普通混淆完成` for the classic pass alone and
/// `代码包普通混淆完成（AST 前置步骤）` before the AST pass.
pub fn classic_line(head: &str, r: &ObfuscationResult) -> (s: String)
    ensures
        s@ == classic_text(head@, *r),
{
    let mut s = concat3(head, ": work_dir=", r.work_dir.as_str());
    push_str(&mut s, ", target_input=");
    push_str(&mut s, r.target_input_path.as_str());
    push_str(&mut s, ", target_output=");
    push_str(&mut s, r.target_output_path.as_str());
    push_str(&mut s, ", whitelist_path=");
    push_str(&mut s, r.whitelist_path.as_str());
    push_str(&mut s, ", whitelist_keyword_count=");
    push_str(&mut s, u64_to_string(r.whitelist_keyword_count as u64).as_str());
    push_str(&mut s, ", file_count=");
    push_str(&mut s, u64_to_string(r.file_count as u64).as_str());
    push_str(&mut s, ", replaced_word_count=");
    push_str(&mut s, u64_to_string(r.replaced_word_count as u64).as_str());
    push_str(&mut s, ", mapping_path=");
    match &r.mapping_path {
        Some(p) => push_str(&mut s, p.as_str()),
        None => push_str(&mut s, "无"),
    }
    s
}

pub open spec fn ast_text(r: AstObfuscationResult) -> Seq<char> {
    "代码包 AST 混淆完成: work_dir="@ + r.work_dir@ + ", target_input="@ + r.target_input_path@
        + ", target_output="@ + r.target_output_path@ + ", whitelist_path="@ + r.whitelist_path@
        + ", whitelist_keyword_count="@ + dec(r.whitelist_keyword_count as nat)
        + ", renamed_binding_count="@ + dec(r.renamed_binding_count as nat)
        + ", rewritten_expression_count="@ + dec(r.rewritten_expression_count as nat)
        + ", rewritten_literal_count="@ + dec(r.rewritten_literal_count as nat)
        + ", dead_code_target_count="@ + dec(r.dead_code_target_count as nat)
        + ", dead_code_actual_count="@ + dec(r.dead_code_actual_count as nat)
        + ", dead_code_block_count="@ + dec(r.dead_code_block_count as nat)
        + ", candidate_function_count="@ + dec(r.candidate_function_count as nat)
        + ", dead_code_shortage_reason="@ + match r.dead_code_shortage_reason { Some(p) => p@, None => "无"@ }
}

fn push_count(s: &mut String, label: &str, n: usize)
    ensures
        final(s)@ == old(s)@ + label@ + dec(n as nat),
{
    push_str(s, label);
    let t = u64_to_string(n as u64);
    push_str(s, t.as_str());
}

pub fn ast_line(r: &AstObfuscationResult) -> (s: String)
    ensures
        s@ == ast_text(*r),
{
    let mut s = concat2("代码包 AST 混淆完成: work_dir=", r.work_dir.as_str());
    push_str(&mut s, ", target_input=");
    push_str(&mut s, r.target_input_path.as_str());
    push_str(&mut s, ", target_output=");
    push_str(&mut s, r.target_output_path.as_str());
    push_str(&mut s, ", whitelist_path=");
    push_str(&mut s, r.whitelist_path.as_str());
    push_count(&mut s, ", whitelist_keyword_count=", r.whitelist_keyword_count);
    push_count(&mut s, ", renamed_binding_count=", r.renamed_binding_count);
    push_count(&mut s, ", rewritten_expression_count=", r.rewritten_expression_count);
    push_count(&mut s, ", rewritten_literal_count=", r.rewritten_literal_count);
    push_count(&mut s, ", dead_code_target_count=", r.dead_code_target_count);
    push_count(&mut s, ", dead_code_actual_count=", r.dead_code_actual_count);
    push_count(&mut s, ", dead_code_block_count=", r.dead_code_block_count);
    push_count(&mut s, ", candidate_function_count=", r.candidate_function_count);
    push_str(&mut s, ", dead_code_shortage_reason=");
    match &r.dead_code_shortage_reason {
        Some(p) => push_str(&mut s, p.as_str()),
        None => push_str(&mut s, "无"),
    }
    s
}

} // verus!
