//! The steps a task runs before and after its build: what makes a step well
//! formed, which prep projects the steps name and in what order, how the
//! prep projects found for them are checked, and which branch a conditional
//! step takes.

use vstd::prelude::*;
use crate::error::{AppError, ErrorKind, Problem, outcome};
use crate::models::{PrepProject, TaskPrepAction, TaskPrepTarget};
use crate::param_map::ParamMap;
use crate::copies::{dup_targets, same_targets};
use crate::placeholders::{PlaceholderContext, spec_replace_text};
use crate::preps::{target_problem, validate_prep_target_params};
use crate::text::{concat2, concat3, copy_string, dec, is_blank, is_blank_str, push_str, str_eq, trim, trim_str, u64_to_string};

verus! {

/// A problem found by a check, as a validation error.
pub open spec fn as_validation(p: Option<Seq<char>>) -> Option<Problem> {
    match p {
        Some(m) => Some((ErrorKind::Validation, m)),
        None => None,
    }
}

/// How step `i` of a stage is named: `<stage>第 <i> 项`.
pub open spec fn step_text(stage: Seq<char>, i: nat) -> Seq<char> {
    stage + "第 "@ + dec(i) + " 项"@
}

pub open spec fn branch_name(matched: bool) -> Seq<char> {
    if matched { "条件成立分支"@ } else { "条件不成立分支"@ }
}

/// How the `k`-th prep project of a branch of step `i` is named.
pub open spec fn branch_target_text(stage: Seq<char>, i: nat, matched: bool, k: nat) -> Seq<char> {
    step_text(stage, i) + branch_name(matched) + "第 "@ + dec(k) + " 个准备项目"@
}

fn step_string(stage: &str, i: usize) -> (r: String)
    ensures
        r@ == step_text(stage@, i as nat),
{
    let mut s = concat2(stage, "第 ");
    let n = u64_to_string(i as u64);
    push_str(&mut s, n.as_str());
    push_str(&mut s, " 项");
    s
}

fn branch_target_string(stage: &str, i: usize, matched: bool, k: usize) -> (r: String)
    ensures
        r@ == branch_target_text(stage@, i as nat, matched, k as nat),
{
    let mut s = step_string(stage, i);
    if matched {
        push_str(&mut s, "条件成立分支");
    } else {
        push_str(&mut s, "条件不成立分支");
    }
    push_str(&mut s, "第 ");
    let n = u64_to_string(k as u64);
    push_str(&mut s, n.as_str());
    push_str(&mut s, " 个准备项目");
    s
}

/// The first of the targets with no prep project chosen.
pub open spec fn first_blank(ts: Seq<TaskPrepTarget>) -> Option<int> {
    if exists|k: int| 0 <= k < ts.len() && is_blank(#[trigger] ts[k].prep_project_id@) {
        Some(choose|k: int| 0 <= k < ts.len() && is_blank(#[trigger] ts[k].prep_project_id@)
            && forall|j: int| 0 <= j < k ==> !is_blank(ts[j].prep_project_id@))
    } else {
        None
    }
}

proof fn lemma_first_blank(ts: Seq<TaskPrepTarget>, k: int)
    requires
        0 <= k < ts.len(),
        is_blank(ts[k].prep_project_id@),
        forall|j: int| 0 <= j < k ==> !is_blank(ts[j].prep_project_id@),
    ensures
        first_blank(ts) == Some(k),
{
    let c = choose|c: int| 0 <= c < ts.len() && is_blank(#[trigger] ts[c].prep_project_id@)
        && forall|j: int| 0 <= j < c ==> !is_blank(ts[j].prep_project_id@);
    assert(0 <= k < ts.len() && is_blank(ts[k].prep_project_id@) && forall|j: int| 0 <= j < k ==> !is_blank(ts[j].prep_project_id@));
    if c < k {
        assert(!is_blank(ts[c].prep_project_id@));
    } else if c > k {
        assert(!is_blank(ts[k].prep_project_id@));
    }
}

fn find_blank(ts: &Vec<TaskPrepTarget>) -> (r: Option<usize>)
    ensures
        match first_blank(ts@) {
            Some(k) => r == Some(k as usize) && 0 <= k < ts@.len(),
            None => r is None,
        },
{
    let mut k: usize = 0;
    while k < ts.len()
        invariant
            k <= ts@.len(),
            forall|j: int| 0 <= j < k ==> !is_blank(#[trigger] ts@[j].prep_project_id@),
        decreases ts.len() - k,
    {
        if is_blank_str(ts[k].prep_project_id.as_str()) {
            proof { lemma_first_blank(ts@, k as int); }
            return Some(k);
        }
        k = k + 1;
    }
    None
}

/// What is wrong with the form of step `i`, if anything: a step names its
/// prep project; a conditional step has a source, a value to compare with,
/// and targets on both branches, each naming its prep project.
pub open spec fn structure_problem(stage: Seq<char>, i: nat, a: TaskPrepAction) -> Option<Seq<char>> {
    match a {
        TaskPrepAction::Single { prep_project_id, .. } => if is_blank(prep_project_id@) {
            Some(step_text(stage, i) + "未选择准备项目"@)
        } else {
            None
        },
        TaskPrepAction::Conditional { condition_source, condition_equals, on_match_targets, on_mismatch_targets } => {
            if is_blank(condition_source@) {
                Some(step_text(stage, i) + "缺少判断来源"@)
            } else if is_blank(condition_equals@) {
                Some(step_text(stage, i) + "缺少等于值"@)
            } else if on_match_targets@.len() == 0 {
                Some(step_text(stage, i) + "缺少条件成立执行项目"@)
            } else if on_mismatch_targets@.len() == 0 {
                Some(step_text(stage, i) + "缺少条件不成立执行项目"@)
            } else {
                match first_blank(on_match_targets@) {
                    Some(k) => Some(branch_target_text(stage, i, true, (k + 1) as nat) + "未选择"@),
                    None => match first_blank(on_mismatch_targets@) {
                        Some(k) => Some(branch_target_text(stage, i, false, (k + 1) as nat) + "未选择"@),
                        None => None,
                    },
                }
            }
        },
    }
}

/// Checks the form of step `step_index` of a stage.
pub fn validate_prep_action_structure(stage_label: &str, step_index: usize, action: &TaskPrepAction) -> (r: Result<(), AppError>)
    ensures
        outcome(r, as_validation(structure_problem(stage_label@, step_index as nat, *action))),
{
    match action {
        TaskPrepAction::Single { prep_project_id, .. } => {
            if is_blank_str(prep_project_id.as_str()) {
                let mut m = step_string(stage_label, step_index);
                push_str(&mut m, "未选择准备项目");
                return Err(AppError::Validation(m));
            }
            Ok(())
        },
        TaskPrepAction::Conditional { condition_source, condition_equals, on_match_targets, on_mismatch_targets } => {
            let prefix = step_string(stage_label, step_index);
            if is_blank_str(condition_source.as_str()) {
                return Err(AppError::Validation(concat2(prefix.as_str(), "缺少判断来源")));
            }
            if is_blank_str(condition_equals.as_str()) {
                return Err(AppError::Validation(concat2(prefix.as_str(), "缺少等于值")));
            }
            if on_match_targets.len() == 0 {
                return Err(AppError::Validation(concat2(prefix.as_str(), "缺少条件成立执行项目")));
            }
            if on_mismatch_targets.len() == 0 {
                return Err(AppError::Validation(concat2(prefix.as_str(), "缺少条件不成立执行项目")));
            }
            if let Some(k) = find_blank(on_match_targets) {
                let label = branch_target_string(stage_label, step_index, true, k + 1);
                return Err(AppError::Validation(concat2(label.as_str(), "未选择")));
            }
            if let Some(k) = find_blank(on_mismatch_targets) {
                let label = branch_target_string(stage_label, step_index, false, k + 1);
                return Err(AppError::Validation(concat2(label.as_str(), "未选择")));
            }
            Ok(())
        },
    }
}

/// How many prep projects a step names.
pub open spec fn target_count(a: TaskPrepAction) -> nat {
    match a {
        TaskPrepAction::Single { .. } => 1,
        TaskPrepAction::Conditional { on_match_targets, on_mismatch_targets, .. } => on_match_targets@.len() + on_mismatch_targets@.len(),
    }
}

/// How many prep projects the first `j` steps name.
pub open spec fn targets_before(acts: Seq<TaskPrepAction>, j: nat) -> nat
    decreases j,
{
    if j == 0 || j > acts.len() {
        0
    } else {
        targets_before(acts, (j - 1) as nat) + target_count(acts[j - 1])
    }
}

/// The prep projects of step `a` are named at `off` onwards in `ids`: a
/// step's own, or the targets of the matching branch, then of the other.
pub open spec fn ids_at(ids: Seq<Seq<char>>, off: int, a: TaskPrepAction) -> bool {
    match a {
        TaskPrepAction::Single { prep_project_id, .. } => ids[off] == prep_project_id@,
        TaskPrepAction::Conditional { on_match_targets, on_mismatch_targets, .. } => {
            &&& forall|k: int| 0 <= k < on_match_targets@.len() ==> ids[off + k] == (#[trigger] on_match_targets@[k]).prep_project_id@
            &&& forall|k: int| 0 <= k < on_mismatch_targets@.len() ==>
                ids[off + on_match_targets@.len() + k] == (#[trigger] on_mismatch_targets@[k]).prep_project_id@
        },
    }
}

/// The parameters of every target of every step are sorted by key, each key once.
pub open spec fn actions_wf(acts: Seq<TaskPrepAction>) -> bool {
    forall|j: int| 0 <= j < acts.len() ==> match #[trigger] acts[j] {
        TaskPrepAction::Single { params, .. } => params.wf(),
        TaskPrepAction::Conditional { on_match_targets, on_mismatch_targets, .. } => {
            &&& forall|k: int| 0 <= k < on_match_targets@.len() ==> (#[trigger] on_match_targets@[k]).params.wf()
            &&& forall|k: int| 0 <= k < on_mismatch_targets@.len() ==> (#[trigger] on_mismatch_targets@[k]).params.wf()
        },
    }
}

fn push_target_ids(out: &mut Vec<String>, ts: &Vec<TaskPrepTarget>)
    ensures
        final(out)@.len() == old(out)@.len() + ts@.len(),
        final(out)@.take(old(out)@.len() as int) == old(out)@,
        forall|q: int| 0 <= q < ts@.len() ==> final(out)@[old(out)@.len() + q]@ == (#[trigger] ts@[q]).prep_project_id@,
{
    let ghost start = out@;
    let mut k: usize = 0;
    while k < ts.len()
        invariant
            k <= ts@.len(),
            out@.len() == start.len() + k,
            out@.take(start.len() as int) == start,
            forall|q: int| 0 <= q < k ==> out@[start.len() + q]@ == (#[trigger] ts@[q]).prep_project_id@,
        decreases ts.len() - k,
    {
        let ghost before = out@;
        out.push(copy_string(ts[k].prep_project_id.as_str()));
        assert(out@.take(start.len() as int) =~= before.take(start.len() as int));
        k = k + 1;
    }
}

proof fn lemma_ids_extend(acts: Seq<TaskPrepAction>, j: nat, before: Seq<String>, after: Seq<String>)
    requires
        j < acts.len(),
        before.len() == targets_before(acts, j),
        after.len() == targets_before(acts, j + 1),
        after.take(before.len() as int) == before,
        forall|i: int| 0 <= i < j ==> ids_at(views_of(before), targets_before(acts, i as nat) as int, #[trigger] acts[i]),
        ids_at(views_of(after), before.len() as int, acts[j as int]),
    ensures
        forall|i: int| 0 <= i < j + 1 ==> ids_at(views_of(after), targets_before(acts, i as nat) as int, #[trigger] acts[i]),
{
    assert forall|i: int| 0 <= i < j + 1 implies ids_at(views_of(after), targets_before(acts, i as nat) as int, #[trigger] acts[i]) by {
        if i < j {
            lemma_targets_before_mono(acts, (i + 1) as nat, j);
            assert forall|q: int| 0 <= q < before.len() implies views_of(after)[q] == views_of(before)[q] by {
                assert(after.take(before.len() as int)[q] == after[q]);
            }
            lemma_ids_at_prefix(views_of(before), views_of(after), targets_before(acts, i as nat) as int, acts[i]);
        }
    }
}

/// The ids of the prep projects the steps name, in the order in which they
/// are checked.
pub fn prep_target_ids(actions: &Vec<TaskPrepAction>) -> (r: Vec<String>)
    ensures
        r@.len() == targets_before(actions@, actions@.len() as nat),
        forall|j: int| 0 <= j < actions@.len() ==> ids_at(views_of(r@), targets_before(actions@, j as nat) as int, #[trigger] actions@[j]),
{
    let mut out: Vec<String> = Vec::new();
    let mut j: usize = 0;
    while j < actions.len()
        invariant
            j <= actions@.len(),
            out@.len() == targets_before(actions@, j as nat),
            forall|i: int| 0 <= i < j ==> ids_at(views_of(out@), targets_before(actions@, i as nat) as int, #[trigger] actions@[i]),
        decreases actions.len() - j,
    {
        let ghost before = out@;
        match &actions[j] {
            TaskPrepAction::Single { prep_project_id, .. } => {
                out.push(copy_string(prep_project_id.as_str()));
                assert(out@.take(before.len() as int) =~= before);
            },
            TaskPrepAction::Conditional { on_match_targets, on_mismatch_targets, .. } => {
                push_target_ids(&mut out, on_match_targets);
                let ghost mid = out@;
                push_target_ids(&mut out, on_mismatch_targets);
                assert(out@.take(before.len() as int) =~= before) by {
                    assert(out@.take(mid.len() as int).take(before.len() as int) =~= out@.take(before.len() as int));
                }
                assert forall|k: int| 0 <= k < on_match_targets@.len() implies
                    views_of(out@)[before.len() + k] == (#[trigger] on_match_targets@[k]).prep_project_id@ by {
                    assert(out@.take(mid.len() as int)[before.len() + k] == out@[before.len() + k]);
                }
            },
        }
        proof { lemma_ids_extend(actions@, j as nat, before, out@); }
        j = j + 1;
    }
    out
}

pub open spec fn views_of(v: Seq<String>) -> Seq<Seq<char>> {
    v.map_values(|s: String| s@)
}

proof fn lemma_targets_before_mono(acts: Seq<TaskPrepAction>, a: nat, b: nat)
    requires
        a <= b <= acts.len(),
    ensures
        targets_before(acts, a) <= targets_before(acts, b),
    decreases b - a,
{
    if a < b {
        lemma_targets_before_mono(acts, a, (b - 1) as nat);
    }
}

proof fn lemma_ids_at_prefix(short: Seq<Seq<char>>, long: Seq<Seq<char>>, off: int, a: TaskPrepAction)
    requires
        0 <= off,
        off + target_count(a) <= short.len() <= long.len(),
        forall|q: int| 0 <= q < short.len() ==> long[q] == short[q],
        ids_at(short, off, a),
    ensures
        ids_at(long, off, a),
{
    match a {
        TaskPrepAction::Single { .. } => {},
        TaskPrepAction::Conditional { on_match_targets, on_mismatch_targets, .. } => {
            assert forall|k: int| 0 <= k < on_match_targets@.len() implies long[off + k] == (#[trigger] on_match_targets@[k]).prep_project_id@ by {
                assert(long[off + k] == short[off + k]);
            }
            assert forall|k: int| 0 <= k < on_mismatch_targets@.len() implies
                long[off + on_match_targets@.len() + k] == (#[trigger] on_mismatch_targets@[k]).prep_project_id@ by {
                assert(long[off + on_match_targets@.len() + k] == short[off + on_match_targets@.len() + k]);
            }
        },
    }
}

/// What the prep project found for a target says is wrong, if anything: it
/// could not be found, or the target's parameters do not fit it.
pub open spec fn check_problem(label: Seq<char>, params: ParamMap, l: Result<PrepProject, String>) -> Option<Seq<char>> {
    match l {
        Err(e) => Some(label + "引用的准备项目不存在: "@ + e@),
        Ok(p) => match target_problem(p.params@, params) {
            Some(m) => Some(label + "参数无效: "@ + m),
            None => None,
        },
    }
}

/// The first problem among the first `n` targets of a branch of step `i`,
/// whose prep projects were found at `off` onwards in `ls`.
pub open spec fn branch_problem(
    stage: Seq<char>,
    i: nat,
    matched: bool,
    ts: Seq<TaskPrepTarget>,
    ls: Seq<Result<PrepProject, String>>,
    off: int,
    n: nat,
) -> Option<Seq<char>>
    decreases n,
{
    if n == 0 {
        None
    } else {
        let p = branch_problem(stage, i, matched, ts, ls, off, (n - 1) as nat);
        if p is Some {
            p
        } else {
            check_problem(branch_target_text(stage, i, matched, n), ts[n - 1].params, ls[off + n - 1])
        }
    }
}

/// The first problem among the prep projects of step `i`, found at `off`
/// onwards in `ls`.
pub open spec fn step_check_problem(stage: Seq<char>, i: nat, a: TaskPrepAction, ls: Seq<Result<PrepProject, String>>, off: int) -> Option<Seq<char>> {
    match a {
        TaskPrepAction::Single { params, .. } => check_problem(step_text(stage, i), params, ls[off]),
        TaskPrepAction::Conditional { on_match_targets, on_mismatch_targets, .. } => {
            let p = branch_problem(stage, i, true, on_match_targets@, ls, off, on_match_targets@.len());
            if p is Some {
                p
            } else {
                branch_problem(stage, i, false, on_mismatch_targets@, ls, off + on_match_targets@.len(), on_mismatch_targets@.len())
            }
        },
    }
}

/// The first problem of the first `j` steps: each step's form, then its prep
/// projects, in order.
pub open spec fn steps_problem(stage: Seq<char>, acts: Seq<TaskPrepAction>, ls: Seq<Result<PrepProject, String>>, j: nat) -> Option<Seq<char>>
    decreases j,
{
    if j == 0 || j > acts.len() {
        None
    } else {
        let p = steps_problem(stage, acts, ls, (j - 1) as nat);
        if p is Some {
            p
        } else if structure_problem(stage, j, acts[j - 1]) is Some {
            structure_problem(stage, j, acts[j - 1])
        } else {
            step_check_problem(stage, j, acts[j - 1], ls, targets_before(acts, (j - 1) as nat) as int)
        }
    }
}

fn check_loaded(label: &str, params: &ParamMap, l: &Result<PrepProject, String>) -> (r: Result<(), AppError>)
    requires
        params.wf(),
    ensures
        outcome(r, as_validation(check_problem(label@, *params, *l))),
{
    match l {
        Err(e) => Err(AppError::Validation(concat3(label, "引用的准备项目不存在: ", e.as_str()))),
        Ok(p) => match crate::preps::check_target_params(&p.params, params) {
            Ok(()) => Ok(()),
            Err(m) => Err(AppError::Validation(concat3(label, "参数无效: ", m.as_str()))),
        },
    }
}

proof fn lemma_branch_stable(
    stage: Seq<char>,
    i: nat,
    matched: bool,
    ts: Seq<TaskPrepTarget>,
    ls: Seq<Result<PrepProject, String>>,
    off: int,
    n: nat,
    m: nat,
)
    requires
        n <= m,
        branch_problem(stage, i, matched, ts, ls, off, n) is Some,
    ensures
        branch_problem(stage, i, matched, ts, ls, off, m) == branch_problem(stage, i, matched, ts, ls, off, n),
    decreases m - n,
{
    if n < m {
        lemma_branch_stable(stage, i, matched, ts, ls, off, n, (m - 1) as nat);
    }
}

proof fn lemma_steps_stable(stage: Seq<char>, acts: Seq<TaskPrepAction>, ls: Seq<Result<PrepProject, String>>, n: nat, m: nat)
    requires
        n <= m <= acts.len(),
        steps_problem(stage, acts, ls, n) is Some,
    ensures
        steps_problem(stage, acts, ls, m) == steps_problem(stage, acts, ls, n),
    decreases m - n,
{
    if n < m {
        lemma_steps_stable(stage, acts, ls, n, (m - 1) as nat);
    }
}

fn check_branch(
    stage: &str,
    i: usize,
    matched: bool,
    ts: &Vec<TaskPrepTarget>,
    loaded: &Vec<Result<PrepProject, String>>,
    off: usize,
) -> (r: Result<(), AppError>)
    requires
        off + ts@.len() <= loaded@.len(),
        forall|k: int| 0 <= k < ts@.len() ==> (#[trigger] ts@[k]).params.wf(),
    ensures
        outcome(r, as_validation(branch_problem(stage@, i as nat, matched, ts@, loaded@, off as int, ts@.len()))),
{
    let total = loaded.len();
    let mut k: usize = 0;
    while k < ts.len()
        invariant
            k <= ts@.len(),
            total == loaded@.len(),
            off + ts@.len() <= loaded@.len(),
            forall|q: int| 0 <= q < ts@.len() ==> (#[trigger] ts@[q]).params.wf(),
            branch_problem(stage@, i as nat, matched, ts@, loaded@, off as int, k as nat) is None,
        decreases ts.len() - k,
    {
        let label = branch_target_string(stage, i, matched, k + 1);
        let r = check_loaded(label.as_str(), &ts[k].params, &loaded[off + k]);
        if r.is_err() {
            proof { lemma_branch_stable(stage@, i as nat, matched, ts@, loaded@, off as int, (k + 1) as nat, ts@.len()); }
            return r;
        }
        k = k + 1;
    }
    Ok(())
}

/// Checks the steps of a stage against the prep projects found for them
/// (`loaded`, one for each id of `prep_target_ids`, in that order): each
/// step's form, then each of its prep projects, until the first problem.
pub fn validate_task_prep_actions(stage_label: &str, actions: &Vec<TaskPrepAction>, loaded: &Vec<Result<PrepProject, String>>) -> (r: Result<(), AppError>)
    requires
        actions_wf(actions@),
        loaded@.len() == targets_before(actions@, actions@.len() as nat),
    ensures
        outcome(r, as_validation(steps_problem(stage_label@, actions@, loaded@, actions@.len() as nat))),
{
    let total = loaded.len();
    let mut off: usize = 0;
    let mut j: usize = 0;
    while j < actions.len()
        invariant
            j <= actions@.len(),
            total == loaded@.len(),
            actions_wf(actions@),
            loaded@.len() == targets_before(actions@, actions@.len() as nat),
            off == targets_before(actions@, j as nat),
            steps_problem(stage_label@, actions@, loaded@, j as nat) is None,
        decreases actions.len() - j,
    {
        proof { lemma_targets_before_mono(actions@, (j + 1) as nat, actions@.len() as nat); }
        let step = j + 1;
        let ghost n = actions@.len() as nat;
        let s = validate_prep_action_structure(stage_label, step, &actions[j]);
        if s.is_err() {
            proof { lemma_steps_stable(stage_label@, actions@, loaded@, (j + 1) as nat, n); }
            return s;
        }
        assert(actions_wf(actions@));
        match &actions[j] {
            TaskPrepAction::Single { params, .. } => {
                let label = step_string(stage_label, step);
                let c = check_loaded(label.as_str(), params, &loaded[off]);
                if c.is_err() {
                    proof { lemma_steps_stable(stage_label@, actions@, loaded@, (j + 1) as nat, n); }
                    return c;
                }
                off = off + 1;
            },
            TaskPrepAction::Conditional { on_match_targets, on_mismatch_targets, .. } => {
                let c = check_branch(stage_label, step, true, on_match_targets, loaded, off);
                if c.is_err() {
                    proof { lemma_steps_stable(stage_label@, actions@, loaded@, (j + 1) as nat, n); }
                    return c;
                }
                let d = check_branch(stage_label, step, false, on_mismatch_targets, loaded, off + on_match_targets.len());
                if d.is_err() {
                    proof { lemma_steps_stable(stage_label@, actions@, loaded@, (j + 1) as nat, n); }
                    return d;
                }
                off = off + on_match_targets.len() + on_mismatch_targets.len();
            },
        }
        j = j + 1;
    }
    Ok(())
}

/// What a conditional step decided: its source with the placeholders
/// filled in, the value compared with, whether they are equal (the
/// branch taken), and the targets of that branch, which then run.
#[derive(Debug, Clone, PartialEq)]
pub struct ConditionalTargetSelection {
    pub matched: bool,
    pub rendered_source: String,
    pub compare_value: String,
    pub targets: Vec<TaskPrepTarget>,
}

/// What keeps a step from being run as a conditional step, if anything.
pub open spec fn selection_problem(a: TaskPrepAction) -> Option<Seq<char>> {
    match a {
        TaskPrepAction::Single { .. } => Some("当前步骤不是条件步骤"@),
        TaskPrepAction::Conditional { condition_source, condition_equals, on_match_targets, on_mismatch_targets } => {
            if is_blank(condition_source@) {
                Some("条件步骤缺少判断来源"@)
            } else if is_blank(condition_equals@) {
                Some("条件步骤缺少等于值"@)
            } else if on_match_targets@.len() == 0 {
                Some("条件步骤缺少条件成立执行项目"@)
            } else if on_mismatch_targets@.len() == 0 {
                Some("条件步骤缺少条件不成立执行项目"@)
            } else {
                None
            }
        },
    }
}

/// Decides a conditional step: its trimmed source is rendered with the
/// placeholders of the build and trimmed again, and the step matches when
/// that equals its trimmed comparison value; the targets of the branch
/// taken are handed back.
pub fn select_conditional_targets(action: &TaskPrepAction, placeholder_context: &PlaceholderContext) -> (r: Result<ConditionalTargetSelection, AppError>)
    ensures
        outcome(r, as_validation(selection_problem(*action))),
        r matches Ok(sel) ==> (action matches TaskPrepAction::Conditional { condition_source, condition_equals, on_match_targets, on_mismatch_targets }
            && sel.rendered_source@ == trim(spec_replace_text(*placeholder_context, trim(condition_source@)))
            && sel.compare_value@ == trim(condition_equals@)
            && sel.matched == (sel.rendered_source@ == sel.compare_value@)
            && same_targets(sel.targets@, if sel.matched { on_match_targets@ } else { on_mismatch_targets@ })),
{
    match action {
        TaskPrepAction::Single { .. } => Err(AppError::Validation("当前步骤不是条件步骤".to_string())),
        TaskPrepAction::Conditional { condition_source, condition_equals, on_match_targets, on_mismatch_targets } => {
            let source = trim_str(condition_source.as_str());
            if source.as_str().is_empty() {
                return Err(AppError::Validation("条件步骤缺少判断来源".to_string()));
            }
            let compare_value = trim_str(condition_equals.as_str());
            if compare_value.as_str().is_empty() {
                return Err(AppError::Validation("条件步骤缺少等于值".to_string()));
            }
            if on_match_targets.len() == 0 {
                return Err(AppError::Validation("条件步骤缺少条件成立执行项目".to_string()));
            }
            if on_mismatch_targets.len() == 0 {
                return Err(AppError::Validation("条件步骤缺少条件不成立执行项目".to_string()));
            }
            let rendered = placeholder_context.replace_text(source.as_str());
            let rendered_source = trim_str(rendered.as_str());
            let matched = str_eq(rendered_source.as_str(), compare_value.as_str());
            let targets = if matched { dup_targets(on_match_targets) } else { dup_targets(on_mismatch_targets) };
            Ok(ConditionalTargetSelection { matched, rendered_source, compare_value, targets })
        },
    }
}

/// How a prep project run by a step is named: the step, or the branch and
/// the position in it.
pub open spec fn target_prefix(stage: Seq<char>, i: nat, branch: Option<(bool, usize)>) -> Seq<char> {
    match branch {
        Some((m, k)) => branch_target_text(stage, i, m, k as nat),
        None => step_text(stage, i),
    }
}

/// The error for a prep project that was not chosen.
pub open spec fn target_missing(stage: Seq<char>, i: nat, branch: Option<(bool, usize)>) -> Seq<char> {
    match branch {
        Some((m, k)) => branch_target_text(stage, i, m, k as nat) + "未选择"@,
        None => step_text(stage, i) + "未选择准备项目"@,
    }
}

/// The name of a prep project about to run, or the error when the target
/// names none.
pub fn prep_target_prefix(stage_label: &str, step_index: usize, branch: Option<(bool, usize)>, target: &TaskPrepTarget) -> (r: Result<String, AppError>)
    ensures
        is_blank(target.prep_project_id@) ==> outcome(r, Some((ErrorKind::Validation, target_missing(stage_label@, step_index as nat, branch)))),
        !is_blank(target.prep_project_id@) ==> (r matches Ok(p) && p@ == target_prefix(stage_label@, step_index as nat, branch)),
{
    let prefix = match branch {
        Some((m, k)) => branch_target_string(stage_label, step_index, m, k),
        None => step_string(stage_label, step_index),
    };
    if is_blank_str(target.prep_project_id.as_str()) {
        let msg = match branch {
            Some(_) => concat2(prefix.as_str(), "未选择"),
            None => concat2(prefix.as_str(), "未选择准备项目"),
        };
        return Err(AppError::Validation(msg));
    }
    Ok(prefix)
}

/// The error of a prep project that ran and failed.
pub open spec fn prep_failure_text(prefix: Seq<char>, name: Seq<char>, exit_code: i32) -> Seq<char> {
    prefix + "执行失败: "@ + name + "，退出码 "@ + crate::text::dec_int(exit_code as int)
}

pub fn prep_failure_message(prefix: &str, name: &str, exit_code: i32) -> (r: String)
    ensures
        r@ == prep_failure_text(prefix@, name@, exit_code),
{
    let mut m = concat3(prefix, "执行失败: ", name);
    push_str(&mut m, "，退出码 ");
    let code = crate::text::i64_to_string(exit_code as i64);
    push_str(&mut m, code.as_str());
    m
}

/// The change a successful prep project makes to its task's progress: one
/// step more, up to 40.
pub fn prep_step_patch() -> (p: crate::state::RuntimePatch)
    ensures
        forall|log_path: Seq<char>, now: Seq<char>| p@ == #[trigger] crate::pipeline::run_step_view(crate::pipeline::RunStep::PrepStep, log_path, now),
        p@ == (crate::state::PatchView {
            progress: None,
            progress_if_below: None,
            progress_step_below: Some(40u8),
            step_label: None,
            status: None,
            last_log_path: None,
            last_error: None,
            started_at: None,
            finished_at: None,
            canceling_at_unix_secs: None,
        }),
{
    crate::state::RuntimePatch {
        progress: None,
        progress_if_below: None,
        progress_step_below: Some(40),
        step_label: None,
        status: None,
        last_log_path: None,
        last_error: None,
        started_at: None,
        finished_at: None,
        canceling_at_unix_secs: None,
    }
}

} // verus!
