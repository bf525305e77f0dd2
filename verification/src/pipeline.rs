//! The decisions of a build: the marks a task's run-time entry gets at each
//! stage of its build or of its obfuscation run, what ends a task that
//! failed or was stopped, when a stop request has hung, whether and how
//! obfuscation runs, and the texts written to a task's log along the way.

use vstd::prelude::*;
use crate::error::{AppError, ErrorKind, Problem, outcome};
use crate::models::{ObfuscationMode, PackageTask, PackageTaskRuntime, PackageTaskStatus};
use crate::placeholders::{PlaceholderContext, spec_replace_text};
use crate::state::{EntryView, PatchView, RuntimePatch, patch_view};
use crate::text::{concat2, concat3, copy_string, is_blank, is_blank_str, push_str};

verus! {

/// A patch that changes nothing.
pub open spec fn no_change() -> PatchView {
    PatchView {
        progress: None,
        progress_if_below: None,
        progress_step_below: None,
        step_label: None,
        status: None,
        last_log_path: None,
        last_error: None,
        started_at: None,
        finished_at: None,
        canceling_at_unix_secs: None,
    }
}

fn empty_patch() -> (p: RuntimePatch)
    ensures
        p@ == no_change(),
{
    RuntimePatch {
        progress: None,
        progress_if_below: None,
        progress_step_below: None,
        step_label: None,
        status: None,
        last_log_path: None,
        last_error: None,
        started_at: None,
        finished_at: None,
        canceling_at_unix_secs: None,
    }
}

/// The stages of a task's build that its run-time entry records.
#[derive(Debug, Clone, Copy, PartialEq, Eq, Structural)]
pub enum BuildStage {
    Started,
    MainRepoSynced,
    ReposPrepared,
    ConfigWritten,
    CodeRepoFinalized,
    Obfuscated,
    AssetRepoFinalized,
    Succeeded,
}

/// What each stage of a build marks on the task's entry.
pub open spec fn build_stage_view(stage: BuildStage, log_path: Seq<char>, now: Seq<char>) -> PatchView {
    match stage {
        BuildStage::Started => PatchView {
            status: Some(PackageTaskStatus::Running),
            progress: Some(5),
            step_label: Some("准备工作区"@),
            started_at: Some(Some(now)),
            finished_at: Some(None),
            last_error: Some(None),
            last_log_path: Some(Some(log_path)),
            ..no_change()
        },
        BuildStage::MainRepoSynced => PatchView { progress: Some(20), step_label: Some("同步主工程"@), ..no_change() },
        BuildStage::ReposPrepared => PatchView { progress: Some(35), step_label: Some("准备代码与资源仓库"@), ..no_change() },
        BuildStage::ConfigWritten => PatchView { progress: Some(40), step_label: Some("生成构建配置"@), ..no_change() },
        BuildStage::CodeRepoFinalized => PatchView { progress: Some(97), ..no_change() },
        BuildStage::Obfuscated => PatchView { progress: Some(98), ..no_change() },
        BuildStage::AssetRepoFinalized => PatchView { progress: Some(99), ..no_change() },
        BuildStage::Succeeded => PatchView {
            status: Some(PackageTaskStatus::Success),
            progress: Some(100),
            step_label: Some("已完成"@),
            finished_at: Some(Some(now)),
            last_error: Some(None),
            ..no_change()
        },
    }
}

/// A step of one build run that changes the task's progress, in the order
/// a run takes them: the stages, with the pre-build preparation steps after
/// the repositories are ready, and the Cocos build after the configuration
/// is written.
#[derive(Debug, Clone, Copy, PartialEq, Eq, Structural)]
pub enum RunStep {
    Stage(BuildStage),
    /// A preparation project of the pre-build steps succeeded.
    PrepStep,
    /// Cocos Creator started.
    CocosRunning,
    /// Cocos Creator finished.
    CocosFinished,
}

/// The place of a step in a run.
pub open spec fn run_rank(step: RunStep) -> nat {
    match step {
        RunStep::Stage(BuildStage::Started) => 0,
        RunStep::Stage(BuildStage::MainRepoSynced) => 1,
        RunStep::Stage(BuildStage::ReposPrepared) => 2,
        RunStep::PrepStep => 3,
        RunStep::Stage(BuildStage::ConfigWritten) => 4,
        RunStep::CocosRunning => 5,
        RunStep::CocosFinished => 6,
        RunStep::Stage(BuildStage::CodeRepoFinalized) => 7,
        RunStep::Stage(BuildStage::Obfuscated) => 8,
        RunStep::Stage(BuildStage::AssetRepoFinalized) => 9,
        RunStep::Stage(BuildStage::Succeeded) => 10,
    }
}

/// The change a step makes to the task's entry.
pub open spec fn run_step_view(step: RunStep, log_path: Seq<char>, now: Seq<char>) -> PatchView {
    match step {
        RunStep::Stage(s) => build_stage_view(s, log_path, now),
        RunStep::PrepStep => PatchView { progress_step_below: Some(40u8), ..no_change() },
        RunStep::CocosRunning => PatchView { step_label: Some("Cocos Creator 构建中"@), ..no_change() },
        RunStep::CocosFinished => PatchView {
            progress_if_below: Some((95u8, 95u8)),
            step_label: Some("Cocos Creator 构建完成"@),
            ..no_change()
        },
    }
}

/// The progress a task can have right after a step.
pub open spec fn after_step(step: RunStep, progress: u8) -> bool {
    match step {
        RunStep::Stage(BuildStage::Started) => progress == 5,
        RunStep::Stage(BuildStage::MainRepoSynced) => progress == 20,
        RunStep::Stage(BuildStage::ReposPrepared) => progress == 35,
        RunStep::PrepStep => 5 <= progress <= 40,
        RunStep::Stage(BuildStage::ConfigWritten) => progress == 40,
        RunStep::CocosRunning => 5 <= progress <= 95,
        RunStep::CocosFinished => progress == 95,
        RunStep::Stage(BuildStage::CodeRepoFinalized) => progress == 97,
        RunStep::Stage(BuildStage::Obfuscated) => progress == 98,
        RunStep::Stage(BuildStage::AssetRepoFinalized) => progress == 99,
        RunStep::Stage(BuildStage::Succeeded) => progress == 100,
    }
}

/// Over one build run the progress never goes down: after any step, a
/// later step (any of the steps between may be left out) leaves the
/// progress at least where it was, and where that step leaves it. Only the
/// start and the success set the status (running, then done).
pub proof fn law_build_progress_never_falls(a: RunStep, b: RunStep, v: EntryView, log_path: Seq<char>, now: Seq<char>)
    requires
        run_rank(a) <= run_rank(b),
        after_step(a, v.progress),
    ensures
        patch_view(v, run_step_view(b, log_path, now)).progress >= v.progress,
        after_step(b, patch_view(v, run_step_view(b, log_path, now)).progress),
        b != RunStep::Stage(BuildStage::Started) && b != RunStep::Stage(BuildStage::Succeeded) ==> run_step_view(b, log_path, now).status is None,
{
}

/// The change a stage of a build makes to the task's entry (`log_path` is
/// used when the build starts, `now` when it starts or succeeds).
pub fn build_stage_patch(stage: BuildStage, log_path: &str, now: &str) -> (p: RuntimePatch)
    ensures
        p@ == build_stage_view(stage, log_path@, now@),
        p@ == run_step_view(RunStep::Stage(stage), log_path@, now@),
{
    let mut p = empty_patch();
    match stage {
        BuildStage::Started => {
            p.status = Some(PackageTaskStatus::Running);
            p.progress = Some(5);
            p.step_label = Some("准备工作区".to_string());
            p.started_at = Some(Some(copy_string(now)));
            p.finished_at = Some(None);
            p.last_error = Some(None);
            p.last_log_path = Some(Some(copy_string(log_path)));
        },
        BuildStage::MainRepoSynced => {
            p.progress = Some(20);
            p.step_label = Some("同步主工程".to_string());
        },
        BuildStage::ReposPrepared => {
            p.progress = Some(35);
            p.step_label = Some("准备代码与资源仓库".to_string());
        },
        BuildStage::ConfigWritten => {
            p.progress = Some(40);
            p.step_label = Some("生成构建配置".to_string());
        },
        BuildStage::CodeRepoFinalized => {
            p.progress = Some(97);
        },
        BuildStage::Obfuscated => {
            p.progress = Some(98);
        },
        BuildStage::AssetRepoFinalized => {
            p.progress = Some(99);
        },
        BuildStage::Succeeded => {
            p.status = Some(PackageTaskStatus::Success);
            p.progress = Some(100);
            p.step_label = Some("已完成".to_string());
            p.finished_at = Some(Some(copy_string(now)));
            p.last_error = Some(None);
        },
    }
    p
}

/// The stages of a task's obfuscation run on its own.
#[derive(Debug, Clone, Copy, PartialEq, Eq, Structural)]
pub enum ObfuscationStage {
    Started,
    MainRepoSynced,
    CodeRepoPrepared,
    Obfuscated,
    Succeeded,
}

pub open spec fn obfuscation_stage_view(stage: ObfuscationStage, log_path: Seq<char>, now: Seq<char>) -> PatchView {
    match stage {
        ObfuscationStage::Started => PatchView {
            status: Some(PackageTaskStatus::Running),
            progress: Some(5),
            started_at: Some(Some(now)),
            finished_at: Some(None),
            last_error: Some(None),
            last_log_path: Some(Some(log_path)),
            ..no_change()
        },
        ObfuscationStage::MainRepoSynced => PatchView { progress: Some(35), ..no_change() },
        ObfuscationStage::CodeRepoPrepared => PatchView { progress: Some(55), ..no_change() },
        ObfuscationStage::Obfuscated => PatchView { progress: Some(95), ..no_change() },
        ObfuscationStage::Succeeded => PatchView {
            status: Some(PackageTaskStatus::Success),
            progress: Some(100),
            finished_at: Some(Some(now)),
            last_error: Some(None),
            ..no_change()
        },
    }
}

/// The change a stage of an obfuscation run makes to the task's entry.
pub fn obfuscation_stage_patch(stage: ObfuscationStage, log_path: &str, now: &str) -> (p: RuntimePatch)
    ensures
        p@ == obfuscation_stage_view(stage, log_path@, now@),
{
    let mut p = empty_patch();
    match stage {
        ObfuscationStage::Started => {
            p.status = Some(PackageTaskStatus::Running);
            p.progress = Some(5);
            p.started_at = Some(Some(copy_string(now)));
            p.finished_at = Some(None);
            p.last_error = Some(None);
            p.last_log_path = Some(Some(copy_string(log_path)));
        },
        ObfuscationStage::MainRepoSynced => {
            p.progress = Some(35);
        },
        ObfuscationStage::CodeRepoPrepared => {
            p.progress = Some(55);
        },
        ObfuscationStage::Obfuscated => {
            p.progress = Some(95);
        },
        ObfuscationStage::Succeeded => {
            p.status = Some(PackageTaskStatus::Success);
            p.progress = Some(100);
            p.finished_at = Some(Some(copy_string(now)));
            p.last_error = Some(None);
        },
    }
    p
}

/// What ends a task that failed: failed, at least 5% along, with the error.
pub open spec fn failure_view(message: Seq<char>, now: Seq<char>) -> PatchView {
    PatchView {
        status: Some(PackageTaskStatus::Failed),
        progress_if_below: Some((1u8, 5u8)),
        last_error: Some(Some(message)),
        finished_at: Some(Some(now)),
        ..no_change()
    }
}

pub fn failure_patch(message: &str, now: &str) -> (p: RuntimePatch)
    ensures
        p@ == failure_view(message@, now@),
{
    let mut p = empty_patch();
    p.status = Some(PackageTaskStatus::Failed);
    p.progress_if_below = Some((1, 5));
    p.last_error = Some(Some(copy_string(message)));
    p.finished_at = Some(Some(copy_string(now)));
    p
}

/// Why a task ends as canceled: its own build was stopped, or the queue was
/// stopped before it ran.
#[derive(Debug, Clone, Copy, PartialEq, Eq, Structural)]
pub enum CancelScope {
    Build,
    Queue,
}

pub open spec fn canceled_view(scope: CancelScope, now: Seq<char>) -> PatchView {
    PatchView {
        status: Some(PackageTaskStatus::Canceled),
        step_label: Some(match scope { CancelScope::Build => "构建已取消"@, CancelScope::Queue => "队列已取消"@ }),
        finished_at: Some(Some(now)),
        ..no_change()
    }
}

pub fn canceled_patch(scope: CancelScope, now: &str) -> (p: RuntimePatch)
    ensures
        p@ == canceled_view(scope, now@),
{
    let mut p = empty_patch();
    p.status = Some(PackageTaskStatus::Canceled);
    p.step_label = Some(match scope {
        CancelScope::Build => "构建已取消".to_string(),
        CancelScope::Queue => "队列已取消".to_string(),
    });
    p.finished_at = Some(Some(copy_string(now)));
    p
}

/// How long a stop request may hang before the task is failed.
pub const CANCEL_STUCK_AFTER_SECS: u64 = 180;

/// A stop request has hung: the task is being stopped, and the request is
/// at least `CANCEL_STUCK_AFTER_SECS` old.
pub open spec fn cancel_stuck(e: PackageTaskRuntime, now: u64) -> bool {
    &&& e.status == PackageTaskStatus::Canceling
    &&& e.canceling_at_unix_secs matches Some(started) && (if now >= started { now - started } else { 0 }) >= CANCEL_STUCK_AFTER_SECS
}

pub fn is_cancel_stuck(runtime: &PackageTaskRuntime, now_unix_secs: u64) -> (r: bool)
    ensures
        r == cancel_stuck(*runtime, now_unix_secs),
{
    if runtime.status != PackageTaskStatus::Canceling {
        return false;
    }
    match runtime.canceling_at_unix_secs {
        Some(started) => {
            let waited = if now_unix_secs >= started { now_unix_secs - started } else { 0 };
            waited >= CANCEL_STUCK_AFTER_SECS
        },
        None => false,
    }
}

/// What ends a task whose stop request hung.
pub open spec fn stuck_cancel_view(now: Seq<char>) -> PatchView {
    PatchView {
        status: Some(PackageTaskStatus::Failed),
        step_label: Some("停止超时，已强制结束"@),
        last_error: Some(Some("停止请求超过 3 分钟未完成，已强制标记为失败（子进程可能无法终止）"@)),
        finished_at: Some(Some(now)),
        ..no_change()
    }
}

pub fn stuck_cancel_patch(now: &str) -> (p: RuntimePatch)
    ensures
        p@ == stuck_cancel_view(now@),
{
    let mut p = empty_patch();
    p.status = Some(PackageTaskStatus::Failed);
    p.step_label = Some("停止超时，已强制结束".to_string());
    p.last_error = Some(Some("停止请求超过 3 分钟未完成，已强制标记为失败（子进程可能无法终止）".to_string()));
    p.finished_at = Some(Some(copy_string(now)));
    p
}

/// A task cannot be built without build arguments.
pub fn check_build_args(task: &PackageTask) -> (r: Result<(), AppError>)
    ensures
        outcome(r, if is_blank(task.build_args_json@) {
            Some((ErrorKind::Validation, "任务 "@ + task.name@ + " 的构建参数为空"@))
        } else {
            None
        }),
{
    if is_blank_str(task.build_args_json.as_str()) {
        return Err(AppError::Validation(concat3("任务 ", task.name.as_str(), " 的构建参数为空")));
    }
    Ok(())
}

/// The build configuration of a task: its build arguments with the
/// placeholders filled in.
pub fn render_build_config(task: &PackageTask, placeholder_context: &PlaceholderContext) -> (r: String)
    ensures
        r@ == spec_replace_text(*placeholder_context, task.build_args_json@),
{
    placeholder_context.replace_text(task.build_args_json.as_str())
}

/// What a build does about obfuscation once its code repository is handled.
#[derive(Debug, Clone, Copy, PartialEq, Eq, Structural)]
pub enum ObfuscationStep {
    /// Obfuscate the code repository.
    Run,
    /// Obfuscation is on but the project is hot-updated: skipped.
    SkipHotUpdate,
    /// Obfuscation is off: skipped.
    SkipDisabled,
    /// There is no code repository, and nothing to obfuscate.
    NoCodeRepo,
}

/// Decides obfuscation: with a code repository it runs when it is on and
/// the project is not hot-updated; without one it is an error when it
/// would have run.
pub fn obfuscation_step(has_code_repo: bool, enable_obfuscation: bool, is_hot_update: bool) -> (r: Result<ObfuscationStep, AppError>)
    ensures
        has_code_repo ==> r == Ok::<ObfuscationStep, AppError>(
            if enable_obfuscation && !is_hot_update { ObfuscationStep::Run }
            else if enable_obfuscation { ObfuscationStep::SkipHotUpdate }
            else { ObfuscationStep::SkipDisabled }),
        !has_code_repo && enable_obfuscation && !is_hot_update ==>
            outcome(r, Some((ErrorKind::Validation, "任务已开启混淆，但未配置代码包 Git 地址，无法执行混淆"@))),
        !has_code_repo && !(enable_obfuscation && !is_hot_update) ==> r == Ok::<ObfuscationStep, AppError>(ObfuscationStep::NoCodeRepo),
{
    if has_code_repo {
        if enable_obfuscation && !is_hot_update {
            Ok(ObfuscationStep::Run)
        } else if enable_obfuscation {
            Ok(ObfuscationStep::SkipHotUpdate)
        } else {
            Ok(ObfuscationStep::SkipDisabled)
        }
    } else if enable_obfuscation && !is_hot_update {
        Err(AppError::Validation("任务已开启混淆，但未配置代码包 Git 地址，无法执行混淆".to_string()))
    } else {
        Ok(ObfuscationStep::NoCodeRepo)
    }
}

/// The log line of a skipped obfuscation.
pub fn obfuscation_skip_line(step: ObfuscationStep) -> (r: Option<&'static str>)
    ensures
        step == ObfuscationStep::SkipHotUpdate ==> (r matches Some(s) && s@ == "任务已开启混淆，但项目为热更新模式，跳过混淆阶段"@),
        step == ObfuscationStep::SkipDisabled ==> (r matches Some(s) && s@ == "任务未开启混淆，跳过混淆阶段"@),
        step == ObfuscationStep::Run || step == ObfuscationStep::NoCodeRepo ==> r is None,
{
    match step {
        ObfuscationStep::SkipHotUpdate => Some("任务已开启混淆，但项目为热更新模式，跳过混淆阶段"),
        ObfuscationStep::SkipDisabled => Some("任务未开启混淆，跳过混淆阶段"),
        _ => None,
    }
}

/// Whether obfuscation changed the code and so is committed: the classic
/// pass changed `game.js`, or (in AST mode) either pass did.
pub fn obfuscation_commit_needed(mode: ObfuscationMode, classic_copied_back: bool, ast_copied_back: bool) -> (r: bool)
    ensures
        r == match mode {
            ObfuscationMode::Classic => classic_copied_back,
            ObfuscationMode::Ast => classic_copied_back || ast_copied_back,
        },
{
    match mode {
        ObfuscationMode::Classic => classic_copied_back,
        ObfuscationMode::Ast => classic_copied_back || ast_copied_back,
    }
}

} // verus!
