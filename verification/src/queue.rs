//! The build queue: starting a build of a list of tasks, how each task of
//! the queue ends, what is remembered of each task for the notifications,
//! and the texts of the queue's log lines.

use vstd::prelude::*;
use crate::error::{AppError, ErrorKind, Problem, outcome};
use crate::feishu::FailedTaskNotification;
use crate::models::{AppSettings, PackageTask, PrepProject, Project, TaskGroup};
use crate::state::{AppCore, context_problem, entry_views, first_missing_task, first_match, lemma_first_match, lemma_no_match, prepared_views, task_context, task_listed, task_matches, task_missing};
use crate::tasks::{listed_task, package_task_problem, steps_loaded};
use crate::param_map::key_lt;
use crate::text::{concat2, concat3, copy_string, push_str, views};

verus! {

/// The prep projects found for the steps of each task of a build, before
/// and after its build.
#[derive(Debug, Clone, PartialEq)]
pub struct LoadedSteps {
    pub pre: Vec<Result<PrepProject, String>>,
    pub post: Vec<Result<PrepProject, String>>,
}

/// The first problem among the first `n` tasks of a build, each checked
/// with the prep projects found for it.
pub open spec fn tasks_problem(s: AppSettings, ids: Seq<Seq<char>>, loaded: Seq<LoadedSteps>, n: nat) -> Option<Problem>
    decreases n,
{
    if n == 0 {
        None
    } else {
        let p = tasks_problem(s, ids, loaded, (n - 1) as nat);
        if p is Some {
            p
        } else {
            package_task_problem(s, listed_task(s, ids[n - 1]), loaded[n - 1].pre@, loaded[n - 1].post@)
        }
    }
}

/// Why a build of the listed tasks cannot start, if anything: a build is
/// under way, no task is listed, a listed task is missing, or a task cannot
/// be built.
pub open spec fn start_problem(c: AppCore, ids: Seq<Seq<char>>, loaded: Seq<LoadedSteps>) -> Option<Problem> {
    if c.build_in_progress {
        Some((ErrorKind::Conflict, "已有打包任务在进行中"@))
    } else if ids.len() == 0 {
        Some((ErrorKind::Validation, "请至少选择一个任务"@))
    } else if first_missing_task(c.settings, ids) is Some {
        Some(task_missing(ids[first_missing_task(c.settings, ids)->0]))
    } else {
        tasks_problem(c.settings, ids, loaded, ids.len())
    }
}

proof fn lemma_tasks_problem_stable(s: AppSettings, ids: Seq<Seq<char>>, loaded: Seq<LoadedSteps>, n: nat, m: nat)
    requires
        n <= m,
        tasks_problem(s, ids, loaded, n) is Some,
    ensures
        tasks_problem(s, ids, loaded, m) == tasks_problem(s, ids, loaded, n),
    decreases m - n,
{
    if n < m {
        lemma_tasks_problem_stable(s, ids, loaded, n, (m - 1) as nat);
    }
}

/// Whether the parameters of every prep project the steps name are sorted
/// by key, each key once.
pub fn check_actions_wf(actions: &Vec<crate::models::TaskPrepAction>) -> (r: bool)
    ensures
        r == crate::prep_actions::actions_wf(actions@),
{
    let mut j: usize = 0;
    while j < actions.len()
        invariant
            j <= actions@.len(),
            crate::prep_actions::actions_wf(actions@.take(j as int)),
        decreases actions.len() - j,
    {
        let ok = match &actions[j] {
            crate::models::TaskPrepAction::Single { params, .. } => params.is_wf(),
            crate::models::TaskPrepAction::Conditional { on_match_targets, on_mismatch_targets, .. } => {
                check_targets_wf(on_match_targets) && check_targets_wf(on_mismatch_targets)
            },
        };
        if !ok {
            proof {
                if crate::prep_actions::actions_wf(actions@) {
                    assert(actions@[j as int] == actions@[j as int]);
                }
            }
            return false;
        }
        proof {
            let next = actions@.take(j + 1);
            assert forall|i: int| 0 <= i < next.len() implies #[trigger] next[i] == actions@[i] by {}
            assert forall|i: int| 0 <= i < j implies #[trigger] next[i] == actions@.take(j as int)[i] by {}
        }
        j = j + 1;
    }
    assert(actions@.take(actions@.len() as int) =~= actions@);
    true
}

fn check_targets_wf(targets: &Vec<crate::models::TaskPrepTarget>) -> (r: bool)
    ensures
        r == forall|k: int| 0 <= k < targets@.len() ==> (#[trigger] targets@[k]).params.wf(),
{
    let mut k: usize = 0;
    while k < targets.len()
        invariant
            k <= targets@.len(),
            forall|q: int| 0 <= q < k ==> (#[trigger] targets@[q]).params.wf(),
        decreases targets.len() - k,
    {
        if !targets[k].params.is_wf() {
            return false;
        }
        k = k + 1;
    }
    true
}

/// Whether the prep projects found for a task's steps fit them (see `steps_loaded`).
pub fn check_steps_loaded(task: &PackageTask, loaded: &LoadedSteps) -> (r: bool)
    ensures
        r == steps_loaded(*task, loaded.pre@, loaded.post@),
{
    if !check_actions_wf(&task.pre_build_actions) || !check_actions_wf(&task.post_build_actions) {
        return false;
    }
    let pre_ids = crate::prep_actions::prep_target_ids(&task.pre_build_actions);
    let post_ids = crate::prep_actions::prep_target_ids(&task.post_build_actions);
    pre_ids.len() == loaded.pre.len() && post_ids.len() == loaded.post.len()
}

/// Whether `start_build` may be called with these tasks and the prep
/// projects found for them: one `LoadedSteps` per id, fitting the steps of
/// each listed task.
pub open spec fn build_steps_ready(c: AppCore, ids: Seq<Seq<char>>, loaded: Seq<LoadedSteps>) -> bool {
    &&& loaded.len() == ids.len()
    &&& forall|k: int| 0 <= k < ids.len() && task_listed(c.settings, #[trigger] ids[k]) ==>
        steps_loaded(listed_task(c.settings, ids[k]), loaded[k].pre@, loaded[k].post@)
}

impl AppCore {
    /// Tests what `start_build` requires of the prep projects found.
    pub fn check_build_steps(&self, task_ids: &Vec<String>, loaded: &Vec<LoadedSteps>) -> (r: bool)
        ensures
            r == build_steps_ready(*self, views(task_ids@), loaded@),
    {
        let ghost ids = views(task_ids@);
        if loaded.len() != task_ids.len() {
            return false;
        }
        let mut k: usize = 0;
        while k < task_ids.len()
            invariant
                k <= task_ids@.len(),
                loaded@.len() == task_ids@.len(),
                ids == views(task_ids@),
                forall|q: int| 0 <= q < k && task_listed(self.settings, #[trigger] ids[q]) ==>
                    steps_loaded(listed_task(self.settings, ids[q]), loaded@[q].pre@, loaded@[q].post@),
            decreases task_ids.len() - k,
        {
            match crate::runtime::find_task_index(&self.settings.package_tasks, task_ids[k].as_str()) {
                Some(i) => {
                    proof {
                        lemma_first_match(self.settings.package_tasks@, task_matches(ids[k as int]), i as int);
                        assert(listed_task(self.settings, ids[k as int]) == self.settings.package_tasks@[i as int]);
                    }
                    if !check_steps_loaded(&self.settings.package_tasks[i], &loaded[k]) {
                        return false;
                    }
                },
                None => {
                    assert(!task_listed(self.settings, ids[k as int]));
                },
            }
            k = k + 1;
        }
        true
    }
}

impl AppCore {
    /// Checks the listed tasks and starts a build of them: the build flag
    /// is taken, every id must name a task, every task must be buildable
    /// (given the prep projects found for its steps, one `LoadedSteps` per
    /// id), and then each task's entry is readied. On an error the build
    /// flag is given back and nothing else changes.
    pub fn start_build(&mut self, task_ids: &Vec<String>, loaded: &Vec<LoadedSteps>) -> (r: Result<(), AppError>)
        requires
            loaded@.len() == task_ids@.len(),
            forall|k: int| 0 <= k < task_ids@.len() && task_listed(old(self).settings, #[trigger] views(task_ids@)[k]) ==>
                steps_loaded(listed_task(old(self).settings, views(task_ids@)[k]), loaded@[k].pre@, loaded@[k].post@),
        ensures
            outcome(r, start_problem(*old(self), views(task_ids@), loaded@)),
            r is Err && old(self).build_in_progress ==> *final(self) == *old(self),
            r is Err && !old(self).build_in_progress ==> {
                &&& !final(self).build_in_progress
                &&& final(self).cancel_signal is None
                &&& final(self).active_task_id is None
                &&& final(self).settings == old(self).settings
                &&& final(self).runtime == old(self).runtime
                &&& final(self).git_config == old(self).git_config
                &&& final(self).runtime_revision == old(self).runtime_revision
                &&& final(self).persisted_revision == old(self).persisted_revision
            },
            r is Ok ==> {
                &&& final(self).build_in_progress
                &&& final(self).cancel_signal == Some(false)
                &&& entry_views(final(self).runtime.package_tasks@) == prepared_views(entry_views(old(self).runtime.package_tasks@), views(task_ids@))
                &&& final(self).settings == old(self).settings
                &&& final(self).git_config == old(self).git_config
                &&& final(self).active_task_id == old(self).active_task_id
            },
    {
        let ghost ids = views(task_ids@);
        self.try_start_build()?;
        if task_ids.len() == 0 {
            self.finish_build();
            return Err(AppError::Validation("请至少选择一个任务".to_string()));
        }
        let positions = match self.task_positions(task_ids) {
            Ok(p) => p,
            Err(e) => {
                self.finish_build();
                return Err(e);
            },
        };
        let checked = self.check_build_tasks(task_ids, &positions, loaded);
        if checked.is_err() {
            self.finish_build();
            return checked;
        }
        let p = self.prepare_tasks_for_build(task_ids);
        if p.is_err() {
            self.finish_build();
            return p;
        }
        Ok(())
    }

    /// The position of the (first) task of each id, or the error for the
    /// first id that names none.
    fn task_positions(&self, task_ids: &Vec<String>) -> (r: Result<Vec<usize>, AppError>)
        ensures
            match first_missing_task(self.settings, views(task_ids@)) {
                Some(m) => outcome(r, Some(task_missing(views(task_ids@)[m]))),
                None => r matches Ok(p) && p@.len() == task_ids@.len()
                    && forall|q: int| 0 <= q < p@.len() ==> (#[trigger] p@[q]) < self.settings.package_tasks@.len()
                        && first_match(self.settings.package_tasks@, task_matches(views(task_ids@)[q])) == Some(p@[q] as int),
            },
    {
        let ghost ids = views(task_ids@);
        let mut positions: Vec<usize> = Vec::new();
        let mut k: usize = 0;
        while k < task_ids.len()
            invariant
                k <= ids.len(),
                ids == views(task_ids@),
                positions@.len() == k,
                forall|q: int| 0 <= q < k ==> (#[trigger] positions@[q]) < self.settings.package_tasks@.len()
                    && first_match(self.settings.package_tasks@, task_matches(ids[q])) == Some(positions@[q] as int),
                forall|q: int| 0 <= q < k ==> task_listed(self.settings, #[trigger] ids[q]),
            decreases task_ids.len() - k,
        {
            assert(ids[k as int] == task_ids@[k as int]@);
            match crate::runtime::find_task_index(&self.settings.package_tasks, task_ids[k].as_str()) {
                Some(i) => {
                    proof { lemma_first_match(self.settings.package_tasks@, task_matches(ids[k as int]), i as int); }
                    positions.push(i);
                },
                None => {
                    proof { lemma_first_match(ids, |id: Seq<char>| !task_listed(self.settings, id), k as int); }
                    return Err(AppError::NotFound(concat2("未找到任务 ", task_ids[k].as_str())));
                },
            }
            k = k + 1;
        }
        proof { lemma_no_match(ids, |id: Seq<char>| !task_listed(self.settings, id)); }
        Ok(positions)
    }

    /// Checks, in order, that each task of a build can be built.
    fn check_build_tasks(&self, task_ids: &Vec<String>, positions: &Vec<usize>, loaded: &Vec<LoadedSteps>) -> (r: Result<(), AppError>)
        requires
            loaded@.len() == task_ids@.len(),
            positions@.len() == task_ids@.len(),
            forall|q: int| 0 <= q < positions@.len() ==> (#[trigger] positions@[q]) < self.settings.package_tasks@.len()
                && first_match(self.settings.package_tasks@, task_matches(views(task_ids@)[q])) == Some(positions@[q] as int),
            forall|k: int| 0 <= k < task_ids@.len() && task_listed(self.settings, #[trigger] views(task_ids@)[k]) ==>
                steps_loaded(listed_task(self.settings, views(task_ids@)[k]), loaded@[k].pre@, loaded@[k].post@),
        ensures
            outcome(r, tasks_problem(self.settings, views(task_ids@), loaded@, task_ids@.len() as nat)),
    {
        let ghost ids = views(task_ids@);
        let mut k: usize = 0;
        while k < task_ids.len()
            invariant
                k <= ids.len(),
                ids == views(task_ids@),
                loaded@.len() == ids.len(),
                positions@.len() == ids.len(),
                forall|q: int| 0 <= q < positions@.len() ==> (#[trigger] positions@[q]) < self.settings.package_tasks@.len()
                    && first_match(self.settings.package_tasks@, task_matches(ids[q])) == Some(positions@[q] as int),
                forall|q: int| 0 <= q < ids.len() && task_listed(self.settings, #[trigger] ids[q]) ==>
                    steps_loaded(listed_task(self.settings, ids[q]), loaded@[q].pre@, loaded@[q].post@),
                tasks_problem(self.settings, ids, loaded@, k as nat) is None,
            decreases task_ids.len() - k,
        {
            let i = positions[k];
            proof {
                assert(positions@[k as int] < self.settings.package_tasks@.len());
                assert(first_match(self.settings.package_tasks@, task_matches(ids[k as int])) == Some(i as int));
                crate::tasks::lemma_listed(self.settings, ids[k as int]);
                assert(listed_task(self.settings, ids[k as int]) == self.settings.package_tasks@[i as int]);
            }
            let v = self.validate_package_task(&self.settings.package_tasks[i], &loaded[k].pre, &loaded[k].post);
            if v.is_err() {
                proof { lemma_tasks_problem_stable(self.settings, ids, loaded@, (k + 1) as nat, ids.len()); }
                return v;
            }
            k = k + 1;
        }
        Ok(())
    }

    /// What is remembered of a queued task for the notifications: its name,
    /// its project's name and its branch, when it is listed and its context
    /// resolves.
    pub fn task_snapshot(&self, task_id: &str) -> (r: Option<QueueTaskSnapshot>)
        ensures
            r is Some <==> task_listed(self.settings, task_id@) && context_problem(self.settings, listed_task(self.settings, task_id@)) is None,
            r matches Some(s) ==> s.task_id@ == task_id@
                && s.task_name@ == listed_task(self.settings, task_id@).name@
                && (exists|c: (Project, TaskGroup)| #[trigger] task_context(self.settings, listed_task(self.settings, task_id@), c)
                    && s.project_name == c.0.name && s.branch == c.1.branch),
    {
        let task = match self.find_task(task_id) {
            Ok(t) => t,
            Err(_) => {
                proof { crate::tasks::lemma_listed(self.settings, task_id@); }
                return None;
            },
        };
        proof { crate::tasks::lemma_listed(self.settings, task_id@); }
        match self.resolve_task_context(&task) {
            Ok((project, group)) => {
                let ghost c = (project, group);
                assert(task_context(self.settings, listed_task(self.settings, task_id@), c));
                Some(QueueTaskSnapshot {
                    task_id: copy_string(task_id),
                    task_name: task.name,
                    project_name: project.name,
                    branch: group.branch,
                })
            },
            Err(_) => None,
        }
    }

    /// The project of a queued task whose main repository is cleaned when
    /// the queue ends: that of its context, when it is listed and its
    /// context resolves.
    pub fn cleanup_project_id(&self, task_id: &str) -> (r: Option<String>)
        ensures
            r is Some <==> task_listed(self.settings, task_id@) && context_problem(self.settings, listed_task(self.settings, task_id@)) is None,
            r matches Some(p) ==> exists|c: (Project, TaskGroup)| #[trigger] task_context(self.settings, listed_task(self.settings, task_id@), c)
                && p == c.0.id,
    {
        let task = match self.find_task(task_id) {
            Ok(t) => t,
            Err(_) => {
                proof { crate::tasks::lemma_listed(self.settings, task_id@); }
                return None;
            },
        };
        proof { crate::tasks::lemma_listed(self.settings, task_id@); }
        match self.resolve_task_context(&task) {
            Ok((project, group)) => {
                let ghost c = (project, group);
                assert(task_context(self.settings, listed_task(self.settings, task_id@), c));
                Some(project.id)
            },
            Err(_) => None,
        }
    }
}

/// A queued task as the notifications name it.
#[derive(Debug, Clone, PartialEq)]
pub struct QueueTaskSnapshot {
    pub task_id: String,
    pub task_name: String,
    pub project_name: String,
    pub branch: String,
}

/// How a task of the queue ended.
#[derive(Debug, Clone, Copy, PartialEq, Eq, Structural)]
pub enum TaskOutcome {
    Succeeded,
    /// Stopped: its build was canceled, or a stop was requested meanwhile.
    Canceled,
    Failed,
}

pub fn task_outcome(result: &Result<(), AppError>, cancel_requested: bool) -> (r: TaskOutcome)
    ensures
        result is Ok ==> r == TaskOutcome::Succeeded,
        result matches Err(e) && (e is Canceled || cancel_requested) ==> r == TaskOutcome::Canceled,
        result matches Err(e) && !(e is Canceled || cancel_requested) ==> r == TaskOutcome::Failed,
{
    match result {
        Ok(()) => TaskOutcome::Succeeded,
        Err(AppError::Canceled(_)) => TaskOutcome::Canceled,
        Err(_) => if cancel_requested { TaskOutcome::Canceled } else { TaskOutcome::Failed },
    }
}

/// What the queue does before its task at a position.
#[derive(Debug, Clone, Copy, PartialEq, Eq, Structural)]
pub enum QueueStart {
    /// Run the task at this position.
    Run(usize),
    /// Mark the tasks from this position on as canceled, and stop.
    CancelFrom(usize),
    /// Every task has had its turn.
    Done,
}

/// What the queue does after one of its tasks ended.
#[derive(Debug, Clone, Copy, PartialEq, Eq, Structural)]
pub enum QueueNext {
    /// Go on with the task at this position (a failure does not stop the queue).
    Continue(usize),
    /// Mark the tasks from this position on as canceled, and stop.
    CancelFrom(usize),
}

pub open spec fn queue_start_of(index: nat, count: nat, cancel_requested: bool) -> QueueStart {
    if index >= count {
        QueueStart::Done
    } else if cancel_requested {
        QueueStart::CancelFrom(index as usize)
    } else {
        QueueStart::Run(index as usize)
    }
}

pub open spec fn queue_next_of(outcome: TaskOutcome, index: nat) -> QueueNext {
    match outcome {
        TaskOutcome::Canceled => QueueNext::CancelFrom((index + 1) as usize),
        _ => QueueNext::Continue((index + 1) as usize),
    }
}

/// Before the task at `index` of `count`: none is left, or a stop was
/// requested and it and the rest are canceled, or it runs.
pub fn queue_start(index: usize, count: usize, cancel_requested: bool) -> (r: QueueStart)
    ensures
        r == queue_start_of(index as nat, count as nat, cancel_requested),
{
    if index >= count {
        QueueStart::Done
    } else if cancel_requested {
        QueueStart::CancelFrom(index)
    } else {
        QueueStart::Run(index)
    }
}

/// After the task at `index` of `count` ended: a stopped task cancels the
/// tasks after it; a success or a failure goes on with the next one.
pub fn queue_next(outcome: TaskOutcome, index: usize, count: usize) -> (r: QueueNext)
    requires
        index < count,
    ensures
        r == queue_next_of(outcome, index as nat),
{
    match outcome {
        TaskOutcome::Canceled => QueueNext::CancelFrom(index + 1),
        _ => QueueNext::Continue(index + 1),
    }
}

/// Over a queue of `count` tasks, whatever each ended with: after a failure
/// the next task still gets its turn (it runs unless a stop was requested),
/// and after a stopped task every later task is canceled and none runs.
pub proof fn law_queue_failure_goes_on(index: nat, count: nat, cancel_requested: bool)
    requires
        index + 1 < count,
        count <= usize::MAX,
    ensures
        queue_next_of(TaskOutcome::Failed, index) == QueueNext::Continue((index + 1) as usize),
        queue_start_of(index + 1, count, cancel_requested) == (if cancel_requested {
            QueueStart::CancelFrom((index + 1) as usize)
        } else {
            QueueStart::Run((index + 1) as usize)
        }),
        queue_next_of(TaskOutcome::Canceled, index) == QueueNext::CancelFrom((index + 1) as usize),
{
}

/// The failure card of a task: named as remembered, or by its id with an
/// unknown project and branch (and no log) when nothing was remembered.
pub fn failed_notification(
    task_id: &str,
    snapshot: Option<&QueueTaskSnapshot>,
    log_path: Option<String>,
    failed_at: String,
    error: String,
) -> (r: FailedTaskNotification)
    ensures
        r.failed_at == failed_at,
        r.error == error,
        match snapshot {
            Some(s) => r.task_name@ == s.task_name@ && r.project_name@ == s.project_name@ && r.branch@ == s.branch@ && r.log_path == log_path,
            None => r.task_name@ == task_id@ && r.project_name@ == "未知项目"@ && r.branch@ == "未知分支"@ && r.log_path is None,
        },
{
    match snapshot {
        Some(s) => FailedTaskNotification {
            task_name: copy_string(s.task_name.as_str()),
            project_name: copy_string(s.project_name.as_str()),
            branch: copy_string(s.branch.as_str()),
            failed_at,
            error,
            log_path,
        },
        None => FailedTaskNotification {
            task_name: copy_string(task_id),
            project_name: "未知项目".to_string(),
            branch: "未知分支".to_string(),
            failed_at,
            error,
            log_path: None,
        },
    }
}

/// The first log line of a failed task.
pub fn failure_reason_line(error: &AppError) -> (r: String)
    ensures
        r@ == "任务失败原因: "@ + error.spec_message(),
{
    concat2("任务失败原因: ", error.message())
}

/// A task of a build whose project's main repository is cleaned when the
/// build ends.
#[derive(Debug, Clone, PartialEq)]
pub struct CleanupTarget {
    pub task_id: String,
    pub project_id: String,
}

/// The tasks of a project whose main repository is cleaned, in build order.
#[derive(Debug, Clone, PartialEq)]
pub struct CleanupGroup {
    pub project_id: String,
    pub task_ids: Vec<String>,
}

/// The ids of the targets' tasks of project `project`, in order.
pub open spec fn tasks_of_project(targets: Seq<CleanupTarget>, project: Seq<char>) -> Seq<Seq<char>>
    decreases targets.len(),
{
    if targets.len() == 0 {
        Seq::empty()
    } else {
        let rest = tasks_of_project(targets.drop_last(), project);
        if targets.last().project_id@ == project { rest.push(targets.last().task_id@) } else { rest }
    }
}

/// `groups` holds one group per project of the targets, in ascending order
/// of project id, each with its tasks in order.
pub open spec fn cleanup_groups_of(targets: Seq<CleanupTarget>, groups: Seq<CleanupGroup>) -> bool {
    &&& forall|i: int, j: int| 0 <= i < j < groups.len() ==> key_lt(#[trigger] groups[i].project_id@, #[trigger] groups[j].project_id@)
    &&& forall|i: int| 0 <= i < groups.len() ==>
        views((#[trigger] groups[i]).task_ids@) == tasks_of_project(targets, groups[i].project_id@)
    &&& forall|i: int| 0 <= i < groups.len() ==> (#[trigger] groups[i]).task_ids@.len() > 0
    &&& forall|t: int| 0 <= t < targets.len() ==>
        exists|i: int| 0 <= i < groups.len() && (#[trigger] groups[i]).project_id@ == (#[trigger] targets[t]).project_id@
}

proof fn lemma_tasks_of_absent_project(targets: Seq<CleanupTarget>, project: Seq<char>)
    requires
        forall|t: int| 0 <= t < targets.len() ==> (#[trigger] targets[t]).project_id@ != project,
    ensures
        tasks_of_project(targets, project) == Seq::<Seq<char>>::empty(),
    decreases targets.len(),
{
    if targets.len() > 0 {
        let rest = targets.drop_last();
        assert forall|t: int| 0 <= t < rest.len() implies (#[trigger] rest[t]).project_id@ != project by {
            assert(rest[t] == targets[t]);
        }
        lemma_tasks_of_absent_project(rest, project);
        assert(targets.last() == targets[targets.len() - 1]);
    }
}

/// Groups the cleanup targets of a build by project: projects in ascending
/// order of id, each with its tasks in build order.
pub fn group_cleanup_targets(targets: &Vec<CleanupTarget>) -> (groups: Vec<CleanupGroup>)
    ensures
        cleanup_groups_of(targets@, groups@),
{
    let mut groups: Vec<CleanupGroup> = Vec::new();
    let mut n: usize = 0;
    while n < targets.len()
        invariant
            n <= targets@.len(),
            cleanup_groups_of(targets@.take(n as int), groups@),
        decreases targets.len() - n,
    {
        let ghost before = groups@;
        let ghost prefix = targets@.take(n as int);
        let ghost next = targets@.take(n + 1);
        assert(next.drop_last() =~= prefix);
        assert(next.last() == targets@[n as int]);
        let target = &targets[n];
        let project = crate::text::chars_of(target.project_id.as_str());
        let mut found: Option<usize> = None;
        let mut g: usize = 0;
        while g < groups.len()
            invariant
                g <= groups@.len(),
                groups@ == before,
                project@ == target.project_id@,
                found matches Some(i) ==> i < groups@.len() && groups@[i as int].project_id@ == project@,
                found is None ==> forall|q: int| 0 <= q < g ==> (#[trigger] groups@[q]).project_id@ != project@,
            decreases groups.len() - g,
        {
            if found.is_none() && crate::text::str_eq(groups[g].project_id.as_str(), target.project_id.as_str()) {
                found = Some(g);
            }
            g = g + 1;
        }
        match found {
            Some(i) => {
                let mut group = groups.remove(i);
                let ghost old_tasks = group.task_ids@;
                group.task_ids.push(copy_string(target.task_id.as_str()));
                assert(views(group.task_ids@) =~= views(old_tasks).push(target.task_id@));
                groups.insert(i, group);
                assert(groups@ =~= before.update(i as int, group));
                assert forall|q: int| 0 <= q < groups@.len() implies
                    views((#[trigger] groups@[q]).task_ids@) == tasks_of_project(next, groups@[q].project_id@) by {
                    if q != i {
                        assert(groups@[q] == before[q]);
                        if before[q].project_id@ == target.project_id@ {
                            assert(key_lt(before[q].project_id@, before[i as int].project_id@) || key_lt(before[i as int].project_id@, before[q].project_id@));
                            crate::param_map::lemma_key_lt_irreflexive(target.project_id@);
                        }
                    }
                }
                assert forall|t: int| 0 <= t < next.len() implies
                    exists|q: int| 0 <= q < groups@.len() && (#[trigger] groups@[q]).project_id@ == (#[trigger] next[t]).project_id@ by {
                    if t < n {
                        assert(next[t] == prefix[t]);
                        let q = choose|q: int| 0 <= q < before.len() && (#[trigger] before[q]).project_id@ == prefix[t].project_id@;
                        assert(groups@[q].project_id@ == before[q].project_id@);
                    } else {
                        assert(groups@[i as int].project_id@ == next[t].project_id@);
                    }
                }
            },
            None => {
                let mut p: usize = 0;
                while p < groups.len() && !crate::param_map::less_than(&project, &crate::text::chars_of(groups[p].project_id.as_str()))
                    invariant
                        p <= groups@.len(),
                        groups@ == before,
                        project@ == target.project_id@,
                        forall|q: int| 0 <= q < p ==> !key_lt(project@, (#[trigger] groups@[q]).project_id@),
                    decreases groups.len() - p,
                {
                    p = p + 1;
                }
                let mut tasks: Vec<String> = Vec::new();
                tasks.push(copy_string(target.task_id.as_str()));
                let group = CleanupGroup { project_id: copy_string(target.project_id.as_str()), task_ids: tasks };
                groups.insert(p, group);
                assert(groups@ =~= before.insert(p as int, group));
                proof {
                    assert forall|t: int| 0 <= t < prefix.len() implies (#[trigger] prefix[t]).project_id@ != project@ by {
                        if prefix[t].project_id@ == project@ {
                            let q = choose|q: int| 0 <= q < before.len() && (#[trigger] before[q]).project_id@ == prefix[t].project_id@;
                        }
                    }
                    lemma_tasks_of_absent_project(prefix, project@);
                    assert(views(group.task_ids@) =~= seq![target.task_id@]);
                    assert(tasks_of_project(next, project@) =~= seq![target.task_id@]);
                    assert forall|a: int, b: int| 0 <= a < b < groups@.len() implies
                        key_lt(#[trigger] groups@[a].project_id@, #[trigger] groups@[b].project_id@) by {
                        if a == p {
                            let m = b - 1;
                            assert(groups@[b] == before[m]);
                            if m > p {
                                crate::param_map::lemma_key_lt_transitive(project@, before[p as int].project_id@, before[m].project_id@);
                            }
                        } else if b == p {
                            assert(groups@[a] == before[a]);
                            crate::param_map::lemma_key_lt_total(before[a].project_id@, project@);
                        } else {
                            let a0 = if a < p { a } else { a - 1 };
                            let b0 = if b < p { b } else { b - 1 };
                            assert(groups@[a] == before[a0] && groups@[b] == before[b0] && a0 < b0);
                        }
                    }
                    assert forall|q: int| 0 <= q < groups@.len() implies
                        views((#[trigger] groups@[q]).task_ids@) == tasks_of_project(next, groups@[q].project_id@) by {
                        if q != p {
                            let q0 = if q < p { q } else { q - 1 };
                            assert(groups@[q] == before[q0]);
                        }
                    }
                    assert forall|q: int| 0 <= q < groups@.len() implies (#[trigger] groups@[q]).task_ids@.len() > 0 by {
                        if q != p {
                            let q0 = if q < p { q } else { q - 1 };
                            assert(groups@[q] == before[q0]);
                        }
                    }
                    assert forall|t: int| 0 <= t < next.len() implies
                        exists|q: int| 0 <= q < groups@.len() && (#[trigger] groups@[q]).project_id@ == (#[trigger] next[t]).project_id@ by {
                        if t < n {
                            assert(next[t] == prefix[t]);
                            let q0 = choose|q: int| 0 <= q < before.len() && (#[trigger] before[q]).project_id@ == prefix[t].project_id@;
                            let q = if q0 < p { q0 } else { q0 + 1 };
                            assert(groups@[q] == before[q0]);
                        } else {
                            assert(groups@[p as int].project_id@ == next[t].project_id@);
                        }
                    }
                }
            },
        }
        n = n + 1;
    }
    assert(targets@.take(targets@.len() as int) =~= targets@);
    groups
}

/// What cleaning a project's main repository at the end of a queue found.
#[derive(Debug, Clone, PartialEq)]
pub enum MainRepoCleanup {
    /// The project is gone.
    ProjectMissing,
    /// The repository is not there.
    RepoMissing,
    Cleaned { staged: bool, unstaged: bool, untracked: bool },
    Failed { error: String },
}

pub open spec fn word(b: bool) -> Seq<char> {
    if b { "true"@ } else { "false"@ }
}

/// The log line written to each task of a project about its cleanup.
pub open spec fn cleanup_text(project_id: Seq<char>, repo_dir: Seq<char>, c: MainRepoCleanup) -> Seq<char> {
    match c {
        MainRepoCleanup::ProjectMissing => "全部任务结束后清理主工程仓库时跳过：未找到项目 "@ + project_id,
        MainRepoCleanup::RepoMissing => "全部任务结束后清理主工程仓库时跳过：仓库不存在 "@ + repo_dir,
        MainRepoCleanup::Cleaned { staged, unstaged, untracked } =>
            "全部任务结束后已清理主工程仓库: path="@ + repo_dir + ", staged="@ + word(staged) + ", unstaged="@ + word(unstaged)
                + ", untracked="@ + word(untracked),
        MainRepoCleanup::Failed { error } => "全部任务结束后清理主工程仓库失败: path="@ + repo_dir + ", error="@ + error@,
    }
}

fn word_str(b: bool) -> (r: &'static str)
    ensures
        r@ == word(b),
{
    if b { "true" } else { "false" }
}

pub fn cleanup_message(project_id: &str, repo_dir: &str, c: &MainRepoCleanup) -> (r: String)
    ensures
        r@ == cleanup_text(project_id@, repo_dir@, *c),
{
    match c {
        MainRepoCleanup::ProjectMissing => concat2("全部任务结束后清理主工程仓库时跳过：未找到项目 ", project_id),
        MainRepoCleanup::RepoMissing => concat2("全部任务结束后清理主工程仓库时跳过：仓库不存在 ", repo_dir),
        MainRepoCleanup::Cleaned { staged, unstaged, untracked } => {
            let mut m = concat2("全部任务结束后已清理主工程仓库: path=", repo_dir);
            push_str(&mut m, ", staged=");
            push_str(&mut m, word_str(*staged));
            push_str(&mut m, ", unstaged=");
            push_str(&mut m, word_str(*unstaged));
            push_str(&mut m, ", untracked=");
            push_str(&mut m, word_str(*untracked));
            m
        },
        MainRepoCleanup::Failed { error } => {
            let mut m = concat2("全部任务结束后清理主工程仓库失败: path=", repo_dir);
            push_str(&mut m, ", error=");
            push_str(&mut m, error.as_str());
            m
        },
    }
}

} // verus!
