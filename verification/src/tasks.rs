//! Package tasks: what a request for one must satisfy, the task it makes,
//! where a new task goes in its group, and what creating, changing,
//! reordering, copying and deleting tasks do to the state.

use vstd::prelude::*;
use crate::error::{AppError, ErrorKind, Problem, outcome};
use crate::json::{json_error, spec_json_error};
use crate::copies::same_task;
use crate::ids::IdCounter;
use crate::git::UnstagedCleanupResult;
use crate::models::{AppSettings, GitConfig, PackageTask, PackageTaskRequest, PackageTaskStatus, PrepProject, Project, TaskGroup, TaskPrivateReposCleanupResponse, TaskProjectConfig};
use crate::prep_actions::{actions_wf, as_validation, steps_problem, targets_before, validate_task_prep_actions};
use crate::runtime::{entries_for_tasks, merged_task, settings_stripped};
use crate::migration::settings_normalized;
use crate::state::{
    AppCore, EntryView, context_problem, entry_for, entry_views, first_entry_position, first_match, fresh_view,
    group_applied, group_matches, lemma_first_entry_sound, lemma_first_match, lemma_first_match_some, lemma_no_match,
    opt_view, prepared_views, project_matches, task_context, task_listed, task_matches, task_missing,
};
use crate::text::{concat2, copy_string, eq_ignore_case, eq_ignore_ascii_case, is_blank, is_blank_str, str_eq, trim, trim_str, views};

verus! {

/// Another task of the same group already has the name (ignoring ASCII case).
pub open spec fn task_name_taken(t: PackageTask, req: PackageTaskRequest, current: Option<Seq<char>>) -> bool {
    &&& Some(t.id@) != current
    &&& t.task_group_id@ == req.task_group_id@
    &&& eq_ignore_case(t.name@, trim(req.name@))
}

/// What is wrong with a request for a task, if anything, given what parsing
/// its build arguments as JSON reported.
pub open spec fn task_request_problem(
    s: AppSettings,
    req: PackageTaskRequest,
    current: Option<Seq<char>>,
    json_err: Option<Seq<char>>,
) -> Option<Problem> {
    if is_blank(req.name@) {
        Some((ErrorKind::Validation, "任务名称不能为空"@))
    } else if first_match(s.task_groups@, group_matches(trim(req.task_group_id@))) is None {
        Some((ErrorKind::NotFound, "未找到任务组 "@ + trim(req.task_group_id@)))
    } else if json_err is Some {
        Some((ErrorKind::Validation, "构建参数 JSON 无效: "@ + json_err->0))
    } else if req.enable_dead_code_injection && req.dead_code_injection_count == 0 {
        Some((ErrorKind::Validation, "死代码注入数量必须大于 0"@))
    } else if exists|i: int| 0 <= i < s.package_tasks@.len() && task_name_taken(#[trigger] s.package_tasks@[i], req, current) {
        Some((ErrorKind::Conflict, "同一任务组内的任务名称不能重复"@))
    } else {
        None
    }
}

/// Checks a request for a task (`current_task_id`: the task being changed)
/// given the message parsing its build arguments as JSON gave, if any.
pub fn check_task_request(
    settings: &AppSettings,
    request: &PackageTaskRequest,
    current_task_id: Option<&str>,
    json_err: Option<String>,
) -> (r: Result<(), AppError>)
    ensures
        outcome(r, task_request_problem(*settings, *request, match current_task_id { Some(c) => Some(c@), None => None }, opt_view(json_err))),
{
    let ghost current = match current_task_id { Some(c) => Some(c@), None => None };
    if is_blank_str(request.name.as_str()) {
        return Err(AppError::Validation("任务名称不能为空".to_string()));
    }
    let gid = trim_str(request.task_group_id.as_str());
    crate::state::find_group_in(&settings.task_groups, gid.as_str())?;
    if let Some(m) = &json_err {
        return Err(AppError::Validation(concat2("构建参数 JSON 无效: ", m.as_str())));
    }
    if request.enable_dead_code_injection && request.dead_code_injection_count == 0 {
        return Err(AppError::Validation("死代码注入数量必须大于 0".to_string()));
    }
    let name = trim_str(request.name.as_str());
    let mut i: usize = 0;
    while i < settings.package_tasks.len()
        invariant
            i <= settings.package_tasks@.len(),
            name@ == trim(request.name@),
            !is_blank(request.name@),
            first_match(settings.task_groups@, group_matches(trim(request.task_group_id@))) is Some,
            json_err is None,
            !(request.enable_dead_code_injection && request.dead_code_injection_count == 0),
            current == match current_task_id { Some(c) => Some(c@), None => None },
            forall|j: int| 0 <= j < i ==> !task_name_taken(#[trigger] settings.package_tasks@[j], *request, current),
        decreases settings.package_tasks.len() - i,
    {
        let t = &settings.package_tasks[i];
        let other = match current_task_id {
            Some(c) => !str_eq(t.id.as_str(), c),
            None => true,
        };
        if other && str_eq(t.task_group_id.as_str(), request.task_group_id.as_str()) && eq_ignore_ascii_case(t.name.as_str(), name.as_str()) {
            assert(task_name_taken(settings.package_tasks@[i as int], *request, current));
            return Err(AppError::Conflict("同一任务组内的任务名称不能重复".to_string()));
        }
        i = i + 1;
    }
    Ok(())
}

/// Checks a request for a task; its build arguments must parse as JSON.
pub fn validate_task_request(settings: &AppSettings, request: &PackageTaskRequest, current_task_id: Option<&str>) -> (r: Result<(), AppError>)
    ensures
        outcome(r, task_request_problem(*settings, *request, match current_task_id { Some(c) => Some(c@), None => None }, spec_json_error(request.build_args_json@))),
{
    let err = json_error(request.build_args_json.as_str());
    check_task_request(settings, request, current_task_id, err)
}

/// The highest order among the tasks of group `gid` (0 when it has none).
pub open spec fn max_task_order(ts: Seq<PackageTask>, gid: Seq<char>) -> u32
    decreases ts.len(),
{
    if ts.len() == 0 {
        0
    } else {
        let m = max_task_order(ts.drop_last(), gid);
        if ts.last().task_group_id@ == gid && ts.last().order > m { ts.last().order } else { m }
    }
}

/// The order a task added to group `gid` gets: one past the highest
/// (saturating).
pub open spec fn next_order(ts: Seq<PackageTask>, gid: Seq<char>) -> u32 {
    let m = max_task_order(ts, gid);
    if m == u32::MAX { m } else { (m + 1) as u32 }
}

pub fn next_task_order(tasks: &Vec<PackageTask>, group_id: &str) -> (r: u32)
    ensures
        r == next_order(tasks@, group_id@),
{
    let mut m: u32 = 0;
    let mut i: usize = 0;
    while i < tasks.len()
        invariant
            i <= tasks@.len(),
            m == max_task_order(tasks@.take(i as int), group_id@),
        decreases tasks.len() - i,
    {
        assert(tasks@.take(i + 1).drop_last() =~= tasks@.take(i as int));
        let t = &tasks[i];
        if str_eq(t.task_group_id.as_str(), group_id) && t.order > m {
            m = t.order;
        }
        i = i + 1;
    }
    assert(tasks@.take(tasks@.len() as int) =~= tasks@);
    if m == u32::MAX { m } else { m + 1 }
}

/// `t` is the task a request makes with the given id and order in group `g`:
/// trimmed texts, the group's name, id, project and branch, and a fresh
/// pending state.
pub open spec fn made_task(id: String, order: u32, g: TaskGroup, req: PackageTaskRequest, t: PackageTask) -> bool {
    &&& t == (PackageTask {
        id,
        name: t.name,
        group: g.name,
        task_group_id: g.id,
        order,
        progress: 0,
        status: PackageTaskStatus::Pending,
        checked: false,
        project: Some(TaskProjectConfig { project_id: g.project_id, branch: g.branch }),
        code_repo_url: t.code_repo_url,
        asset_repo_url: t.asset_repo_url,
        build_args_json: req.build_args_json,
        enable_obfuscation: req.enable_obfuscation,
        obfuscation_mode: req.obfuscation_mode,
        obfuscation_seed: req.obfuscation_seed,
        enable_dead_code_injection: req.enable_dead_code_injection,
        dead_code_injection_count: req.dead_code_injection_count,
        pre_build_actions: req.pre_build_actions,
        post_build_actions: req.post_build_actions,
        last_log_path: None,
        last_error: None,
        started_at: None,
        finished_at: None,
    })
    &&& t.name@ == trim(req.name@)
    &&& t.code_repo_url@ == trim(req.code_repo_url@)
    &&& t.asset_repo_url@ == trim(req.asset_repo_url@)
}

/// The task a request makes.
pub fn task_from_request(id: String, order: u32, group: &TaskGroup, request: PackageTaskRequest) -> (t: PackageTask)
    ensures
        made_task(id, order, *group, request, t),
{
    let name = trim_str(request.name.as_str());
    let code_repo_url = trim_str(request.code_repo_url.as_str());
    let asset_repo_url = trim_str(request.asset_repo_url.as_str());
    PackageTask {
        id,
        name,
        group: group.name.clone(),
        task_group_id: group.id.clone(),
        order,
        progress: 0,
        status: PackageTaskStatus::Pending,
        checked: false,
        project: Some(TaskProjectConfig { project_id: group.project_id.clone(), branch: group.branch.clone() }),
        code_repo_url,
        asset_repo_url,
        build_args_json: request.build_args_json,
        enable_obfuscation: request.enable_obfuscation,
        obfuscation_mode: request.obfuscation_mode,
        obfuscation_seed: request.obfuscation_seed,
        enable_dead_code_injection: request.enable_dead_code_injection,
        dead_code_injection_count: request.dead_code_injection_count,
        pre_build_actions: request.pre_build_actions,
        post_build_actions: request.post_build_actions,
        last_log_path: None,
        last_error: None,
        started_at: None,
        finished_at: None,
    }
}

/// A task that is running or being stopped.
pub open spec fn is_busy(st: PackageTaskStatus) -> bool {
    st == PackageTaskStatus::Running || st == PackageTaskStatus::Canceling
}

/// The run-time entry a task is shown with: its entry, or an empty pending one.
pub open spec fn shown_entry(c: AppCore, id: Seq<char>) -> EntryView {
    match entry_for(entry_views(c.runtime.package_tasks@), id) {
        Some(x) => x,
        None => fresh_view(id),
    }
}

/// The first listed task with the id.
pub open spec fn listed_task(s: AppSettings, id: Seq<char>) -> PackageTask {
    s.package_tasks@[first_match(s.package_tasks@, task_matches(id))->0]
}

/// Why a task may not be changed now, if anything: it is not listed, or it
/// is running or being stopped (then `busy` is the error).
pub open spec fn idle_problem(c: AppCore, id: Seq<char>, busy: Seq<char>) -> Option<Problem> {
    if !task_listed(c.settings, id) {
        Some(task_missing(id))
    } else if is_busy(shown_entry(c, id).status) {
        Some((ErrorKind::Conflict, busy))
    } else {
        None
    }
}

/// The project a task's context resolves to: its group's project with the
/// group's parameters applied, or the project it is bound to.
pub open spec fn context_project(s: AppSettings, t: PackageTask) -> Project {
    if !is_blank(t.task_group_id@) {
        let g = s.task_groups@[first_match(s.task_groups@, group_matches(t.task_group_id@))->0];
        group_applied(s.projects@[first_match(s.projects@, project_matches(g.project_id@))->0], g.params)
    } else {
        s.projects@[first_match(s.projects@, project_matches(t.project->0.project_id@))->0]
    }
}

/// The tasks other than those with the id, in order.
pub open spec fn tasks_without(ts: Seq<PackageTask>, id: Seq<char>) -> Seq<PackageTask>
    decreases ts.len(),
{
    if ts.len() == 0 {
        ts
    } else {
        let prev = tasks_without(ts.drop_last(), id);
        if ts.last().id@ != id { prev.push(ts.last()) } else { prev }
    }
}

/// The groups other than those with the id, in order.
pub open spec fn groups_without(gs: Seq<TaskGroup>, id: Seq<char>) -> Seq<TaskGroup>
    decreases gs.len(),
{
    if gs.len() == 0 {
        gs
    } else {
        let prev = groups_without(gs.drop_last(), id);
        if gs.last().id@ != id { prev.push(gs.last()) } else { prev }
    }
}

/// The ids of the tasks of group `gid`, in order.
pub open spec fn group_task_ids(ts: Seq<PackageTask>, gid: Seq<char>) -> Seq<Seq<char>>
    decreases ts.len(),
{
    if ts.len() == 0 {
        Seq::empty()
    } else {
        let prev = group_task_ids(ts.drop_last(), gid);
        if ts.last().task_group_id@ == gid { prev.push(ts.last().id@) } else { prev }
    }
}

fn drop_tasks_with_id(tasks: Vec<PackageTask>, id: &str) -> (r: Vec<PackageTask>)
    ensures
        r@ == tasks_without(tasks@, id@),
{
    let ghost orig = tasks@;
    let total = tasks.len();
    let mut rest = tasks;
    let mut kept: Vec<PackageTask> = Vec::new();
    let mut k: usize = 0;
    while rest.len() > 0
        invariant
            k + rest@.len() == orig.len(),
            orig.len() == total,
            rest@ == orig.skip(k as int),
            kept@ == tasks_without(orig.take(k as int), id@),
        decreases rest@.len(),
    {
        let t = rest.remove(0);
        assert(orig.take(k + 1).drop_last() =~= orig.take(k as int));
        assert(orig.take(k + 1).last() == t);
        if !str_eq(t.id.as_str(), id) {
            kept.push(t);
        }
        k = k + 1;
        assert(rest@ =~= orig.skip(k as int));
    }
    assert(orig.take(orig.len() as int) =~= orig);
    kept
}

fn drop_groups_with_id(groups: Vec<TaskGroup>, id: &str) -> (r: Vec<TaskGroup>)
    ensures
        r@ == groups_without(groups@, id@),
{
    let ghost orig = groups@;
    let total = groups.len();
    let mut rest = groups;
    let mut kept: Vec<TaskGroup> = Vec::new();
    let mut k: usize = 0;
    while rest.len() > 0
        invariant
            k + rest@.len() == orig.len(),
            orig.len() == total,
            rest@ == orig.skip(k as int),
            kept@ == groups_without(orig.take(k as int), id@),
        decreases rest@.len(),
    {
        let g = rest.remove(0);
        assert(orig.take(k + 1).drop_last() =~= orig.take(k as int));
        assert(orig.take(k + 1).last() == g);
        if !str_eq(g.id.as_str(), id) {
            kept.push(g);
        }
        k = k + 1;
        assert(rest@ =~= orig.skip(k as int));
    }
    assert(orig.take(orig.len() as int) =~= orig);
    kept
}

pub proof fn lemma_listed(s: AppSettings, id: Seq<char>)
    ensures
        task_listed(s, id) <==> first_match(s.package_tasks@, task_matches(id)) is Some,
        task_listed(s, id) ==> first_match(s.package_tasks@, task_matches(id))->0 < s.package_tasks@.len()
            && listed_task(s, id).id@ == id,
{
    if task_listed(s, id) {
        let k = choose|i: int| 0 <= i < s.package_tasks@.len() && #[trigger] s.package_tasks@[i].id@ == id;
        lemma_first_match_some(s.package_tasks@, task_matches(id), k);
    }
}

impl AppCore {
    /// The status a task is shown with.
    pub fn shown_status(&self, task_id: &str) -> (r: PackageTaskStatus)
        ensures
            r == shown_entry(*self, task_id@).status,
    {
        proof { lemma_first_entry_sound(entry_views(self.runtime.package_tasks@), task_id@); }
        match first_entry_position(&self.runtime.package_tasks, task_id) {
            Some(i) => {
                let len = self.runtime.package_tasks.len();
                assert(entry_views(self.runtime.package_tasks@)[i as int] == self.runtime.package_tasks@[i as int]@);
                self.runtime.package_tasks[i].status
            },
            None => PackageTaskStatus::Pending,
        }
    }

    /// A listed task that is neither running nor being stopped, as it is
    /// shown; `busy_message` is the error for one that is.
    pub fn idle_task(&self, task_id: &str, busy_message: &str) -> (r: Result<PackageTask, AppError>)
        ensures
            outcome(r, idle_problem(*self, task_id@, busy_message@)),
            r matches Ok(t) ==> same_task(t, merged_task(listed_task(self.settings, task_id@), self.runtime.package_tasks@)),
    {
        proof { lemma_listed(self.settings, task_id@); }
        let task = self.find_task(task_id)?;
        let status = self.shown_status(task_id);
        if status == PackageTaskStatus::Running || status == PackageTaskStatus::Canceling {
            return Err(AppError::Conflict(copy_string(busy_message)));
        }
        Ok(task)
    }

    /// Checks that a task may be deleted, and gives the project whose
    /// workspace holds the task's directory when the task's context resolves.
    pub fn task_deletion(&self, task_id: &str) -> (r: Result<Option<Project>, AppError>)
        ensures
            outcome(r, idle_problem(*self, task_id@, "任务正在执行中，无法删除"@)),
            r matches Ok(o) ==> (o is Some <==> context_problem(self.settings, listed_task(self.settings, task_id@)) is None),
            r matches Ok(Some(p)) ==> p == context_project(self.settings, listed_task(self.settings, task_id@)),
    {
        let task = self.idle_task(task_id, "任务正在执行中，无法删除")?;
        match self.resolve_task_context(&task) {
            Ok((project, _)) => Ok(Some(project)),
            Err(_) => Ok(None),
        }
    }

    /// Removes the tasks with the id from the settings and saves them.
    pub fn remove_task(&mut self, task_id: &str, counter: &mut IdCounter)
        ensures
            saved_tasks(*old(self), *final(self), tasks_without(old(self).settings.package_tasks@, task_id@)),
    {
        let (rest, tasks) = self.take_tasks();
        let kept = drop_tasks_with_id(tasks, task_id);
        self.save_with_tasks(rest, kept, counter);
    }

    /// Checks that a task group may be deleted (it exists, and none of its
    /// tasks is running or being stopped) and gives the ids of its tasks.
    pub fn group_deletion(&self, group_id: &str) -> (r: Result<Vec<String>, AppError>)
        ensures
            outcome(r, group_deletion_problem(*self, group_id@)),
            r matches Ok(v) ==> views(v@) == group_task_ids(self.settings.package_tasks@, group_id@),
    {
        if crate::state::find_group_index(&self.settings.task_groups, group_id).is_none() {
            return Err(AppError::NotFound(concat2("未找到任务组 ", group_id)));
        }
        let ghost ts = self.settings.package_tasks@;
        let mut ids: Vec<String> = Vec::new();
        let mut busy = false;
        let mut i: usize = 0;
        while i < self.settings.package_tasks.len()
            invariant
                i <= ts.len(),
                ts == self.settings.package_tasks@,
                views(ids@) == group_task_ids(ts.take(i as int), group_id@),
                busy == exists|k: int| 0 <= k < ids@.len() && is_busy(#[trigger] shown_entry(*self, views(ids@)[k]).status),
            decreases self.settings.package_tasks.len() - i,
        {
            assert(ts.take(i + 1).drop_last() =~= ts.take(i as int));
            let t = &self.settings.package_tasks[i];
            if str_eq(t.task_group_id.as_str(), group_id) {
                let ghost before = ids@;
                let st = self.shown_status(t.id.as_str());
                ids.push(copy_string(t.id.as_str()));
                assert(views(ids@) =~= views(before).push(t.id@));
                if st == PackageTaskStatus::Running || st == PackageTaskStatus::Canceling {
                    busy = true;
                    assert(views(ids@)[before.len() as int] == t.id@);
                }
                assert forall|k: int| 0 <= k < before.len() implies views(ids@)[k] == views(before)[k] by {}
            }
            i = i + 1;
        }
        assert(ts.take(ts.len() as int) =~= ts);
        if busy {
            return Err(AppError::Conflict("任务组内存在运行中任务，无法删除".to_string()));
        }
        Ok(ids)
    }

    /// Removes the groups with the id from the settings and saves them.
    pub fn remove_task_group(&mut self, group_id: &str, counter: &mut IdCounter)
        ensures
            exists|s: AppSettings, n: (AppSettings, bool)|
                #![trigger settings_normalized(s, n)]
                s == (AppSettings { task_groups: s.task_groups, ..old(self).settings })
                && s.task_groups@ == groups_without(old(self).settings.task_groups@, group_id@)
                && settings_normalized(s, n) && settings_stripped(n.0, final(self).settings),
            final(self).runtime.package_tasks@ == entries_for_tasks(old(self).runtime.package_tasks@, final(self).settings.package_tasks@),
            final(self).git_config == old(self).git_config,
            final(self).build_in_progress == old(self).build_in_progress,
            final(self).cancel_signal == old(self).cancel_signal,
            final(self).active_task_id == old(self).active_task_id,
            final(self).runtime_revision == old(self).runtime_revision,
            final(self).persisted_revision == old(self).persisted_revision,
    {
        let mut current = AppSettings {
            engines: Vec::new(),
            projects: Vec::new(),
            git_config: GitConfig { username: String::new(), password: String::new() },
            feishu_bots: Vec::new(),
            package_tasks: Vec::new(),
            task_groups: Vec::new(),
            param_definitions: Vec::new(),
        };
        let ghost before = self.settings;
        std::mem::swap(&mut current, &mut self.settings);
        let AppSettings { engines, projects, git_config, feishu_bots, package_tasks, task_groups, param_definitions } = current;
        let kept = drop_groups_with_id(task_groups, group_id);
        let next = AppSettings { engines, projects, git_config, feishu_bots, package_tasks, task_groups: kept, param_definitions };
        assert(next == (AppSettings { task_groups: next.task_groups, ..before }));
        self.save_settings(next, counter);
    }
}

/// Why a task group may not be deleted now, if anything.
pub open spec fn group_deletion_problem(c: AppCore, gid: Seq<char>) -> Option<Problem> {
    let ids = group_task_ids(c.settings.package_tasks@, gid);
    if first_match(c.settings.task_groups@, group_matches(gid)) is None {
        Some((ErrorKind::NotFound, "未找到任务组 "@ + gid))
    } else if exists|k: int| 0 <= k < ids.len() && is_busy(#[trigger] shown_entry(c, ids[k]).status) {
        Some((ErrorKind::Conflict, "任务组内存在运行中任务，无法删除"@))
    } else {
        None
    }
}

/// Why a task's obfuscation cannot be started on its own now, if anything.
pub open spec fn obfuscation_problem(c: AppCore, id: Seq<char>) -> Option<Problem> {
    let t = listed_task(c.settings, id);
    if idle_problem(c, id, "任务正在执行中，无法单独执行混淆"@) is Some {
        idle_problem(c, id, "任务正在执行中，无法单独执行混淆"@)
    } else if !t.enable_obfuscation {
        Some((ErrorKind::Validation, "任务未开启混淆，无法单独执行混淆"@))
    } else if context_problem(c.settings, t) is Some {
        context_problem(c.settings, t)
    } else if context_project(c.settings, t).is_hot_update {
        Some((ErrorKind::Validation, "热更新项目不支持单独执行混淆"@))
    } else if is_blank(t.code_repo_url@) {
        Some((ErrorKind::Validation, "任务未配置代码包 Git 地址，无法执行混淆"@))
    } else if c.build_in_progress {
        Some((ErrorKind::Conflict, "已有打包任务在进行中"@))
    } else {
        None
    }
}

/// Why a task's private repositories cannot be cleaned now, if anything.
pub open spec fn cleanup_problem(c: AppCore, id: Seq<char>) -> Option<Problem> {
    if idle_problem(c, id, "任务正在执行中，无法清理私有仓库"@) is Some {
        idle_problem(c, id, "任务正在执行中，无法清理私有仓库"@)
    } else {
        context_problem(c.settings, listed_task(c.settings, id))
    }
}

/// The stage label of a task's steps before or after its build.
pub open spec fn stage_label(name: Seq<char>, before: bool) -> Seq<char> {
    "任务 "@ + name + if before { " 的打包前准备"@ } else { " 的打包后准备"@ }
}

/// What keeps a task from being built, if anything: its context, then its
/// steps before and after the build, given the prep projects found for them.
pub open spec fn package_task_problem(
    s: AppSettings,
    t: PackageTask,
    pre: Seq<Result<PrepProject, String>>,
    post: Seq<Result<PrepProject, String>>,
) -> Option<Problem> {
    if context_problem(s, t) is Some {
        context_problem(s, t)
    } else if steps_problem(stage_label(t.name@, true), t.pre_build_actions@, pre, t.pre_build_actions@.len() as nat) is Some {
        as_validation(steps_problem(stage_label(t.name@, true), t.pre_build_actions@, pre, t.pre_build_actions@.len() as nat))
    } else {
        as_validation(steps_problem(stage_label(t.name@, false), t.post_build_actions@, post, t.post_build_actions@.len() as nat))
    }
}

/// The steps of a task are well formed and the prep projects found for them
/// are as many as they name.
pub open spec fn steps_loaded(t: PackageTask, pre: Seq<Result<PrepProject, String>>, post: Seq<Result<PrepProject, String>>) -> bool {
    &&& actions_wf(t.pre_build_actions@)
    &&& actions_wf(t.post_build_actions@)
    &&& pre.len() == targets_before(t.pre_build_actions@, t.pre_build_actions@.len() as nat)
    &&& post.len() == targets_before(t.post_build_actions@, t.post_build_actions@.len() as nat)
}

/// A cleanup response from what was found in the two repositories.
pub fn private_repos_cleanup_response(
    task: &PackageTask,
    code_repo_path: String,
    asset_repo_path: String,
    code_repo_git_repo: bool,
    asset_repo_git_repo: bool,
    code: Option<UnstagedCleanupResult>,
    asset: Option<UnstagedCleanupResult>,
) -> (r: TaskPrivateReposCleanupResponse)
    ensures
        r.task_id@ == task.id@,
        r.task_name@ == task.name@,
        r.code_repo_path == code_repo_path,
        r.asset_repo_path == asset_repo_path,
        r.code_repo_git_repo == code_repo_git_repo,
        r.asset_repo_git_repo == asset_repo_git_repo,
        r.code_repo_cleaned == code is Some,
        r.asset_repo_cleaned == asset is Some,
        r.code_repo_had_staged_changes == (code matches Some(c) && c.had_staged_changes),
        r.code_repo_had_unstaged_changes == (code matches Some(c) && c.had_unstaged_changes),
        r.code_repo_had_untracked_files == (code matches Some(c) && c.had_untracked_files),
        r.asset_repo_had_staged_changes == (asset matches Some(c) && c.had_staged_changes),
        r.asset_repo_had_unstaged_changes == (asset matches Some(c) && c.had_unstaged_changes),
        r.asset_repo_had_untracked_files == (asset matches Some(c) && c.had_untracked_files),
{
    let (cs, cu, ct) = match &code {
        Some(c) => (c.had_staged_changes, c.had_unstaged_changes, c.had_untracked_files),
        None => (false, false, false),
    };
    let (a_s, au, at) = match &asset {
        Some(c) => (c.had_staged_changes, c.had_unstaged_changes, c.had_untracked_files),
        None => (false, false, false),
    };
    TaskPrivateReposCleanupResponse {
        task_id: copy_string(task.id.as_str()),
        task_name: copy_string(task.name.as_str()),
        code_repo_path,
        asset_repo_path,
        code_repo_git_repo,
        asset_repo_git_repo,
        code_repo_cleaned: code.is_some(),
        asset_repo_cleaned: asset.is_some(),
        code_repo_had_staged_changes: cs,
        code_repo_had_unstaged_changes: cu,
        code_repo_had_untracked_files: ct,
        asset_repo_had_staged_changes: a_s,
        asset_repo_had_unstaged_changes: au,
        asset_repo_had_untracked_files: at,
    }
}

fn stage_string(name: &str, before: bool) -> (r: String)
    ensures
        r@ == stage_label(name@, before),
{
    if before {
        crate::text::concat3("任务 ", name, " 的打包前准备")
    } else {
        crate::text::concat3("任务 ", name, " 的打包后准备")
    }
}

impl AppCore {
    /// Starts a task's obfuscation on its own: the task must be idle, have
    /// obfuscation on, resolve to a project that is not hot-updated and have
    /// a code repository; then the build flag is taken and the task's entry
    /// reset for the run. Nothing changes on an error.
    pub fn start_task_obfuscation(&mut self, task_id: &str) -> (r: Result<(), AppError>)
        ensures
            outcome(r, obfuscation_problem(*old(self), task_id@)),
            r is Err ==> *final(self) == *old(self),
            r is Ok ==> final(self).build_in_progress && final(self).cancel_signal == Some(false)
                && entry_views(final(self).runtime.package_tasks@) == prepared_views(entry_views(old(self).runtime.package_tasks@), seq![task_id@])
                && final(self).settings == old(self).settings
                && final(self).git_config == old(self).git_config
                && final(self).active_task_id == old(self).active_task_id,
    {
        let task = self.idle_task(task_id, "任务正在执行中，无法单独执行混淆")?;
        if !task.enable_obfuscation {
            return Err(AppError::Validation("任务未开启混淆，无法单独执行混淆".to_string()));
        }
        let (project, _) = self.resolve_task_context(&task)?;
        if project.is_hot_update {
            return Err(AppError::Validation("热更新项目不支持单独执行混淆".to_string()));
        }
        if is_blank_str(task.code_repo_url.as_str()) {
            return Err(AppError::Validation("任务未配置代码包 Git 地址，无法执行混淆".to_string()));
        }
        self.try_start_build()?;
        let mut ids: Vec<String> = Vec::new();
        ids.push(copy_string(task_id));
        assert(views(ids@) =~= seq![task_id@]);
        proof {
            lemma_no_match(views(ids@), |id: Seq<char>| !task_listed(self.settings, id));
        }
        let prepared = self.prepare_tasks_for_build(&ids);
        match prepared {
            Ok(()) => Ok(()),
            Err(e) => {
                self.finish_build();
                Err(e)
            },
        }
    }

    /// Checks that a task's private repositories may be cleaned, and gives
    /// the task and the project whose workspace holds them.
    pub fn private_repos_cleanup(&self, task_id: &str) -> (r: Result<(PackageTask, Project), AppError>)
        ensures
            outcome(r, cleanup_problem(*self, task_id@)),
            r matches Ok(c) ==> same_task(c.0, merged_task(listed_task(self.settings, task_id@), self.runtime.package_tasks@))
                && c.1 == context_project(self.settings, listed_task(self.settings, task_id@)),
    {
        let task = self.idle_task(task_id, "任务正在执行中，无法清理私有仓库")?;
        let (project, _) = self.resolve_task_context(&task)?;
        Ok((task, project))
    }

    /// Checks that a task can be built: its context resolves and its steps
    /// before and after the build fit the prep projects found for them.
    pub fn validate_package_task(
        &self,
        task: &PackageTask,
        pre_loaded: &Vec<Result<PrepProject, String>>,
        post_loaded: &Vec<Result<PrepProject, String>>,
    ) -> (r: Result<(), AppError>)
        requires
            steps_loaded(*task, pre_loaded@, post_loaded@),
        ensures
            outcome(r, package_task_problem(self.settings, *task, pre_loaded@, post_loaded@)),
    {
        self.resolve_task_context(task)?;
        let pre = stage_string(task.name.as_str(), true);
        validate_task_prep_actions(pre.as_str(), &task.pre_build_actions, pre_loaded)?;
        let post = stage_string(task.name.as_str(), false);
        validate_task_prep_actions(post.as_str(), &task.post_build_actions, post_loaded)
    }
}

/// `new` is `old` after saving `old`'s settings with `tasks` as their tasks.
pub open spec fn saved_tasks(old: AppCore, new: AppCore, tasks: Seq<PackageTask>) -> bool {
    &&& exists|s: AppSettings, n: (AppSettings, bool)|
        #![trigger settings_normalized(s, n)]
        s == (AppSettings { package_tasks: s.package_tasks, ..old.settings })
        && s.package_tasks@ == tasks
        && settings_normalized(s, n) && settings_stripped(n.0, new.settings)
    &&& new.runtime.package_tasks@ == entries_for_tasks(old.runtime.package_tasks@, new.settings.package_tasks@)
    &&& new.git_config == old.git_config
    &&& new.build_in_progress == old.build_in_progress
    &&& new.cancel_signal == old.cancel_signal
    &&& new.active_task_id == old.active_task_id
    &&& new.runtime_revision == old.runtime_revision
    &&& new.persisted_revision == old.persisted_revision
}

impl AppCore {
    /// Takes the settings out, leaving empty ones: the settings without their
    /// tasks, and the tasks.
    pub(crate) fn take_tasks(&mut self) -> (r: (AppSettings, Vec<PackageTask>))
        ensures
            r.0 == (AppSettings { package_tasks: r.0.package_tasks, ..old(self).settings }),
            r.1 == old(self).settings.package_tasks,
            final(self).runtime == old(self).runtime,
            final(self).git_config == old(self).git_config,
            final(self).build_in_progress == old(self).build_in_progress,
            final(self).cancel_signal == old(self).cancel_signal,
            final(self).active_task_id == old(self).active_task_id,
            final(self).runtime_revision == old(self).runtime_revision,
            final(self).persisted_revision == old(self).persisted_revision,
    {
        let mut current = AppSettings {
            engines: Vec::new(),
            projects: Vec::new(),
            git_config: GitConfig { username: String::new(), password: String::new() },
            feishu_bots: Vec::new(),
            package_tasks: Vec::new(),
            task_groups: Vec::new(),
            param_definitions: Vec::new(),
        };
        std::mem::swap(&mut current, &mut self.settings);
        let AppSettings { engines, projects, git_config, feishu_bots, package_tasks, task_groups, param_definitions } = current;
        let rest = AppSettings { engines, projects, git_config, feishu_bots, package_tasks: Vec::new(), task_groups, param_definitions };
        (rest, package_tasks)
    }

    /// Saves `rest` with `tasks` as its tasks.
    pub(crate) fn save_with_tasks(&mut self, rest: AppSettings, tasks: Vec<PackageTask>, counter: &mut IdCounter)
        ensures
            exists|s: AppSettings, n: (AppSettings, bool)|
                #![trigger settings_normalized(s, n)]
                s == (AppSettings { package_tasks: s.package_tasks, ..rest })
                && s.package_tasks@ == tasks@
                && settings_normalized(s, n) && settings_stripped(n.0, final(self).settings),
            final(self).runtime.package_tasks@ == entries_for_tasks(old(self).runtime.package_tasks@, final(self).settings.package_tasks@),
            final(self).git_config == old(self).git_config,
            final(self).build_in_progress == old(self).build_in_progress,
            final(self).cancel_signal == old(self).cancel_signal,
            final(self).active_task_id == old(self).active_task_id,
            final(self).runtime_revision == old(self).runtime_revision,
            final(self).persisted_revision == old(self).persisted_revision,
    {
        let AppSettings { engines, projects, git_config, feishu_bots, package_tasks: _, task_groups, param_definitions } = rest;
        let next = AppSettings { engines, projects, git_config, feishu_bots, package_tasks: tasks, task_groups, param_definitions };
        self.save_settings(next, counter);
    }
}

/// The group a task request names (by its id as sent), if any.
pub open spec fn requested_group(s: AppSettings, req: PackageTaskRequest) -> Option<int> {
    first_match(s.task_groups@, group_matches(req.task_group_id@))
}

/// Whether a request can make a task once the checks before its own pass.
pub open spec fn create_outcome(
    old: AppCore,
    new: AppCore,
    req: PackageTaskRequest,
    pre: Seq<Result<PrepProject, String>>,
    post: Seq<Result<PrepProject, String>>,
    r: Result<PackageTask, AppError>,
) -> bool {
    let s0 = old.settings;
    let checked = task_request_problem(s0, req, None, spec_json_error(req.build_args_json@));
    if checked is Some {
        outcome(r, checked)
    } else if requested_group(s0, req) is None {
        outcome(r, Some((ErrorKind::NotFound, "任务组不存在"@)))
    } else {
        let g = s0.task_groups@[requested_group(s0, req)->0];
        exists|t: PackageTask|
            #![trigger package_task_problem(s0, t, pre, post)]
            made_task(t.id, next_order(s0.package_tasks@, g.id@), g, req, t)
            && crate::ids::is_generated_id(t.id@, "task_"@)
            && outcome(r, package_task_problem(s0, t, pre, post))
            && (r matches Ok(x) ==> same_task(x, t) && saved_tasks(old, new, s0.package_tasks@.push(t)))
    }
}

/// Whether a request changes task `id` as it should once the checks before
/// its own pass.
pub open spec fn update_outcome(
    old: AppCore,
    new: AppCore,
    id: Seq<char>,
    req: PackageTaskRequest,
    pre: Seq<Result<PrepProject, String>>,
    post: Seq<Result<PrepProject, String>>,
    r: Result<PackageTask, AppError>,
) -> bool {
    let s0 = old.settings;
    let checked = task_request_problem(s0, req, Some(id), spec_json_error(req.build_args_json@));
    if checked is Some {
        outcome(r, checked)
    } else if idle_problem(old, id, "任务正在执行中，无法修改"@) is Some {
        outcome(r, idle_problem(old, id, "任务正在执行中，无法修改"@))
    } else if requested_group(s0, req) is None {
        outcome(r, Some((ErrorKind::NotFound, "任务组不存在"@)))
    } else {
        let g = s0.task_groups@[requested_group(s0, req)->0];
        let ci = first_match(s0.package_tasks@, task_matches(id))->0;
        let cur = s0.package_tasks@[ci];
        let order = if cur.task_group_id@ == g.id@ { cur.order } else { next_order(s0.package_tasks@, g.id@) };
        exists|t: PackageTask|
            #![trigger package_task_problem(s0, t, pre, post)]
            made_task(t.id, order, g, req, t)
            && t.id@ == id
            && outcome(r, package_task_problem(s0, t, pre, post))
            && (r matches Ok(x) ==> same_task(x, t) && saved_tasks(old, new, s0.package_tasks@.update(ci, t)))
    }
}

impl AppCore {
    /// Creates a task from a request: the request is checked, the named
    /// group must exist, the task goes last in its group with a fresh id, and
    /// it must be buildable (its context and steps, given the prep projects
    /// found for its steps) before it is added and the settings saved.
    /// Nothing changes on an error.
    pub fn create_task(
        &mut self,
        request: PackageTaskRequest,
        pre_loaded: &Vec<Result<PrepProject, String>>,
        post_loaded: &Vec<Result<PrepProject, String>>,
        counter: &mut IdCounter,
    ) -> (r: Result<PackageTask, AppError>)
        requires
            actions_wf(request.pre_build_actions@),
            actions_wf(request.post_build_actions@),
            pre_loaded@.len() == targets_before(request.pre_build_actions@, request.pre_build_actions@.len() as nat),
            post_loaded@.len() == targets_before(request.post_build_actions@, request.post_build_actions@.len() as nat),
        ensures
            r is Err ==> *final(self) == *old(self),
            create_outcome(*old(self), *final(self), request, pre_loaded@, post_loaded@, r),
    {
        let ghost req = request;
        validate_task_request(&self.settings, &request, None)?;
        let gi = match crate::state::find_group_index(&self.settings.task_groups, request.task_group_id.as_str()) {
            Some(i) => i,
            None => {
                return Err(AppError::NotFound("任务组不存在".to_string()));
            },
        };
        let group = self.settings.task_groups[gi].dup();
        let order = next_task_order(&self.settings.package_tasks, group.id.as_str());
        let id = crate::ids::generated_id("task_");
        let task = task_from_request(id, order, &group, request);
        self.validate_package_task(&task, pre_loaded, post_loaded)?;
        let ghost old_tasks = self.settings.package_tasks@;
        let ghost before = *self;
        let result = task.dup();
        let (rest, mut tasks) = self.take_tasks();
        tasks.push(task);
        assert(tasks@ == old_tasks.push(task));
        self.save_with_tasks(rest, tasks, counter);
        assert(saved_tasks(before, *self, old_tasks.push(task)));
        Ok(result)
    }

    /// Changes a task from a request: the request is checked (the task may
    /// keep its own name), the task must be idle, the named group must
    /// exist; the task keeps its order when it stays in its group and goes
    /// last in the new one otherwise, and it must be buildable before it
    /// replaces the first task with the id and the settings are saved.
    /// Nothing changes on an error.
    pub fn update_task(
        &mut self,
        task_id: &str,
        request: PackageTaskRequest,
        pre_loaded: &Vec<Result<PrepProject, String>>,
        post_loaded: &Vec<Result<PrepProject, String>>,
        counter: &mut IdCounter,
    ) -> (r: Result<PackageTask, AppError>)
        requires
            actions_wf(request.pre_build_actions@),
            actions_wf(request.post_build_actions@),
            pre_loaded@.len() == targets_before(request.pre_build_actions@, request.pre_build_actions@.len() as nat),
            post_loaded@.len() == targets_before(request.post_build_actions@, request.post_build_actions@.len() as nat),
        ensures
            r is Err ==> *final(self) == *old(self),
            update_outcome(*old(self), *final(self), task_id@, request, pre_loaded@, post_loaded@, r),
    {
        validate_task_request(&self.settings, &request, Some(task_id))?;
        self.idle_task(task_id, "任务正在执行中，无法修改")?;
        proof { lemma_listed(self.settings, task_id@); }
        let ci = match crate::runtime::find_task_index(&self.settings.package_tasks, task_id) {
            Some(i) => i,
            None => {
                return Err(AppError::NotFound(concat2("未找到任务 ", task_id)));
            },
        };
        proof { lemma_first_match(self.settings.package_tasks@, task_matches(task_id@), ci as int); }
        let gi = match crate::state::find_group_index(&self.settings.task_groups, request.task_group_id.as_str()) {
            Some(i) => i,
            None => {
                return Err(AppError::NotFound("任务组不存在".to_string()));
            },
        };
        let group = self.settings.task_groups[gi].dup();
        let order = if str_eq(self.settings.package_tasks[ci].task_group_id.as_str(), group.id.as_str()) {
            self.settings.package_tasks[ci].order
        } else {
            next_task_order(&self.settings.package_tasks, group.id.as_str())
        };
        let task = task_from_request(copy_string(task_id), order, &group, request);
        self.validate_package_task(&task, pre_loaded, post_loaded)?;
        let ghost old_tasks = self.settings.package_tasks@;
        let ghost before = *self;
        let result = task.dup();
        let (rest, mut tasks) = self.take_tasks();
        tasks.set(ci, task);
        assert(tasks@ == old_tasks.update(ci as int, task));
        self.save_with_tasks(rest, tasks, counter);
        assert(saved_tasks(before, *self, old_tasks.update(ci as int, task)));
        Ok(result)
    }
}

/// `t` is a copy of `src` with its own id and name, the given order and a
/// fresh pending state.
pub open spec fn duplicated(src: PackageTask, t: PackageTask, order: u32) -> bool {
    &&& same_task(t, PackageTask {
        id: t.id,
        name: t.name,
        order,
        progress: 0,
        status: PackageTaskStatus::Pending,
        last_log_path: None,
        last_error: None,
        started_at: None,
        finished_at: None,
        ..src
    })
    &&& t.name@ == src.name@ + "副本"@
    &&& crate::ids::is_generated_id(t.id@, "task_"@)
}

impl AppCore {
    /// Copies a task (the first with the id): the copy gets a fresh id,
    /// `副本` after its name, a fresh pending state and the last order in its
    /// group, and is added to the settings, which are saved.
    pub fn duplicate_task(&mut self, task_id: &str, counter: &mut IdCounter) -> (r: Result<PackageTask, AppError>)
        ensures
            match first_match(old(self).settings.package_tasks@, task_matches(task_id@)) {
                None => outcome(r, Some(task_missing(task_id@))) && *final(self) == *old(self),
                Some(i) => {
                    let ts = old(self).settings.package_tasks@;
                    exists|t: PackageTask|
                        #![trigger duplicated(ts[i], t, next_order(ts, ts[i].task_group_id@))]
                        duplicated(ts[i], t, next_order(ts, ts[i].task_group_id@))
                        && (r matches Ok(x) && same_task(x, t) && saved_tasks(*old(self), *final(self), ts.push(t)))
                },
            },
    {
        let i = match crate::runtime::find_task_index(&self.settings.package_tasks, task_id) {
            Some(i) => i,
            None => {
                proof { lemma_listed(self.settings, task_id@); }
                return Err(AppError::NotFound(concat2("未找到任务 ", task_id)));
            },
        };
        proof { lemma_first_match(self.settings.package_tasks@, task_matches(task_id@), i as int); }
        let mut d = self.settings.package_tasks[i].dup();
        d.id = crate::ids::generated_id("task_");
        d.name = concat2(d.name.as_str(), "副本");
        d.progress = 0;
        d.status = PackageTaskStatus::Pending;
        d.last_log_path = None;
        d.last_error = None;
        d.started_at = None;
        d.finished_at = None;
        d.order = next_task_order(&self.settings.package_tasks, d.task_group_id.as_str());
        let ghost old_tasks = self.settings.package_tasks@;
        let ghost before = *self;
        let result = d.dup();
        let (rest, mut tasks) = self.take_tasks();
        tasks.push(d);
        assert(tasks@ == old_tasks.push(d));
        self.save_with_tasks(rest, tasks, counter);
        assert(saved_tasks(before, *self, old_tasks.push(d)));
        assert(duplicated(old_tasks[i as int], d, next_order(old_tasks, old_tasks[i as int].task_group_id@)));
        Ok(result)
    }
}

impl AppCore {
    /// The failed run of a prep project for a task whose context could not be
    /// had: named by the task when it is listed (with the project it is bound
    /// to, if any), else by the id.
    pub fn prep_run_failure(&self, task_id: &str, error_message: &str) -> (r: crate::models::PrepProjectTaskRunItem)
        ensures
            task_listed(self.settings, task_id@) ==> {
                let t = listed_task(self.settings, task_id@);
                &&& r.task_id@ == t.id@
                &&& r.task_name@ == t.name@
                &&& r.project_name@ == match t.project { Some(p) => p.project_id@, None => Seq::<char>::empty() }
            },
            !task_listed(self.settings, task_id@) ==> r.task_id@ == task_id@ && r.task_name@ == task_id@ && r.project_name@.len() == 0,
            r.project_path@.len() == 0,
            !r.success,
            r.exit_code == -1,
            r.error_message matches Some(m) && m@ == error_message@,
    {
        proof {
            lemma_listed(self.settings, task_id@);
            reveal_strlit("");
        }
        match self.find_task(task_id) {
            Ok(task) => {
                let project_name = match &task.project {
                    Some(p) => copy_string(p.project_id.as_str()),
                    None => String::new(),
                };
                crate::preps::failed_task_run_item(task.id.as_str(), task.name.as_str(), project_name.as_str(), "", error_message)
            },
            Err(_) => crate::preps::failed_task_run_item(task_id, task_id, "", "", error_message),
        }
    }
}

} // verus!
