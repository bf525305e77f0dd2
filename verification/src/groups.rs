//! Task groups: what a request to create or change one must satisfy, and
//! what creating, changing and deleting one does to the settings.

use vstd::prelude::*;
use crate::copies::{same_group, same_presets};
use crate::error::{AppError, ErrorKind, Problem, outcome};
use crate::ids::{generated_id, is_generated_id};
use crate::migration::first_new_order;
use crate::models::{AppSettings, GroupParamPreset, PackageTask, PackageTaskStatus, TaskGroup, TaskGroupParamsRequest, TaskGroupRequest, TaskProjectConfig};
use crate::param_map::ParamMap;
use crate::params::{groups_wf, hidden_fold, normalize_hidden_params, normalize_params, normalize_presets, params_fold, params_problem, preset_normalized, presets_problem};
use crate::state::{first_match, group_matches, lemma_first_match, lemma_no_match, project_matches};
use crate::text::{eq_ignore_case, is_blank, is_blank_str, str_eq, trim, trim_str, views};

verus! {

/// Whether every task group's parameters are sorted by key, each key once.
pub fn check_groups_wf(s: &AppSettings) -> (r: bool)
    ensures
        r == groups_wf(s.task_groups@),
{
    let mut i: usize = 0;
    while i < s.task_groups.len()
        invariant
            i <= s.task_groups@.len(),
            forall|j: int| 0 <= j < i ==> (#[trigger] s.task_groups@[j]).params.wf(),
        decreases s.task_groups.len() - i,
    {
        if !s.task_groups[i].params.is_wf() {
            return false;
        }
        i = i + 1;
    }
    true
}

/// Another group of the same project already has the name (ignoring ASCII case).
pub open spec fn group_name_taken(g: TaskGroup, req: TaskGroupRequest, current: Option<Seq<char>>) -> bool {
    &&& Some(g.id@) != current
    &&& g.project_id@ == trim(req.project_id@)
    &&& eq_ignore_case(g.name@, trim(req.name@))
}

/// What is wrong with a request for a task group, if anything.
pub open spec fn group_request_problem(s: AppSettings, req: TaskGroupRequest, current: Option<Seq<char>>) -> Option<Problem> {
    if is_blank(req.name@) {
        Some((ErrorKind::Validation, "任务组名称不能为空"@))
    } else if is_blank(req.branch@) {
        Some((ErrorKind::Validation, "任务组分支不能为空"@))
    } else if first_match(s.projects@, project_matches(trim(req.project_id@))) is None {
        Some((ErrorKind::NotFound, "未找到项目 "@ + trim(req.project_id@)))
    } else if exists|i: int| 0 <= i < s.task_groups@.len() && group_name_taken(#[trigger] s.task_groups@[i], req, current) {
        Some((ErrorKind::Conflict, "同一项目下的任务组名称不能重复"@))
    } else {
        None
    }
}

/// Checks a request for a task group (`current_group_id`: the group being changed).
pub fn validate_group_request(settings: &AppSettings, request: &TaskGroupRequest, current_group_id: Option<&str>) -> (r: Result<(), AppError>)
    ensures
        outcome(r, group_request_problem(*settings, *request, match current_group_id { Some(c) => Some(c@), None => None })),
{
    let ghost current = match current_group_id { Some(c) => Some(c@), None => None };
    if is_blank_str(request.name.as_str()) {
        return Err(AppError::Validation("任务组名称不能为空".to_string()));
    }
    if is_blank_str(request.branch.as_str()) {
        return Err(AppError::Validation("任务组分支不能为空".to_string()));
    }
    let pid = trim_str(request.project_id.as_str());
    crate::state::find_project_in(&settings.projects, pid.as_str())?;
    let name = trim_str(request.name.as_str());
    let mut i: usize = 0;
    while i < settings.task_groups.len()
        invariant
            i <= settings.task_groups@.len(),
            pid@ == trim(request.project_id@),
            name@ == trim(request.name@),
            current == match current_group_id { Some(c) => Some(c@), None => None },
            !is_blank(request.name@),
            !is_blank(request.branch@),
            first_match(settings.projects@, project_matches(trim(request.project_id@))) is Some,
            forall|j: int| 0 <= j < i ==> !group_name_taken(#[trigger] settings.task_groups@[j], *request, current),
        decreases settings.task_groups.len() - i,
    {
        let g = &settings.task_groups[i];
        let other = match current_group_id {
            Some(c) => !str_eq(g.id.as_str(), c),
            None => true,
        };
        if other && str_eq(g.project_id.as_str(), pid.as_str()) && crate::text::eq_ignore_ascii_case(g.name.as_str(), name.as_str()) {
            assert(group_name_taken(settings.task_groups@[i as int], *request, current));
            return Err(AppError::Conflict("同一项目下的任务组名称不能重复".to_string()));
        }
        i = i + 1;
    }
    Ok(())
}

pub open spec fn opt_presets(p: Option<Vec<GroupParamPreset>>) -> Seq<GroupParamPreset> {
    match p {
        Some(v) => v@,
        None => Seq::empty(),
    }
}

pub open spec fn opt_hidden(h: Option<Vec<String>>) -> Seq<String> {
    match h {
        Some(v) => v@,
        None => Seq::empty(),
    }
}

/// The group a new group copies its parameters from, when one is named.
pub open spec fn copy_source_id(req: TaskGroupRequest) -> Option<Seq<char>> {
    match req.copy_from_group_id {
        Some(id) => if !is_blank(id@) { Some(id@) } else { None },
        None => None,
    }
}

/// The parameters a new group starts from: the source group's, or the
/// request's.
pub open spec fn create_source(s: AppSettings, req: TaskGroupRequest) -> Option<ParamMap> {
    match copy_source_id(req) {
        Some(id) => match first_match(s.task_groups@, group_matches(id)) {
            Some(i) => Some(s.task_groups@[i].params),
            None => None,
        },
        None => Some(req.params),
    }
}

/// What is wrong with a request to create a group, if anything.
pub open spec fn create_group_problem(s: AppSettings, req: TaskGroupRequest) -> Option<Problem> {
    if group_request_problem(s, req, None) is Some {
        group_request_problem(s, req, None)
    } else {
        match create_source(s, req) {
            None => Some((ErrorKind::NotFound, "未找到源任务组 "@ + copy_source_id(req)->0)),
            Some(src) => if params_problem(s.param_definitions@, src) is Some {
                params_problem(s.param_definitions@, src)
            } else if presets_problem(s.param_definitions@, opt_presets(req.presets)) is Some {
                presets_problem(s.param_definitions@, opt_presets(req.presets))
            } else {
                hidden_fold(s.param_definitions@, opt_hidden(req.hidden_params)).1
            },
        }
    }
}

/// The presets and hidden keys of a group after a request: normalized as
/// given.
pub open spec fn presets_normalized(ds: Seq<crate::models::ParamDefinition>, given: Seq<GroupParamPreset>, out: Seq<GroupParamPreset>) -> bool {
    out.len() == given.len() && forall|i: int| 0 <= i < out.len() ==> preset_normalized(ds, given[i], #[trigger] out[i])
}

/// `g` is the group a create request makes.
pub open spec fn created_group(s: AppSettings, req: TaskGroupRequest, g: TaskGroup) -> bool {
    let ds = s.param_definitions@;
    &&& is_generated_id(g.id@, "group_"@)
    &&& g.project_id@ == trim(req.project_id@)
    &&& g.name@ == trim(req.name@)
    &&& g.description@ == trim(req.description@)
    &&& g.branch@ == trim(req.branch@)
    &&& g.params.wf()
    &&& g.params.map() == params_fold(ds, create_source(s, req)->0.map()).0
    &&& presets_normalized(ds, opt_presets(req.presets), g.presets@)
    &&& views(g.hidden_params@) == hidden_fold(ds, opt_hidden(req.hidden_params)).0
    &&& g.order == first_new_order(s.task_groups@)
}

/// Creates a task group: the request is checked, the parameters are taken
/// from the source group or the request and normalized with the presets and
/// hidden keys, and the group is added with the next order. Nothing changes
/// on an error.
pub fn create_task_group(settings: &mut AppSettings, request: &TaskGroupRequest) -> (r: Result<TaskGroup, AppError>)
    requires
        groups_wf(old(settings).task_groups@),
        request.params.wf(),
    ensures
        outcome(r, create_group_problem(*old(settings), *request)),
        r is Err ==> *final(settings) == *old(settings),
        r matches Ok(g) ==> created_group(*old(settings), *request, g)
            && final(settings).task_groups@.len() == old(settings).task_groups@.len() + 1
            && final(settings).task_groups@.take(old(settings).task_groups@.len() as int) == old(settings).task_groups@
            && same_group(final(settings).task_groups@.last(), g)
            && final(settings).package_tasks == old(settings).package_tasks
            && final(settings).projects == old(settings).projects
            && final(settings).param_definitions == old(settings).param_definitions,
{
    validate_group_request(settings, request, None)?;
    let order_max = crate::migration::max_group_order(&settings.task_groups);
    let order = if order_max == u32::MAX { u32::MAX } else { order_max + 1 };
    let src_index: Option<usize> = match &request.copy_from_group_id {
        Some(id) => {
            if !is_blank_str(id.as_str()) {
                match crate::state::find_group_index(&settings.task_groups, id.as_str()) {
                    Some(i) => Some(i),
                    None => {
                        return Err(AppError::NotFound(crate::text::concat2("未找到源任务组 ", id.as_str())));
                    },
                }
            } else {
                None
            }
        },
        None => None,
    };
    let params = match src_index {
        Some(i) => normalize_params(&settings.param_definitions, &settings.task_groups[i].params)?,
        None => normalize_params(&settings.param_definitions, &request.params)?,
    };
    let presets = match &request.presets {
        Some(v) => normalize_presets(&settings.param_definitions, v)?,
        None => {
            let empty: Vec<GroupParamPreset> = Vec::new();
            assert(empty@ =~= opt_presets(request.presets));
            normalize_presets(&settings.param_definitions, &empty)?
        },
    };
    let hidden = match &request.hidden_params {
        Some(v) => normalize_hidden_params(&settings.param_definitions, v)?,
        None => {
            let empty: Vec<String> = Vec::new();
            assert(empty@ =~= opt_hidden(request.hidden_params));
            normalize_hidden_params(&settings.param_definitions, &empty)?
        },
    };
    let group = TaskGroup {
        id: generated_id("group_"),
        project_id: trim_str(request.project_id.as_str()),
        name: trim_str(request.name.as_str()),
        description: trim_str(request.description.as_str()),
        branch: trim_str(request.branch.as_str()),
        params,
        presets,
        hidden_params: hidden,
        order,
    };
    let stored = group.dup();
    let ghost before = settings.task_groups@;
    settings.task_groups.push(stored);
    assert(settings.task_groups@.take(before.len() as int) =~= before);
    Ok(group)
}

/// The task `old` after its group changed: it follows the group's project
/// and branch, and its name when `rename`.
pub open spec fn followed(old: PackageTask, g: TaskGroup, rename: bool) -> PackageTask {
    PackageTask {
        group: if rename { g.name } else { old.group },
        project: Some(TaskProjectConfig { project_id: g.project_id, branch: g.branch }),
        ..old
    }
}

/// The tasks of group `gid` follow `g`; the others stay as they were.
pub open spec fn tasks_follow(old: Seq<PackageTask>, new: Seq<PackageTask>, gid: Seq<char>, g: TaskGroup, rename: bool) -> bool {
    &&& new.len() == old.len()
    &&& forall|j: int| 0 <= j < old.len() ==> #[trigger] new[j] == if old[j].task_group_id@ == gid { followed(old[j], g, rename) } else { old[j] }
}

/// Makes the tasks of group `group_id` follow the group `g`.
fn retag_tasks(tasks: &mut Vec<PackageTask>, group_id: &str, g: &TaskGroup, rename: bool)
    ensures
        tasks_follow(old(tasks)@, final(tasks)@, group_id@, *g, rename),
{
    let ghost start = tasks@;
    let n = tasks.len();
    let mut j: usize = 0;
    while j < n
        invariant
            n == tasks@.len(),
            n == start.len(),
            j <= n,
            forall|k: int| 0 <= k < j ==> #[trigger] tasks@[k] == if start[k].task_group_id@ == group_id@ { followed(start[k], *g, rename) } else { start[k] },
            forall|k: int| j <= k < n ==> #[trigger] tasks@[k] == start[k],
        decreases n - j,
    {
        if str_eq(tasks[j].task_group_id.as_str(), group_id) {
            let ghost before = tasks@;
            let mut t = tasks.remove(j);
            if rename {
                t.group = g.name.clone();
            }
            t.project = Some(TaskProjectConfig { project_id: g.project_id.clone(), branch: g.branch.clone() });
            assert(t == followed(start[j as int], *g, rename));
            tasks.insert(j, t);
            assert(tasks@ =~= before.update(j as int, t));
        }
        j = j + 1;
    }
}

/// What is wrong with a request to change group `gid`, if anything.
pub open spec fn update_group_problem(s: AppSettings, gid: Seq<char>, req: TaskGroupRequest) -> Option<Problem> {
    let ds = s.param_definitions@;
    if group_request_problem(s, req, Some(gid)) is Some {
        group_request_problem(s, req, Some(gid))
    } else if first_match(s.task_groups@, group_matches(gid)) is None {
        Some((ErrorKind::NotFound, "未找到任务组 "@ + gid))
    } else if params_problem(ds, req.params) is Some {
        params_problem(ds, req.params)
    } else if req.presets is Some && presets_problem(ds, req.presets->0@) is Some {
        presets_problem(ds, req.presets->0@)
    } else if req.hidden_params is Some {
        hidden_fold(ds, req.hidden_params->0@).1
    } else {
        None
    }
}

/// `new` is the group `old` after a change request: the text fields and
/// parameters are replaced, the presets and hidden keys only when sent.
pub open spec fn changed_group(ds: Seq<crate::models::ParamDefinition>, old: TaskGroup, req: TaskGroupRequest, new: TaskGroup) -> bool {
    &&& new.id == old.id
    &&& new.order == old.order
    &&& new.project_id@ == trim(req.project_id@)
    &&& new.name@ == trim(req.name@)
    &&& new.description@ == trim(req.description@)
    &&& new.branch@ == trim(req.branch@)
    &&& new.params.wf()
    &&& new.params.map() == params_fold(ds, req.params.map()).0
    &&& match req.presets {
        Some(v) => presets_normalized(ds, v@, new.presets@),
        None => new.presets == old.presets,
    }
    &&& match req.hidden_params {
        Some(v) => views(new.hidden_params@) == hidden_fold(ds, v@).0,
        None => new.hidden_params == old.hidden_params,
    }
}

/// Changes task group `group_id`: the request is checked like one to create
/// a group (a group may keep its own name), the group's fields are replaced
/// (presets and hidden keys only when sent), and the tasks of the group
/// follow its new name, project and branch. Nothing changes on an error.
pub fn update_task_group(settings: &mut AppSettings, group_id: &str, request: &TaskGroupRequest) -> (r: Result<TaskGroup, AppError>)
    requires
        request.params.wf(),
    ensures
        outcome(r, update_group_problem(*old(settings), group_id@, *request)),
        r is Err ==> *final(settings) == *old(settings),
        r matches Ok(g) ==> {
            let i = first_match(old(settings).task_groups@, group_matches(group_id@))->0;
            &&& final(settings).task_groups@ == old(settings).task_groups@.update(i, final(settings).task_groups@[i])
            &&& changed_group(old(settings).param_definitions@, old(settings).task_groups@[i], *request, final(settings).task_groups@[i])
            &&& same_group(g, final(settings).task_groups@[i])
            &&& tasks_follow(old(settings).package_tasks@, final(settings).package_tasks@, group_id@, final(settings).task_groups@[i], true)
            &&& final(settings).projects == old(settings).projects
            &&& final(settings).engines == old(settings).engines
            &&& final(settings).param_definitions == old(settings).param_definitions
        },
{
    validate_group_request(settings, request, Some(group_id))?;
    let i = match crate::state::find_group_index(&settings.task_groups, group_id) {
        Some(i) => i,
        None => {
            return Err(AppError::NotFound(crate::text::concat2("未找到任务组 ", group_id)));
        },
    };
    let params = normalize_params(&settings.param_definitions, &request.params)?;
    let presets = match &request.presets {
        Some(v) => Some(normalize_presets(&settings.param_definitions, v)?),
        None => None,
    };
    let hidden = match &request.hidden_params {
        Some(v) => Some(normalize_hidden_params(&settings.param_definitions, v)?),
        None => None,
    };
    let ghost before = settings.task_groups@;
    let mut g = settings.task_groups.remove(i);
    g.project_id = trim_str(request.project_id.as_str());
    g.name = trim_str(request.name.as_str());
    g.description = trim_str(request.description.as_str());
    g.branch = trim_str(request.branch.as_str());
    g.params = params;
    if let Some(p) = presets {
        g.presets = p;
    }
    if let Some(h) = hidden {
        g.hidden_params = h;
    }
    let result = g.dup();
    settings.task_groups.insert(i, g);
    assert(settings.task_groups@ =~= before.update(i as int, settings.task_groups@[i as int]));
    retag_tasks(&mut settings.package_tasks, group_id, &settings.task_groups[i], true);
    Ok(result)
}

/// What is wrong with a request to change a group's branch and parameters.
pub open spec fn group_params_problem(s: AppSettings, gid: Seq<char>, req: TaskGroupParamsRequest) -> Option<Problem> {
    if is_blank(req.branch@) {
        Some((ErrorKind::Validation, "任务组分支不能为空"@))
    } else if first_match(s.task_groups@, group_matches(gid)) is None {
        Some((ErrorKind::NotFound, "未找到任务组 "@ + gid))
    } else {
        params_problem(s.param_definitions@, req.params)
    }
}

/// Changes the branch and parameters of task group `group_id`; its tasks
/// follow the new branch. Nothing changes on an error.
pub fn update_task_group_params(settings: &mut AppSettings, group_id: &str, request: &TaskGroupParamsRequest) -> (r: Result<TaskGroup, AppError>)
    requires
        request.params.wf(),
    ensures
        outcome(r, group_params_problem(*old(settings), group_id@, *request)),
        r is Err ==> *final(settings) == *old(settings),
        r matches Ok(g) ==> {
            let i = first_match(old(settings).task_groups@, group_matches(group_id@))->0;
            let o = old(settings).task_groups@[i];
            let n = final(settings).task_groups@[i];
            &&& final(settings).task_groups@ == old(settings).task_groups@.update(i, n)
            &&& n == (TaskGroup { branch: n.branch, params: n.params, ..o })
            &&& n.branch@ == trim(request.branch@)
            &&& n.params.wf()
            &&& n.params.map() == params_fold(old(settings).param_definitions@, request.params.map()).0
            &&& same_group(g, n)
            &&& tasks_follow(old(settings).package_tasks@, final(settings).package_tasks@, group_id@, n, false)
            &&& final(settings).projects == old(settings).projects
            &&& final(settings).engines == old(settings).engines
            &&& final(settings).param_definitions == old(settings).param_definitions
        },
{
    if is_blank_str(request.branch.as_str()) {
        return Err(AppError::Validation("任务组分支不能为空".to_string()));
    }
    let i = match crate::state::find_group_index(&settings.task_groups, group_id) {
        Some(i) => i,
        None => {
            return Err(AppError::NotFound(crate::text::concat2("未找到任务组 ", group_id)));
        },
    };
    let params = normalize_params(&settings.param_definitions, &request.params)?;
    let ghost before = settings.task_groups@;
    let mut g = settings.task_groups.remove(i);
    g.branch = trim_str(request.branch.as_str());
    g.params = params;
    let result = g.dup();
    settings.task_groups.insert(i, g);
    assert(settings.task_groups@ =~= before.update(i as int, settings.task_groups@[i as int]));
    retag_tasks(&mut settings.package_tasks, group_id, &settings.task_groups[i], false);
    Ok(result)
}

} // verus!
