//! Copies of the model's values: each `dup` gives a value equal field by
//! field, lists holding equal elements (`same_*` says so for types that hold
//! lists).

use vstd::prelude::*;
use crate::models::{
    AppSettings, Engine, FeishuBotConfig, GitConfig, GroupParamPreset, PackageTask,
    PackageTaskRuntime, ParamDefinition, Project, TaskGroup, TaskPrepAction, TaskPrepTarget,
    TaskProjectConfig,
};
use crate::param_map::ParamMap;

verus! {

pub open spec fn same_target(a: TaskPrepTarget, b: TaskPrepTarget) -> bool {
    a.prep_project_id == b.prep_project_id && a.params.entries@ == b.params.entries@
}

pub open spec fn same_targets(a: Seq<TaskPrepTarget>, b: Seq<TaskPrepTarget>) -> bool {
    a.len() == b.len() && forall|i: int| 0 <= i < a.len() ==> same_target(#[trigger] a[i], b[i])
}

pub open spec fn same_action(a: TaskPrepAction, b: TaskPrepAction) -> bool {
    match (a, b) {
        (
            TaskPrepAction::Single { prep_project_id: p1, params: m1 },
            TaskPrepAction::Single { prep_project_id: p2, params: m2 },
        ) => p1 == p2 && m1.entries@ == m2.entries@,
        (
            TaskPrepAction::Conditional { condition_source: s1, condition_equals: e1, on_match_targets: t1, on_mismatch_targets: f1 },
            TaskPrepAction::Conditional { condition_source: s2, condition_equals: e2, on_match_targets: t2, on_mismatch_targets: f2 },
        ) => s1 == s2 && e1 == e2 && same_targets(t1@, t2@) && same_targets(f1@, f2@),
        _ => false,
    }
}

pub open spec fn same_actions(a: Seq<TaskPrepAction>, b: Seq<TaskPrepAction>) -> bool {
    a.len() == b.len() && forall|i: int| 0 <= i < a.len() ==> same_action(#[trigger] a[i], b[i])
}

/// Equal fields, the same actions.
pub open spec fn same_task(a: PackageTask, b: PackageTask) -> bool {
    &&& a.id == b.id
    &&& a.name == b.name
    &&& a.group == b.group
    &&& a.task_group_id == b.task_group_id
    &&& a.order == b.order
    &&& a.progress == b.progress
    &&& a.status == b.status
    &&& a.checked == b.checked
    &&& a.project == b.project
    &&& a.code_repo_url == b.code_repo_url
    &&& a.asset_repo_url == b.asset_repo_url
    &&& a.build_args_json == b.build_args_json
    &&& a.enable_obfuscation == b.enable_obfuscation
    &&& a.obfuscation_mode == b.obfuscation_mode
    &&& a.obfuscation_seed == b.obfuscation_seed
    &&& a.enable_dead_code_injection == b.enable_dead_code_injection
    &&& a.dead_code_injection_count == b.dead_code_injection_count
    &&& same_actions(a.pre_build_actions@, b.pre_build_actions@)
    &&& same_actions(a.post_build_actions@, b.post_build_actions@)
    &&& a.last_log_path == b.last_log_path
    &&& a.last_error == b.last_error
    &&& a.started_at == b.started_at
    &&& a.finished_at == b.finished_at
}

pub open spec fn same_tasks(a: Seq<PackageTask>, b: Seq<PackageTask>) -> bool {
    a.len() == b.len() && forall|i: int| 0 <= i < a.len() ==> same_task(#[trigger] a[i], b[i])
}

pub open spec fn same_preset(a: GroupParamPreset, b: GroupParamPreset) -> bool {
    a.id == b.id && a.name == b.name && a.params.entries@ == b.params.entries@
}

pub open spec fn same_presets(a: Seq<GroupParamPreset>, b: Seq<GroupParamPreset>) -> bool {
    a.len() == b.len() && forall|i: int| 0 <= i < a.len() ==> same_preset(#[trigger] a[i], b[i])
}

pub open spec fn same_group(a: TaskGroup, b: TaskGroup) -> bool {
    &&& a.id == b.id
    &&& a.project_id == b.project_id
    &&& a.name == b.name
    &&& a.description == b.description
    &&& a.branch == b.branch
    &&& a.params.entries@ == b.params.entries@
    &&& same_presets(a.presets@, b.presets@)
    &&& a.hidden_params@ == b.hidden_params@
    &&& a.order == b.order
}

pub open spec fn same_groups(a: Seq<TaskGroup>, b: Seq<TaskGroup>) -> bool {
    a.len() == b.len() && forall|i: int| 0 <= i < a.len() ==> same_group(#[trigger] a[i], b[i])
}

pub open spec fn same_definition(a: ParamDefinition, b: ParamDefinition) -> bool {
    &&& a.key == b.key
    &&& a.label == b.label
    &&& a.kind == b.kind
    &&& a.options@ == b.options@
    &&& a.default_value == b.default_value
    &&& a.required == b.required
    &&& a.order == b.order
    &&& a.description == b.description
}

pub open spec fn same_definitions(a: Seq<ParamDefinition>, b: Seq<ParamDefinition>) -> bool {
    a.len() == b.len() && forall|i: int| 0 <= i < a.len() ==> same_definition(#[trigger] a[i], b[i])
}

pub open spec fn same_settings(a: AppSettings, b: AppSettings) -> bool {
    &&& a.engines@ == b.engines@
    &&& a.projects@ == b.projects@
    &&& a.git_config == b.git_config
    &&& a.feishu_bots@ == b.feishu_bots@
    &&& same_tasks(a.package_tasks@, b.package_tasks@)
    &&& same_groups(a.task_groups@, b.task_groups@)
    &&& same_definitions(a.param_definitions@, b.param_definitions@)
}

pub fn dup_string_opt(s: &Option<String>) -> (r: Option<String>)
    ensures
        r == *s,
{
    match s {
        Some(v) => Some(v.clone()),
        None => None,
    }
}

pub fn dup_strings(v: &Vec<String>) -> (r: Vec<String>)
    ensures
        r@ == v@,
{
    let mut out: Vec<String> = Vec::new();
    let mut i: usize = 0;
    while i < v.len()
        invariant
            i <= v@.len(),
            out@ == v@.take(i as int),
        decreases v.len() - i,
    {
        out.push(v[i].clone());
        i = i + 1;
        assert(out@ =~= v@.take(i as int));
    }
    assert(v@.take(v@.len() as int) =~= v@);
    out
}

impl Engine {
    pub fn dup(&self) -> (r: Engine)
        ensures
            r == *self,
    {
        Engine { name: self.name.clone(), path: self.path.clone() }
    }
}

impl Project {
    pub fn dup(&self) -> (r: Project)
        ensures
            r == *self,
    {
        Project {
            id: self.id.clone(),
            name: self.name.clone(),
            workspace_dir_key: self.workspace_dir_key.clone(),
            git_url: self.git_url.clone(),
            engine_name: self.engine_name.clone(),
            version: self.version.clone(),
            minor_version: self.minor_version,
            build_mode: self.build_mode,
            is_hot_update: self.is_hot_update,
            enable_pay: self.enable_pay,
            review_mode: self.review_mode,
        }
    }
}

impl GitConfig {
    pub fn dup(&self) -> (r: GitConfig)
        ensures
            r == *self,
    {
        GitConfig { username: self.username.clone(), password: self.password.clone() }
    }
}

impl FeishuBotConfig {
    pub fn dup(&self) -> (r: FeishuBotConfig)
        ensures
            r == *self,
    {
        FeishuBotConfig { id: self.id.clone(), name: self.name.clone(), api_key: self.api_key.clone() }
    }
}

impl TaskProjectConfig {
    pub fn dup(&self) -> (r: TaskProjectConfig)
        ensures
            r == *self,
    {
        TaskProjectConfig { project_id: self.project_id.clone(), branch: self.branch.clone() }
    }
}

impl PackageTaskRuntime {
    pub fn dup(&self) -> (r: PackageTaskRuntime)
        ensures
            r == *self,
    {
        PackageTaskRuntime {
            task_id: self.task_id.clone(),
            progress: self.progress,
            step_label: self.step_label.clone(),
            status: self.status,
            last_log_path: dup_string_opt(&self.last_log_path),
            last_error: dup_string_opt(&self.last_error),
            started_at: dup_string_opt(&self.started_at),
            finished_at: dup_string_opt(&self.finished_at),
            canceling_at_unix_secs: self.canceling_at_unix_secs,
        }
    }
}

pub fn dup_engines(v: &Vec<Engine>) -> (r: Vec<Engine>)
    ensures
        r@ == v@,
{
    let mut out: Vec<Engine> = Vec::new();
    let mut i: usize = 0;
    while i < v.len()
        invariant
            i <= v@.len(),
            out@ == v@.take(i as int),
        decreases v.len() - i,
    {
        out.push(v[i].dup());
        i = i + 1;
        assert(out@ =~= v@.take(i as int));
    }
    assert(v@.take(v@.len() as int) =~= v@);
    out
}

pub fn dup_projects(v: &Vec<Project>) -> (r: Vec<Project>)
    ensures
        r@ == v@,
{
    let mut out: Vec<Project> = Vec::new();
    let mut i: usize = 0;
    while i < v.len()
        invariant
            i <= v@.len(),
            out@ == v@.take(i as int),
        decreases v.len() - i,
    {
        out.push(v[i].dup());
        i = i + 1;
        assert(out@ =~= v@.take(i as int));
    }
    assert(v@.take(v@.len() as int) =~= v@);
    out
}

pub fn dup_bots(v: &Vec<FeishuBotConfig>) -> (r: Vec<FeishuBotConfig>)
    ensures
        r@ == v@,
{
    let mut out: Vec<FeishuBotConfig> = Vec::new();
    let mut i: usize = 0;
    while i < v.len()
        invariant
            i <= v@.len(),
            out@ == v@.take(i as int),
        decreases v.len() - i,
    {
        out.push(v[i].dup());
        i = i + 1;
        assert(out@ =~= v@.take(i as int));
    }
    assert(v@.take(v@.len() as int) =~= v@);
    out
}

impl TaskPrepTarget {
    pub fn dup(&self) -> (r: TaskPrepTarget)
        ensures
            same_target(r, *self),
    {
        TaskPrepTarget { prep_project_id: self.prep_project_id.clone(), params: self.params.clone_map() }
    }
}

pub fn dup_targets(v: &Vec<TaskPrepTarget>) -> (r: Vec<TaskPrepTarget>)
    ensures
        same_targets(r@, v@),
{
    let mut out: Vec<TaskPrepTarget> = Vec::new();
    let mut i: usize = 0;
    while i < v.len()
        invariant
            i <= v@.len(),
            out@.len() == i,
            forall|j: int| 0 <= j < i ==> same_target(#[trigger] out@[j], v@[j]),
        decreases v.len() - i,
    {
        out.push(v[i].dup());
        i = i + 1;
    }
    out
}

impl TaskPrepAction {
    pub fn dup(&self) -> (r: TaskPrepAction)
        ensures
            same_action(r, *self),
    {
        match self {
            TaskPrepAction::Single { prep_project_id, params } => TaskPrepAction::Single {
                prep_project_id: prep_project_id.clone(),
                params: params.clone_map(),
            },
            TaskPrepAction::Conditional { condition_source, condition_equals, on_match_targets, on_mismatch_targets } => {
                TaskPrepAction::Conditional {
                    condition_source: condition_source.clone(),
                    condition_equals: condition_equals.clone(),
                    on_match_targets: dup_targets(on_match_targets),
                    on_mismatch_targets: dup_targets(on_mismatch_targets),
                }
            },
        }
    }
}

pub fn dup_actions(v: &Vec<TaskPrepAction>) -> (r: Vec<TaskPrepAction>)
    ensures
        same_actions(r@, v@),
{
    let mut out: Vec<TaskPrepAction> = Vec::new();
    let mut i: usize = 0;
    while i < v.len()
        invariant
            i <= v@.len(),
            out@.len() == i,
            forall|j: int| 0 <= j < i ==> same_action(#[trigger] out@[j], v@[j]),
        decreases v.len() - i,
    {
        out.push(v[i].dup());
        i = i + 1;
    }
    out
}

impl PackageTask {
    pub fn dup(&self) -> (r: PackageTask)
        ensures
            same_task(r, *self),
    {
        PackageTask {
            id: self.id.clone(),
            name: self.name.clone(),
            group: self.group.clone(),
            task_group_id: self.task_group_id.clone(),
            order: self.order,
            progress: self.progress,
            status: self.status,
            checked: self.checked,
            project: match &self.project {
                Some(p) => Some(p.dup()),
                None => None,
            },
            code_repo_url: self.code_repo_url.clone(),
            asset_repo_url: self.asset_repo_url.clone(),
            build_args_json: self.build_args_json.clone(),
            enable_obfuscation: self.enable_obfuscation,
            obfuscation_mode: self.obfuscation_mode,
            obfuscation_seed: self.obfuscation_seed,
            enable_dead_code_injection: self.enable_dead_code_injection,
            dead_code_injection_count: self.dead_code_injection_count,
            pre_build_actions: dup_actions(&self.pre_build_actions),
            post_build_actions: dup_actions(&self.post_build_actions),
            last_log_path: dup_string_opt(&self.last_log_path),
            last_error: dup_string_opt(&self.last_error),
            started_at: dup_string_opt(&self.started_at),
            finished_at: dup_string_opt(&self.finished_at),
        }
    }
}

pub fn dup_tasks(v: &Vec<PackageTask>) -> (r: Vec<PackageTask>)
    ensures
        same_tasks(r@, v@),
{
    let mut out: Vec<PackageTask> = Vec::new();
    let mut i: usize = 0;
    while i < v.len()
        invariant
            i <= v@.len(),
            out@.len() == i,
            forall|j: int| 0 <= j < i ==> same_task(#[trigger] out@[j], v@[j]),
        decreases v.len() - i,
    {
        out.push(v[i].dup());
        i = i + 1;
    }
    out
}

impl GroupParamPreset {
    pub fn dup(&self) -> (r: GroupParamPreset)
        ensures
            same_preset(r, *self),
    {
        GroupParamPreset { id: self.id.clone(), name: self.name.clone(), params: self.params.clone_map() }
    }
}

pub fn dup_presets(v: &Vec<GroupParamPreset>) -> (r: Vec<GroupParamPreset>)
    ensures
        same_presets(r@, v@),
{
    let mut out: Vec<GroupParamPreset> = Vec::new();
    let mut i: usize = 0;
    while i < v.len()
        invariant
            i <= v@.len(),
            out@.len() == i,
            forall|j: int| 0 <= j < i ==> same_preset(#[trigger] out@[j], v@[j]),
        decreases v.len() - i,
    {
        out.push(v[i].dup());
        i = i + 1;
    }
    out
}

impl TaskGroup {
    pub fn dup(&self) -> (r: TaskGroup)
        ensures
            same_group(r, *self),
    {
        TaskGroup {
            id: self.id.clone(),
            project_id: self.project_id.clone(),
            name: self.name.clone(),
            description: self.description.clone(),
            branch: self.branch.clone(),
            params: self.params.clone_map(),
            presets: dup_presets(&self.presets),
            hidden_params: dup_strings(&self.hidden_params),
            order: self.order,
        }
    }
}

pub fn dup_groups(v: &Vec<TaskGroup>) -> (r: Vec<TaskGroup>)
    ensures
        same_groups(r@, v@),
{
    let mut out: Vec<TaskGroup> = Vec::new();
    let mut i: usize = 0;
    while i < v.len()
        invariant
            i <= v@.len(),
            out@.len() == i,
            forall|j: int| 0 <= j < i ==> same_group(#[trigger] out@[j], v@[j]),
        decreases v.len() - i,
    {
        out.push(v[i].dup());
        i = i + 1;
    }
    out
}

impl ParamDefinition {
    pub fn dup(&self) -> (r: ParamDefinition)
        ensures
            same_definition(r, *self),
    {
        ParamDefinition {
            key: self.key.clone(),
            label: self.label.clone(),
            kind: self.kind,
            options: dup_strings(&self.options),
            default_value: self.default_value.dup(),
            required: self.required,
            order: self.order,
            description: self.description.clone(),
        }
    }
}

pub fn dup_definitions(v: &Vec<ParamDefinition>) -> (r: Vec<ParamDefinition>)
    ensures
        same_definitions(r@, v@),
{
    let mut out: Vec<ParamDefinition> = Vec::new();
    let mut i: usize = 0;
    while i < v.len()
        invariant
            i <= v@.len(),
            out@.len() == i,
            forall|j: int| 0 <= j < i ==> same_definition(#[trigger] out@[j], v@[j]),
        decreases v.len() - i,
    {
        out.push(v[i].dup());
        i = i + 1;
    }
    out
}

impl AppSettings {
    pub fn dup(&self) -> (r: AppSettings)
        ensures
            same_settings(r, *self),
    {
        AppSettings {
            engines: dup_engines(&self.engines),
            projects: dup_projects(&self.projects),
            git_config: self.git_config.dup(),
            feishu_bots: dup_bots(&self.feishu_bots),
            package_tasks: dup_tasks(&self.package_tasks),
            task_groups: dup_groups(&self.task_groups),
            param_definitions: dup_definitions(&self.param_definitions),
        }
    }
}

} // verus!
