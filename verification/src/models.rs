//! The data model of the build server.

use vstd::prelude::*;
use crate::json::JsonValue;
use crate::param_map::ParamMap;

verus! {

#[derive(Debug, Clone, PartialEq, Default)]
pub struct Engine {
    pub name: String,
    pub path: String,
}

#[derive(Debug, Clone, Copy, PartialEq, Eq, Structural, Default)]
pub enum BuildMode {
    Test,
    Pre,
    #[default]
    Release,
}

pub open spec fn build_mode_text(m: BuildMode) -> Seq<char> {
    match m {
        BuildMode::Test => "test"@,
        BuildMode::Pre => "pre"@,
        BuildMode::Release => "release"@,
    }
}

impl BuildMode {
    /// The lower-case name of the mode.
    pub fn as_str(&self) -> (r: &'static str)
        ensures
            r@ == build_mode_text(*self),
    {
        proof {
            reveal_strlit("test");
            reveal_strlit("pre");
            reveal_strlit("release");
        }
        match self {
            BuildMode::Test => "test",
            BuildMode::Pre => "pre",
            BuildMode::Release => "release",
        }
    }
}

#[derive(Debug, Clone, PartialEq)]
pub struct Project {
    pub id: String,
    pub name: String,
    pub workspace_dir_key: String,
    pub git_url: String,
    pub engine_name: String,
    pub version: String,
    pub minor_version: u32,
    pub build_mode: BuildMode,
    pub is_hot_update: bool,
    pub enable_pay: bool,
    pub review_mode: bool,
}

impl Default for Project {
    fn default() -> (p: Self)
        ensures
            p.id@.len() == 0,
            p.name@.len() == 0,
            p.workspace_dir_key@.len() == 0,
            p.git_url@.len() == 0,
            p.engine_name@.len() == 0,
            p.version@ == "1.0.0"@,
            p.minor_version == 0,
            p.build_mode == BuildMode::Release,
            !p.is_hot_update,
            !p.enable_pay,
            !p.review_mode,
    {
        Project {
            id: String::new(),
            name: String::new(),
            workspace_dir_key: String::new(),
            git_url: String::new(),
            engine_name: String::new(),
            version: default_version(),
            minor_version: 0,
            build_mode: BuildMode::Release,
            is_hot_update: false,
            enable_pay: false,
            review_mode: false,
        }
    }
}

/// The version a project has when none is given.
pub fn default_version() -> (s: String)
    ensures
        s@ == "1.0.0"@,
{
    "1.0.0".to_string()
}

/// Dead-code injection count a task has when none is given.
pub fn default_dead_code_injection_count() -> (n: u32)
    ensures
        n == 200,
{
    200
}

/// Build arguments a task request has when none are given.
pub fn default_build_args_json() -> (s: String)
    ensures
        s@ == "{}"@,
{
    "{}".to_string()
}

#[derive(Debug, Clone, PartialEq, Default)]
pub struct GitConfig {
    pub username: String,
    pub password: String,
}

#[derive(Debug, Clone, PartialEq, Default)]
pub struct FeishuBotConfig {
    pub id: String,
    pub name: String,
    pub api_key: String,
}

/// A named set of parameter values that a task group offers.
#[derive(Debug, Clone, PartialEq, Default)]
pub struct GroupParamPreset {
    pub id: String,
    pub name: String,
    pub params: ParamMap,
}

#[derive(Debug, Clone, PartialEq, Default)]
pub struct TaskGroup {
    pub id: String,
    pub project_id: String,
    pub name: String,
    pub description: String,
    pub branch: String,
    pub params: ParamMap,
    pub presets: Vec<GroupParamPreset>,
    pub hidden_params: Vec<String>,
    pub order: u32,
}

#[derive(Debug, Clone, Copy, PartialEq, Eq, Structural, Default)]
pub enum ParamKind {
    #[default]
    Text,
    Number,
    Switch,
    Select,
}

#[derive(Debug, Clone, PartialEq, Default)]
pub struct ParamDefinition {
    pub key: String,
    pub label: String,
    pub kind: ParamKind,
    pub options: Vec<String>,
    pub default_value: JsonValue,
    pub required: bool,
    pub order: u32,
    pub description: String,
}

#[derive(Debug, Clone, Copy, PartialEq, Eq, Structural, Default)]
pub enum PrepParamType {
    #[default]
    Str,
    Int,
    Bool,
    Select,
}

#[derive(Debug, Clone, Copy, PartialEq, Eq, Structural, Default)]
pub enum PrepParamValueSource {
    #[default]
    Runtime,
    Fixed,
}

#[derive(Debug, Clone, PartialEq, Eq, Default)]
pub struct PrepParamOption {
    pub id: String,
    pub label: String,
    pub value: String,
}

#[derive(Debug, Clone, PartialEq, Default)]
pub struct PrepParam {
    pub name: String,
    pub param_type: PrepParamType,
    pub value_source: PrepParamValueSource,
    pub optional: bool,
    pub options: Vec<PrepParamOption>,
    pub fixed_value: Option<JsonValue>,
}

impl PrepParamOption {
    /// A copy equal to this option.
    pub fn dup(&self) -> (r: PrepParamOption)
        ensures
            r == *self,
    {
        PrepParamOption { id: self.id.clone(), label: self.label.clone(), value: self.value.clone() }
    }
}

impl PrepParam {
    /// Equal fields and the same options.
    pub open spec fn same_as(self, other: PrepParam) -> bool {
        &&& self.name == other.name
        &&& self.param_type == other.param_type
        &&& self.value_source == other.value_source
        &&& self.optional == other.optional
        &&& self.options@ == other.options@
        &&& self.fixed_value == other.fixed_value
    }

    /// A copy of this parameter: equal fields, the same options.
    pub fn dup(&self) -> (r: PrepParam)
        ensures
            r.same_as(*self),
    {
        let mut options: Vec<PrepParamOption> = Vec::new();
        let mut i: usize = 0;
        while i < self.options.len()
            invariant
                i <= self.options@.len(),
                options@ == self.options@.take(i as int),
            decreases self.options.len() - i,
        {
            options.push(self.options[i].dup());
            i = i + 1;
            assert(options@ =~= self.options@.take(i as int));
        }
        assert(self.options@.take(self.options@.len() as int) =~= self.options@);
        let fixed_value = match &self.fixed_value {
            Some(v) => Some(v.dup()),
            None => None,
        };
        PrepParam {
            name: self.name.clone(),
            param_type: self.param_type,
            value_source: self.value_source,
            optional: self.optional,
            options,
            fixed_value,
        }
    }
}

#[derive(Debug, Clone, PartialEq, Default)]
pub struct PrepProject {
    pub id: String,
    pub name: String,
    pub path: String,
    pub description: String,
    pub create_time: String,
    pub params: Vec<PrepParam>,
}

#[derive(Debug, Clone, PartialEq, Default)]
pub struct TaskPrepTarget {
    pub prep_project_id: String,
    pub params: ParamMap,
}

#[derive(Debug, Clone, Copy, PartialEq, Eq, Structural, Default)]
pub enum TaskPrepActionKind {
    #[default]
    Single,
    Conditional,
}

#[derive(Debug, Clone, PartialEq)]
pub enum TaskPrepAction {
    Single { prep_project_id: String, params: ParamMap },
    Conditional {
        condition_source: String,
        condition_equals: String,
        on_match_targets: Vec<TaskPrepTarget>,
        on_mismatch_targets: Vec<TaskPrepTarget>,
    },
}

impl Default for TaskPrepAction {
    fn default() -> (a: Self)
        ensures
            a matches TaskPrepAction::Single { prep_project_id, params } && prep_project_id@.len() == 0 && params.entries@.len() == 0,
    {
        TaskPrepAction::Single { prep_project_id: String::new(), params: ParamMap::new() }
    }
}

#[derive(Debug, Clone, PartialEq, Default)]
pub struct TaskProjectConfig {
    pub project_id: String,
    pub branch: String,
}

#[derive(Debug, Clone, Copy, PartialEq, Eq, Structural, Default)]
pub enum PackageTaskStatus {
    #[default]
    Pending,
    Running,
    Canceling,
    Canceled,
    Success,
    Failed,
}

#[derive(Debug, Clone, Copy, PartialEq, Eq, Structural, Default)]
pub enum ObfuscationMode {
    #[default]
    Classic,
    Ast,
}

#[derive(Debug, Clone, PartialEq, Default)]
pub struct PackageTask {
    pub id: String,
    pub name: String,
    pub group: String,
    pub task_group_id: String,
    pub order: u32,
    pub progress: u8,
    pub status: PackageTaskStatus,
    pub checked: bool,
    pub project: Option<TaskProjectConfig>,
    pub code_repo_url: String,
    pub asset_repo_url: String,
    pub build_args_json: String,
    pub enable_obfuscation: bool,
    pub obfuscation_mode: ObfuscationMode,
    pub obfuscation_seed: Option<u64>,
    pub enable_dead_code_injection: bool,
    pub dead_code_injection_count: u32,
    pub pre_build_actions: Vec<TaskPrepAction>,
    pub post_build_actions: Vec<TaskPrepAction>,
    pub last_log_path: Option<String>,
    pub last_error: Option<String>,
    pub started_at: Option<String>,
    pub finished_at: Option<String>,
}

#[derive(Debug, Clone, PartialEq, Eq, Default)]
pub struct PackageTaskRuntime {
    pub task_id: String,
    pub progress: u8,
    pub step_label: String,
    pub status: PackageTaskStatus,
    pub last_log_path: Option<String>,
    pub last_error: Option<String>,
    pub started_at: Option<String>,
    pub finished_at: Option<String>,
    pub canceling_at_unix_secs: Option<u64>,
}

#[derive(Debug, Clone, PartialEq, Eq, Default)]
pub struct RuntimeState {
    pub package_tasks: Vec<PackageTaskRuntime>,
}

#[derive(Debug, Clone, PartialEq, Default)]
pub struct AppSettings {
    pub engines: Vec<Engine>,
    pub projects: Vec<Project>,
    pub git_config: GitConfig,
    pub feishu_bots: Vec<FeishuBotConfig>,
    pub package_tasks: Vec<PackageTask>,
    pub task_groups: Vec<TaskGroup>,
    pub param_definitions: Vec<ParamDefinition>,
}

/// Settings that the web page may read: the same lists, without credentials.
#[derive(Debug, Clone, PartialEq, Default)]
pub struct PublicSettings {
    pub engines: Vec<Engine>,
    pub projects: Vec<Project>,
    pub feishu_bots: Vec<FeishuBotConfig>,
    pub package_tasks: Vec<PackageTask>,
    pub task_groups: Vec<TaskGroup>,
    pub param_definitions: Vec<ParamDefinition>,
    pub git_credentials_configured: bool,
}

/// Settings that the web page may write.
#[derive(Debug, Clone, PartialEq, Default)]
pub struct PublicSettingsUpdate {
    pub engines: Vec<Engine>,
    pub projects: Vec<Project>,
    pub feishu_bots: Vec<FeishuBotConfig>,
    pub param_definitions: Vec<ParamDefinition>,
}

#[derive(Debug, Clone, PartialEq, Eq)]
pub struct BuildTaskStatusDto {
    pub task_id: String,
    pub progress: u8,
    pub step_label: String,
    pub status: PackageTaskStatus,
    pub last_error: Option<String>,
    pub started_at: Option<String>,
    pub finished_at: Option<String>,
}

#[derive(Debug, Clone, PartialEq, Eq, Default)]
pub struct BuildStatusResponse {
    pub package_tasks: Vec<BuildTaskStatusDto>,
}

#[derive(Debug, Clone, PartialEq)]
pub struct BuildStartRequest {
    pub task_ids: Vec<String>,
}

#[derive(Debug, Clone, PartialEq)]
pub struct BuildStopRequest {
    pub task_id: String,
}

#[derive(Debug, Clone, PartialEq)]
pub struct BuildStopResponse {
    pub message: String,
}

#[derive(Debug, Clone, PartialEq)]
pub struct TaskGroupRequest {
    pub project_id: String,
    pub name: String,
    pub description: String,
    pub branch: String,
    pub params: ParamMap,
    pub copy_from_group_id: Option<String>,
    pub presets: Option<Vec<GroupParamPreset>>,
    pub hidden_params: Option<Vec<String>>,
}

#[derive(Debug, Clone, PartialEq)]
pub struct TaskGroupParamsRequest {
    pub branch: String,
    pub params: ParamMap,
}

#[derive(Debug, Clone, PartialEq)]
pub struct PackageTaskRequest {
    pub name: String,
    pub task_group_id: String,
    pub code_repo_url: String,
    pub asset_repo_url: String,
    pub build_args_json: String,
    pub enable_obfuscation: bool,
    pub obfuscation_mode: ObfuscationMode,
    pub obfuscation_seed: Option<u64>,
    pub enable_dead_code_injection: bool,
    pub dead_code_injection_count: u32,
    pub pre_build_actions: Vec<TaskPrepAction>,
    pub post_build_actions: Vec<TaskPrepAction>,
}

#[derive(Debug, Clone, PartialEq)]
pub struct PackageTaskReorderRequest {
    pub task_group_id: String,
    pub task_ids: Vec<String>,
}

#[derive(Debug, Clone, PartialEq)]
pub struct LegacyImportRequest {
    pub data_dir: String,
}

#[derive(Debug, Clone, PartialEq, Default)]
pub struct LegacyImportPreview {
    pub settings_found: bool,
    pub prep_project_count: usize,
    pub project_count: usize,
    pub task_count: usize,
    pub task_group_count: usize,
    pub imported: bool,
}

#[derive(Debug, Clone, PartialEq)]
pub struct BuildStartResponse {
    pub message: String,
}

#[derive(Debug, Clone, PartialEq)]
pub struct ProjectBranchesResponse {
    pub project_id: String,
    pub project_name: String,
    pub branches: Vec<String>,
}

#[derive(Debug, Clone, PartialEq)]
pub struct ProjectWorkspaceInitializeRequest {
    pub project_id: String,
}

#[derive(Debug, Clone, PartialEq)]
pub struct ProjectWorktreeCleanupRequest {
    pub project_id: String,
}

#[derive(Debug, Clone, PartialEq)]
pub struct ProjectWorkspaceStatus {
    pub project_id: String,
    pub project_name: String,
    pub workspace_dir_key: String,
    pub initialized: bool,
    pub project_path: String,
    pub branch: Option<String>,
    pub commit: Option<String>,
}

#[derive(Debug, Clone, PartialEq)]
pub struct ProjectWorktreeCleanupResponse {
    pub project_id: String,
    pub project_name: String,
    pub project_path: String,
    pub had_staged_changes: bool,
    pub had_unstaged_changes: bool,
    pub had_untracked_files: bool,
}

#[derive(Debug, Clone, PartialEq)]
pub struct TaskPrivateReposCleanupResponse {
    pub task_id: String,
    pub task_name: String,
    pub code_repo_path: String,
    pub asset_repo_path: String,
    pub code_repo_git_repo: bool,
    pub asset_repo_git_repo: bool,
    pub code_repo_cleaned: bool,
    pub asset_repo_cleaned: bool,
    pub code_repo_had_staged_changes: bool,
    pub code_repo_had_unstaged_changes: bool,
    pub code_repo_had_untracked_files: bool,
    pub asset_repo_had_staged_changes: bool,
    pub asset_repo_had_unstaged_changes: bool,
    pub asset_repo_had_untracked_files: bool,
}

#[derive(Debug, Clone, PartialEq)]
pub struct CreatePrepProjectRequest {
    pub name: String,
    pub description: String,
    pub params: Vec<PrepParam>,
}

#[derive(Debug, Clone, PartialEq)]
pub struct UpdatePrepProjectRequest {
    pub name: String,
    pub description: String,
    pub params: Vec<PrepParam>,
}

#[derive(Debug, Clone, PartialEq)]
pub struct PrepProjectRunRequest {
    pub project_id: String,
    pub params: ParamMap,
}

#[derive(Debug, Clone, PartialEq)]
pub struct PrepProjectRunForTasksRequest {
    pub task_ids: Vec<String>,
    pub params: ParamMap,
}

#[derive(Debug, Clone, PartialEq)]
pub struct PrepProjectRunResponse {
    pub success: bool,
    pub exit_code: i32,
    pub stdout: String,
    pub stderr: String,
    pub command: String,
    pub project_path: String,
}

#[derive(Debug, Clone, PartialEq)]
pub struct PrepProjectTaskRunItem {
    pub task_id: String,
    pub task_name: String,
    pub project_name: String,
    pub success: bool,
    pub exit_code: i32,
    pub command: String,
    pub project_path: String,
    pub stdout: String,
    pub stderr: String,
    pub error_message: Option<String>,
}

#[derive(Debug, Clone, PartialEq)]
pub struct PrepProjectRunForTasksResponse {
    pub total_count: usize,
    pub success_count: usize,
    pub failed_count: usize,
    pub results: Vec<PrepProjectTaskRunItem>,
}

#[derive(Debug, Clone, PartialEq, Eq)]
pub struct PrepProjectExportFile {
    pub path: String,
    pub content: String,
}

#[derive(Debug, Clone, PartialEq)]
pub struct PrepProjectExportMeta {
    pub name: String,
    pub description: String,
    pub params: Vec<PrepParam>,
}

#[derive(Debug, Clone, PartialEq)]
pub struct PrepProjectExportPayload {
    pub schema_version: u32,
    pub prep: PrepProjectExportMeta,
    pub files: Vec<PrepProjectExportFile>,
}

#[derive(Debug, Clone, Copy, PartialEq, Eq, Structural)]
pub enum PrepProjectImportMode {
    Create,
    Update,
}

#[derive(Debug, Clone, PartialEq)]
pub struct PrepProjectImportRequest {
    pub raw_text: String,
    pub mode: PrepProjectImportMode,
    pub target_prep_project_id: Option<String>,
}

#[derive(Debug, Clone, PartialEq)]
pub struct LogFileInfo {
    pub name: String,
    pub path: String,
    pub size: u64,
    pub created_at: String,
}

#[derive(Debug, Clone, PartialEq)]
pub struct LogPageResponse {
    pub items: Vec<LogFileInfo>,
    pub total: usize,
    pub page: usize,
    pub page_size: usize,
}

#[derive(Debug, Clone, PartialEq)]
pub struct RepoSyncResult {
    pub path: String,
    pub branch: String,
    pub commit: String,
}

} // verus!
