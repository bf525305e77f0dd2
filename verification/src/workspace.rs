//! Where things live under the data directory (logs, prep projects, project
//! workspaces, task directories), the name of a build log, and what is
//! reported of a project's workspace.

use vstd::prelude::*;
use crate::error::{AppError, ErrorKind, outcome};
use crate::git::UnstagedCleanupResult;
use crate::models::{Project, ProjectWorkspaceStatus, ProjectWorktreeCleanupResponse, RepoSyncResult};
use crate::paths::{join_path, join_text};
use crate::runtime::slug;
use crate::text::{concat2, concat3, copy_string, push_str};

verus! {

pub open spec fn logs_dir_of(data_dir: Seq<char>) -> Seq<char> {
    join_text(data_dir, "logs"@)
}

pub open spec fn preps_dir_of(data_dir: Seq<char>) -> Seq<char> {
    join_text(data_dir, "preps"@)
}

pub open spec fn workspaces_dir_of(data_dir: Seq<char>) -> Seq<char> {
    join_text(data_dir, "workspaces"@)
}

/// The workspace of a project: named by its workspace key.
pub open spec fn project_dir_of(data_dir: Seq<char>, p: Project) -> Seq<char> {
    join_text(workspaces_dir_of(data_dir), p.workspace_dir_key@)
}

pub open spec fn main_repo_dir_of(data_dir: Seq<char>, p: Project) -> Seq<char> {
    join_text(project_dir_of(data_dir, p), "main-repo"@)
}

/// The directory of a task in its project's workspace.
pub open spec fn task_dir_of(data_dir: Seq<char>, p: Project, task_id: Seq<char>) -> Seq<char> {
    join_text(join_text(project_dir_of(data_dir, p), "tasks"@), task_id)
}

pub fn logs_dir(data_dir: &str) -> (r: String)
    ensures
        r@ == logs_dir_of(data_dir@),
{
    join_path(data_dir, "logs")
}

pub fn preps_dir(data_dir: &str) -> (r: String)
    ensures
        r@ == preps_dir_of(data_dir@),
{
    join_path(data_dir, "preps")
}

pub fn workspaces_dir(data_dir: &str) -> (r: String)
    ensures
        r@ == workspaces_dir_of(data_dir@),
{
    join_path(data_dir, "workspaces")
}

pub fn workspace_project_dir(data_dir: &str, project: &Project) -> (r: String)
    ensures
        r@ == project_dir_of(data_dir@, *project),
{
    let w = workspaces_dir(data_dir);
    join_path(w.as_str(), project.workspace_dir_key.as_str())
}

pub fn workspace_main_repo_dir(data_dir: &str, project: &Project) -> (r: String)
    ensures
        r@ == main_repo_dir_of(data_dir@, *project),
{
    let d = workspace_project_dir(data_dir, project);
    join_path(d.as_str(), "main-repo")
}

pub fn task_dir(data_dir: &str, project: &Project, task_id: &str) -> (r: String)
    ensures
        r@ == task_dir_of(data_dir@, *project, task_id@),
{
    let d = workspace_project_dir(data_dir, project);
    let t = join_path(d.as_str(), "tasks");
    join_path(t.as_str(), task_id)
}

/// The file name of a build log: the time it was made and the task's name
/// made safe for a file name.
pub open spec fn log_file_name_text(timestamp: Seq<char>, task_name: Seq<char>) -> Seq<char> {
    "build_log_"@ + timestamp + "_"@ + slug(task_name) + ".log"@
}

pub fn log_file_name(timestamp: &str, task_name: &str) -> (r: String)
    ensures
        r@ == log_file_name_text(timestamp@, task_name@),
{
    let safe = crate::runtime::slugify(task_name);
    let mut s = concat3("build_log_", timestamp, "_");
    push_str(&mut s, safe.as_str());
    push_str(&mut s, ".log");
    s
}

/// The workspace of a project as reported: its branch and commit only when
/// it is initialized.
pub fn workspace_status(
    project: &Project,
    project_path: String,
    initialized: bool,
    branch: Option<String>,
    commit: Option<String>,
) -> (r: ProjectWorkspaceStatus)
    ensures
        r.project_id@ == project.id@,
        r.project_name@ == project.name@,
        r.workspace_dir_key@ == project.workspace_dir_key@,
        r.initialized == initialized,
        r.project_path == project_path,
        initialized ==> r.branch == branch && r.commit == commit,
        !initialized ==> r.branch is None && r.commit is None,
{
    let (branch, commit) = if initialized { (branch, commit) } else { (None, None) };
    ProjectWorkspaceStatus {
        project_id: copy_string(project.id.as_str()),
        project_name: copy_string(project.name.as_str()),
        workspace_dir_key: copy_string(project.workspace_dir_key.as_str()),
        initialized,
        project_path,
        branch,
        commit,
    }
}

/// The workspace of a project just synchronized: initialized, at the
/// synchronized branch and commit.
pub fn workspace_status_from_sync_result(project: &Project, sync_result: RepoSyncResult) -> (r: ProjectWorkspaceStatus)
    ensures
        r.project_id@ == project.id@,
        r.project_name@ == project.name@,
        r.workspace_dir_key@ == project.workspace_dir_key@,
        r.initialized,
        r.project_path == sync_result.path,
        r.branch == Some(sync_result.branch),
        r.commit == Some(sync_result.commit),
{
    ProjectWorkspaceStatus {
        project_id: copy_string(project.id.as_str()),
        project_name: copy_string(project.name.as_str()),
        workspace_dir_key: copy_string(project.workspace_dir_key.as_str()),
        initialized: true,
        project_path: sync_result.path,
        branch: Some(sync_result.branch),
        commit: Some(sync_result.commit),
    }
}

/// A project's worktree can be cleaned only once it is initialized and its
/// repository is there.
pub fn check_worktree_cleanup(project: &Project, initialized: bool, repo_exists: bool) -> (r: Result<(), AppError>)
    ensures
        outcome(r, if !initialized || !repo_exists {
            Some((ErrorKind::Validation, "项目 "@ + project.name@ + " 尚未初始化，请先到引擎与项目页初始化"@))
        } else {
            None
        }),
{
    if !initialized || !repo_exists {
        return Err(AppError::Validation(concat3("项目 ", project.name.as_str(), " 尚未初始化，请先到引擎与项目页初始化")));
    }
    Ok(())
}

/// What cleaning a project's worktree is reported as.
pub fn worktree_cleanup_response(project: &Project, project_path: String, result: &UnstagedCleanupResult) -> (r: ProjectWorktreeCleanupResponse)
    ensures
        r.project_id@ == project.id@,
        r.project_name@ == project.name@,
        r.project_path == project_path,
        r.had_staged_changes == result.had_staged_changes,
        r.had_unstaged_changes == result.had_unstaged_changes,
        r.had_untracked_files == result.had_untracked_files,
{
    ProjectWorktreeCleanupResponse {
        project_id: copy_string(project.id.as_str()),
        project_name: copy_string(project.name.as_str()),
        project_path,
        had_staged_changes: result.had_staged_changes,
        had_unstaged_changes: result.had_unstaged_changes,
        had_untracked_files: result.had_untracked_files,
    }
}

} // verus!
