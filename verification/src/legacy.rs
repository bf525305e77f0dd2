//! Importing the data of an older installation: what a preview reports,
//! when an import is refused, and what an import does to the state.

use vstd::prelude::*;
use crate::error::{AppError, ErrorKind, outcome};
use crate::ids::IdCounter;
use crate::migration::{normalize_settings, settings_normalized};
use crate::models::{AppSettings, GitConfig, LegacyImportPreview};
use crate::state::{AppCore, saved_as};
use crate::text::concat2;

verus! {

/// What importing the old settings would bring: their projects and tasks,
/// the groups their tasks fall into once normalized, and the prep projects
/// found.
pub fn preview_legacy_import(settings: AppSettings, settings_found: bool, prep_project_count: usize, counter: &mut IdCounter) -> (r: LegacyImportPreview)
    ensures
        r.settings_found == settings_found,
        r.prep_project_count == prep_project_count,
        r.project_count == settings.projects@.len(),
        r.task_count == settings.package_tasks@.len(),
        exists|n: (AppSettings, bool)| settings_normalized(settings, n) && r.task_group_count == n.0.task_groups@.len(),
        !r.imported,
{
    let project_count = settings.projects.len();
    let task_count = settings.package_tasks.len();
    let n = normalize_settings(settings, counter);
    let ghost gn = n;
    let task_group_count = n.0.task_groups.len();
    LegacyImportPreview {
        settings_found,
        prep_project_count,
        project_count,
        task_count,
        task_group_count,
        imported: false,
    }
}

/// The error for an import whose old settings file is missing.
pub fn legacy_settings_missing_error(settings_path: &str) -> (e: AppError)
    ensures
        e.kind() == ErrorKind::NotFound,
        e.spec_message() == "未找到旧设置文件："@ + settings_path@,
{
    AppError::NotFound(concat2("未找到旧设置文件：", settings_path))
}

/// The state has business data: projects, tasks or groups.
pub open spec fn has_business_data(s: AppSettings) -> bool {
    s.projects@.len() > 0 || s.package_tasks@.len() > 0 || s.task_groups@.len() > 0
}

impl AppCore {
    /// An import never overwrites business data.
    pub fn check_import_target(&self) -> (r: Result<(), AppError>)
        ensures
            outcome(r, if has_business_data(self.settings) {
                Some((ErrorKind::Conflict, "目标工具已有业务数据，拒绝覆盖导入"@))
            } else {
                None
            }),
    {
        if self.settings.projects.len() > 0 || self.settings.package_tasks.len() > 0 || self.settings.task_groups.len() > 0 {
            return Err(AppError::Conflict("目标工具已有业务数据，拒绝覆盖导入".to_string()));
        }
        Ok(())
    }

    /// Imports old settings: they are normalized and saved, and their
    /// credentials are given back to be kept with the control settings.
    /// The preview reports what was imported.
    pub fn import_legacy_settings(&mut self, legacy: AppSettings, prep_project_count: usize, counter: &mut IdCounter) -> (r: (LegacyImportPreview, GitConfig))
        ensures
            r.1 == legacy.git_config,
            exists|n: (AppSettings, bool)|
                #![trigger settings_normalized(legacy, n)]
                settings_normalized(legacy, n)
                && r.0.project_count == n.0.projects@.len()
                && r.0.task_count == n.0.package_tasks@.len()
                && r.0.task_group_count == n.0.task_groups@.len()
                && saved_as(*old(self), *final(self), n.0),
            r.0.settings_found,
            r.0.imported,
            r.0.prep_project_count == prep_project_count,
    {
        let git_config = GitConfig {
            username: legacy.git_config.username.clone(),
            password: legacy.git_config.password.clone(),
        };
        let n = normalize_settings(legacy, counter);
        let ghost gn = n;
        let (normalized, _) = n;
        let preview = LegacyImportPreview {
            settings_found: true,
            prep_project_count,
            project_count: normalized.projects.len(),
            task_count: normalized.package_tasks.len(),
            task_group_count: normalized.task_groups.len(),
            imported: true,
        };
        self.save_settings(normalized, counter);
        assert(settings_normalized(legacy, gn) && saved_as(*old(self), *self, gn.0));
        (preview, git_config)
    }
}

} // verus!
