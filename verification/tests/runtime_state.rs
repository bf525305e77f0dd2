use cocos_build_lan_server::ids::IdCounter;
use cocos_build_lan_server::migration::normalize_settings;
use cocos_build_lan_server::models::{
    AppSettings, GitConfig, ObfuscationMode, PackageTask, PackageTaskRuntime, PackageTaskStatus,
    Project, RuntimeState, TaskPrepAction, TaskProjectConfig,
};
use cocos_build_lan_server::runtime::{
    apply_runtime_state, filter_runtime_state_for_settings, normalize_runtime_state_on_startup,
    slugify, strip_runtime_from_task,
};
use cocos_build_lan_server::state::{AppCore, RuntimeFlushMode, RuntimePatch};

fn sample_task() -> PackageTask {
    PackageTask {
        id: "task_1".to_string(),
        name: "demo".to_string(),
        group: "group".to_string(),
        task_group_id: String::new(),
        order: 0,
        progress: 80,
        status: PackageTaskStatus::Running,
        checked: true,
        project: None,
        code_repo_url: String::new(),
        asset_repo_url: String::new(),
        build_args_json: "{}".to_string(),
        enable_obfuscation: false,
        obfuscation_mode: ObfuscationMode::Classic,
        obfuscation_seed: None,
        enable_dead_code_injection: false,
        dead_code_injection_count: 200,
        pre_build_actions: Vec::<TaskPrepAction>::new(),
        post_build_actions: Vec::<TaskPrepAction>::new(),
        last_log_path: Some("/tmp/log".to_string()),
        last_error: Some("boom".to_string()),
        started_at: Some("start".to_string()),
        finished_at: Some("end".to_string()),
    }
}

fn patch() -> RuntimePatch {
    RuntimePatch {
        progress: None,
        progress_if_below: None,
        progress_step_below: None,
        step_label: None,
        status: None,
        last_log_path: None,
        last_error: None,
        started_at: None,
        finished_at: None,
        canceling_at_unix_secs: None,
    }
}

fn settings_with_tasks(ids: &[&str]) -> AppSettings {
    AppSettings {
        package_tasks: ids
            .iter()
            .map(|id| PackageTask { id: id.to_string(), ..PackageTask::default() })
            .collect(),
        ..AppSettings::default()
    }
}

fn core_with_tasks(ids: &[&str]) -> AppCore {
    let mut core = AppCore::new(AppSettings::default(), GitConfig::default(), RuntimeState::default());
    core.save_settings(settings_with_tasks(ids), &mut IdCounter::new());
    core
}

#[test]
fn strip_runtime_should_keep_static_fields() {
    let task = sample_task();
    let stripped = strip_runtime_from_task(task.clone());

    assert_eq!(stripped.id, task.id);
    assert_eq!(stripped.name, task.name);
    assert_eq!(stripped.checked, task.checked);
    assert_eq!(stripped.status, PackageTaskStatus::Pending);
    assert_eq!(stripped.progress, 0);
    assert_eq!(stripped.last_log_path, None);
    assert_eq!(stripped.last_error, None);
}

#[test]
fn apply_runtime_should_override_task_runtime_fields() {
    let settings = AppSettings {
        package_tasks: vec![strip_runtime_from_task(sample_task())],
        ..AppSettings::default()
    };
    let runtime_state = RuntimeState {
        package_tasks: vec![PackageTaskRuntime {
            task_id: "task_1".to_string(),
            progress: 66,
            step_label: String::new(),
            status: PackageTaskStatus::Failed,
            last_log_path: Some("/tmp/runtime.log".to_string()),
            last_error: Some("runtime".to_string()),
            started_at: Some("s".to_string()),
            finished_at: Some("f".to_string()),
            canceling_at_unix_secs: None,
        }],
    };

    let merged = apply_runtime_state(settings, &runtime_state);
    let task = &merged.package_tasks[0];
    assert_eq!(task.progress, 66);
    assert_eq!(task.status, PackageTaskStatus::Failed);
    assert_eq!(task.last_log_path.as_deref(), Some("/tmp/runtime.log"));
    assert_eq!(task.last_error.as_deref(), Some("runtime"));
}

#[test]
fn filter_runtime_should_drop_deleted_tasks() {
    let settings = settings_with_tasks(&["task_2"]);
    let runtime_state = RuntimeState {
        package_tasks: vec![
            PackageTaskRuntime { task_id: "task_1".to_string(), ..PackageTaskRuntime::default() },
            PackageTaskRuntime { task_id: "task_2".to_string(), ..PackageTaskRuntime::default() },
        ],
    };

    let filtered = filter_runtime_state_for_settings(&settings, runtime_state);
    assert_eq!(filtered.package_tasks.len(), 1);
    assert_eq!(filtered.package_tasks[0].task_id, "task_2");
}

#[test]
fn normalize_runtime_state_on_startup_should_mark_running_tasks_as_failed() {
    let runtime_state = RuntimeState {
        package_tasks: vec![
            PackageTaskRuntime {
                task_id: "task_1".to_string(),
                progress: 60,
                status: PackageTaskStatus::Running,
                started_at: Some("2026-03-24 10:00:00".to_string()),
                ..PackageTaskRuntime::default()
            },
            PackageTaskRuntime {
                task_id: "task_2".to_string(),
                progress: 10,
                status: PackageTaskStatus::Pending,
                ..PackageTaskRuntime::default()
            },
        ],
    };

    let (normalized, changed) = normalize_runtime_state_on_startup(runtime_state, "2026-03-24 10:05:00");

    assert!(changed);
    assert_eq!(normalized.package_tasks[0].status, PackageTaskStatus::Failed);
    assert_eq!(normalized.package_tasks[0].last_error.as_deref(), Some("后端已重启，上一次打包被中断"));
    assert!(normalized.package_tasks[0].finished_at.is_some());
    assert_eq!(normalized.package_tasks[0].progress, 60);
    assert_eq!(normalized.package_tasks[1].status, PackageTaskStatus::Pending);
}

#[test]
fn normalize_runtime_state_on_startup_leaves_idle_state_alone() {
    let state = RuntimeState {
        package_tasks: vec![PackageTaskRuntime {
            task_id: "task_1".to_string(),
            status: PackageTaskStatus::Success,
            ..PackageTaskRuntime::default()
        }],
    };
    let (normalized, changed) = normalize_runtime_state_on_startup(state.clone(), "now");
    assert!(!changed);
    assert_eq!(normalized, state);
}

#[test]
fn normalize_settings_should_generate_unique_project_identity_fields_and_migrate_legacy_task_binding() {
    let settings = AppSettings {
        projects: vec![
            Project {
                name: "演示项目一".to_string(),
                git_url: "https://example.com/a.git".to_string(),
                engine_name: "cocos".to_string(),
                ..Project::default()
            },
            Project {
                name: "演示项目二".to_string(),
                git_url: "https://example.com/b.git".to_string(),
                engine_name: "cocos".to_string(),
                ..Project::default()
            },
        ],
        package_tasks: vec![PackageTask {
            id: "task_1".to_string(),
            project: Some(TaskProjectConfig { project_id: "演示项目一".to_string(), branch: "main".to_string() }),
            ..PackageTask::default()
        }],
        ..AppSettings::default()
    };

    let (normalized, changed) = normalize_settings(settings, &mut IdCounter::new());

    assert!(changed);
    assert_eq!(normalized.projects.len(), 2);
    assert!(!normalized.projects[0].id.is_empty());
    assert!(!normalized.projects[0].workspace_dir_key.is_empty());
    assert_ne!(normalized.projects[0].id, normalized.projects[1].id);
    assert_ne!(normalized.projects[0].workspace_dir_key, normalized.projects[1].workspace_dir_key);
    assert_eq!(
        normalized.package_tasks[0].project.as_ref().expect("task project should exist").project_id,
        normalized.projects[0].id
    );
}

#[test]
fn normalize_settings_should_preserve_existing_workspace_key_for_renamed_project() {
    let settings = AppSettings {
        projects: vec![Project {
            id: "project_1".to_string(),
            name: "新的展示名".to_string(),
            workspace_dir_key: "fixed_workspace".to_string(),
            git_url: "https://example.com/demo.git".to_string(),
            engine_name: "cocos".to_string(),
            ..Project::default()
        }],
        package_tasks: vec![PackageTask {
            id: "task_1".to_string(),
            project: Some(TaskProjectConfig { project_id: "project_1".to_string(), branch: "main".to_string() }),
            ..PackageTask::default()
        }],
        ..AppSettings::default()
    };

    let (normalized, changed) = normalize_settings(settings, &mut IdCounter::new());

    assert!(changed, "旧任务绑定应迁移为任务组与动态参数");
    assert_eq!(normalized.projects[0].workspace_dir_key, "fixed_workspace");
    assert_eq!(normalized.projects[0].name, "新的展示名");
    assert_eq!(normalized.task_groups.len(), 1);
    assert_eq!(normalized.package_tasks[0].task_group_id, normalized.task_groups[0].id);
}

#[test]
fn legacy_group_migration_splits_same_group_name_by_branch() {
    let settings = AppSettings {
        projects: vec![Project {
            id: "project_1".to_owned(),
            workspace_dir_key: "workspace_1".to_owned(),
            name: "项目".to_owned(),
            ..Project::default()
        }],
        package_tasks: vec![
            PackageTask {
                id: "task_main".to_owned(),
                group: "发布包".to_owned(),
                project: Some(TaskProjectConfig { project_id: "project_1".to_owned(), branch: "main".to_owned() }),
                ..PackageTask::default()
            },
            PackageTask {
                id: "task_hotfix".to_owned(),
                group: "发布包".to_owned(),
                project: Some(TaskProjectConfig {
                    project_id: "project_1".to_owned(),
                    branch: "hotfix/1.0.1".to_owned(),
                }),
                ..PackageTask::default()
            },
        ],
        ..AppSettings::default()
    };

    let (normalized, changed) = normalize_settings(settings, &mut IdCounter::new());

    assert!(changed);
    assert_eq!(normalized.task_groups.len(), 2);
    assert_ne!(normalized.package_tasks[0].task_group_id, normalized.package_tasks[1].task_group_id);
    assert!(normalized.task_groups.iter().any(|group| group.branch == "main"));
    assert!(normalized.task_groups.iter().any(|group| group.branch == "hotfix/1.0.1"));
}

#[test]
fn normalize_settings_is_stable_on_its_own_output() {
    let settings = AppSettings {
        projects: vec![Project { name: "演示".to_string(), ..Project::default() }],
        ..AppSettings::default()
    };
    let mut counter = IdCounter::new();
    let (once, _) = normalize_settings(settings, &mut counter);
    let (twice, changed) = normalize_settings(once.clone(), &mut counter);
    assert!(!changed);
    assert_eq!(twice, once);
}

#[test]
fn slugify_keeps_ascii_words() {
    assert_eq!(slugify("Demo Project!"), "demo_project");
    assert_eq!(slugify("演示"), "workspace");
}

#[test]
fn load_should_recover_stale_running_runtime_after_restart() {
    let mut core = core_with_tasks(&["task_1"]);
    core.update_task_runtime(
        "task_1",
        &RuntimePatch {
            progress: Some(45),
            status: Some(PackageTaskStatus::Running),
            started_at: Some(Some("2026-03-24 11:00:00".to_string())),
            ..patch()
        },
    )
    .expect("update runtime");

    let (recovered, changed) = normalize_runtime_state_on_startup(core.runtime.clone(), "2026-03-24 11:30:00");
    assert!(changed);
    let restarted = AppCore::new(core.settings.clone(), GitConfig::default(), recovered);
    let runtime = restarted.get_task_runtime("task_1").expect("get task runtime");

    assert_eq!(runtime.status, PackageTaskStatus::Failed);
    assert_eq!(runtime.progress, 45);
    assert_eq!(runtime.last_error.as_deref(), Some("后端已重启，上一次打包被中断"));
    assert!(runtime.finished_at.is_some());
}

#[test]
fn stop_request_marks_only_active_task_canceling_and_signals_queue() {
    let mut core = core_with_tasks(&["task_1", "task_2"]);
    core.try_start_build().expect("start build");
    core.set_active_task(Some("task_1".to_owned()));

    assert!(core.cancel_active_build("task_2", 100).is_err());
    assert!(!core.cancel_requested());

    core.cancel_active_build("task_1", 100).expect("cancel active task");

    assert!(core.cancel_requested());
    assert_eq!(core.get_task_runtime("task_1").expect("runtime").status, PackageTaskStatus::Canceling);
    assert_eq!(core.get_task_runtime("task_2").expect("runtime").status, PackageTaskStatus::Pending);
    core.finish_build();
    assert!(!core.is_build_in_progress());
}

#[test]
fn start_build_should_return_conflict_when_build_already_running() {
    let mut core = core_with_tasks(&["task_1"]);
    core.try_start_build().expect("first start");
    let error = core.try_start_build().expect_err("second start conflicts");
    assert!(error.message().contains("已有打包任务在进行中"));
    core.finish_build();
    assert!(core.try_start_build().is_ok());
}

#[test]
fn flush_runtime_state_should_persist_latest_runtime() {
    let mut core = core_with_tasks(&["task_1"]);
    assert!(!core.needs_flush());
    core.update_task_runtime("task_1", &RuntimePatch { progress: Some(42), status: Some(PackageTaskStatus::Running), ..patch() })
        .expect("update runtime");
    assert!(core.needs_flush());
    assert!(!core.flush_due(RuntimeFlushMode::Deferred));
    assert!(core.flush_due(RuntimeFlushMode::Immediate));
    let written = core.runtime.clone();
    core.mark_persisted();
    assert!(!core.needs_flush());
    assert_eq!(written.package_tasks[0].progress, 42);
}

#[test]
fn save_settings_should_drop_removed_runtime_entries() {
    let mut core = core_with_tasks(&["task_1", "task_2"]);
    core.update_task_runtime("task_1", &RuntimePatch { progress: Some(10), ..patch() }).expect("update task_1");
    core.update_task_runtime("task_2", &RuntimePatch { progress: Some(20), ..patch() }).expect("update task_2");

    core.save_settings(settings_with_tasks(&["task_2"]), &mut IdCounter::new());

    assert_eq!(core.runtime.package_tasks.len(), 1);
    assert_eq!(core.runtime.package_tasks[0].task_id, "task_2");
    assert_eq!(core.runtime.package_tasks[0].progress, 20);
}

#[test]
fn save_settings_should_preserve_runtime_for_existing_tasks() {
    let mut core = AppCore::new(AppSettings::default(), GitConfig::default(), RuntimeState::default());
    core.save_settings(
        AppSettings {
            package_tasks: vec![PackageTask { id: "task_1".to_string(), name: "demo".to_string(), ..PackageTask::default() }],
            ..AppSettings::default()
        },
        &mut IdCounter::new(),
    );
    core.update_task_runtime(
        "task_1",
        &RuntimePatch {
            progress: Some(55),
            status: Some(PackageTaskStatus::Running),
            last_error: Some(Some("still running".to_string())),
            ..patch()
        },
    )
    .expect("update runtime");

    core.save_settings(
        AppSettings {
            package_tasks: vec![PackageTask {
                id: "task_1".to_string(),
                name: "demo-updated".to_string(),
                ..PackageTask::default()
            }],
            ..AppSettings::default()
        },
        &mut IdCounter::new(),
    );

    let merged = core.get_settings();
    let task = merged.package_tasks.into_iter().find(|task| task.id == "task_1").expect("task should exist");
    assert_eq!(task.name, "demo-updated");
    assert_eq!(task.progress, 55);
    assert_eq!(task.status, PackageTaskStatus::Running);
    assert_eq!(task.last_error.as_deref(), Some("still running"));

    let runtime = core.get_task_runtime("task_1").expect("get runtime after save");
    assert_eq!(runtime.progress, 55);
    assert_eq!(runtime.status, PackageTaskStatus::Running);
}

#[test]
fn update_task_runtime_should_preserve_existing_fields_when_only_progress_changes() {
    let mut core = core_with_tasks(&["task_1"]);
    core.update_task_runtime(
        "task_1",
        &RuntimePatch {
            progress: Some(5),
            status: Some(PackageTaskStatus::Running),
            started_at: Some(Some("2026-03-23 15:00:00".to_string())),
            last_log_path: Some(Some("/tmp/demo.log".to_string())),
            ..patch()
        },
    )
    .expect("set initial runtime");
    core.update_task_runtime("task_1", &RuntimePatch { progress: Some(20), ..patch() }).expect("update progress only");

    let runtime = core.get_task_runtime("task_1").expect("get updated runtime");
    assert_eq!(runtime.progress, 20);
    assert_eq!(runtime.status, PackageTaskStatus::Running);
    assert_eq!(runtime.started_at.as_deref(), Some("2026-03-23 15:00:00"));
    assert_eq!(runtime.last_log_path.as_deref(), Some("/tmp/demo.log"));
}

#[test]
fn update_task_runtime_should_preserve_existing_fields_when_only_error_changes() {
    let mut core = core_with_tasks(&["task_1"]);
    core.update_task_runtime(
        "task_1",
        &RuntimePatch {
            progress: Some(66),
            status: Some(PackageTaskStatus::Running),
            started_at: Some(Some("2026-03-23 15:05:00".to_string())),
            ..patch()
        },
    )
    .expect("set initial runtime");
    core.update_task_runtime(
        "task_1",
        &RuntimePatch {
            last_error: Some(Some("boom".to_string())),
            finished_at: Some(Some("2026-03-23 15:06:00".to_string())),
            ..patch()
        },
    )
    .expect("update error only");

    let runtime = core.get_task_runtime("task_1").expect("get updated runtime");
    assert_eq!(runtime.progress, 66);
    assert_eq!(runtime.status, PackageTaskStatus::Running);
    assert_eq!(runtime.started_at.as_deref(), Some("2026-03-23 15:05:00"));
    assert_eq!(runtime.last_error.as_deref(), Some("boom"));
    assert_eq!(runtime.finished_at.as_deref(), Some("2026-03-23 15:06:00"));
}

#[test]
fn update_task_runtime_rejects_unknown_task() {
    let mut core = core_with_tasks(&["task_1"]);
    assert!(core.update_task_runtime("nope", &patch()).is_err());
    assert!(core.runtime.package_tasks.is_empty());
}

#[test]
fn progress_if_below_only_raises() {
    let mut core = core_with_tasks(&["task_1"]);
    core.update_task_runtime("task_1", &RuntimePatch { progress: Some(50), ..patch() }).unwrap();
    let e = core.update_task_runtime("task_1", &RuntimePatch { progress_if_below: Some((30, 30)), ..patch() }).unwrap();
    assert_eq!(e.progress, 50);
    let e = core.update_task_runtime("task_1", &RuntimePatch { progress_if_below: Some((60, 60)), ..patch() }).unwrap();
    assert_eq!(e.progress, 60);
    let e = core.update_task_runtime("task_1", &RuntimePatch { progress_step_below: Some(61), ..patch() }).unwrap();
    assert_eq!(e.progress, 61);
    let e = core.update_task_runtime("task_1", &RuntimePatch { progress_step_below: Some(61), ..patch() }).unwrap();
    assert_eq!(e.progress, 61);
}

#[test]
fn get_build_status_should_only_return_runtime_fields() {
    let mut core = core_with_tasks(&["task_1"]);
    core.update_task_runtime(
        "task_1",
        &RuntimePatch { progress: Some(30), step_label: Some("构建中".to_string()), status: Some(PackageTaskStatus::Running), ..patch() },
    )
    .unwrap();
    let status = core.get_build_status();
    assert_eq!(status.package_tasks.len(), 1);
    assert_eq!(status.package_tasks[0].task_id, "task_1");
    assert_eq!(status.package_tasks[0].progress, 30);
    assert_eq!(status.package_tasks[0].step_label, "构建中");
    assert_eq!(status.package_tasks[0].status, PackageTaskStatus::Running);
}

#[test]
fn slugify_of_a_slug_is_the_same_slug() {
    for input in ["Hello, World!", "__a--b__", "", "!!!", "Demo_Project 2"] {
        let once = slugify(input);
        assert_eq!(slugify(&once), once);
    }
    assert_eq!(slugify("Hello, World!"), "hello_world");
    assert_eq!(slugify("!!!"), "workspace");
}

#[test]
fn fresh_project_fields_are_short_ids() {
    let settings = AppSettings {
        projects: vec![Project { id: "  ".to_string(), name: "a".to_string(), ..Project::default() }],
        ..AppSettings::default()
    };
    let (normalized, _) = normalize_settings(settings, &mut IdCounter::new());
    let id = &normalized.projects[0].id;
    assert!(!id.is_empty() && id.len() <= 12);
    assert!(id.chars().all(|c| c.is_ascii_hexdigit() && !c.is_ascii_uppercase()));
    assert_eq!(id.trim(), id);
}

#[test]
fn normalizing_normalized_settings_reports_no_change() {
    let settings = AppSettings {
        projects: vec![Project { name: "演示项目一".to_string(), ..Project::default() }],
        package_tasks: vec![PackageTask {
            id: "task_1".to_string(),
            project: Some(TaskProjectConfig { project_id: "演示项目一".to_string(), branch: " main ".to_string() }),
            ..PackageTask::default()
        }],
        ..AppSettings::default()
    };
    let mut counter = IdCounter::new();
    let (first, changed) = normalize_settings(settings, &mut counter);
    assert!(changed);
    let (second, changed_again) = normalize_settings(first.clone(), &mut counter);
    assert!(!changed_again);
    assert_eq!(second, first);
}

#[test]
fn load_marks_an_interrupted_build_failed_and_keeps_the_tasks() {
    let settings = settings_with_tasks(&["task_1", "task_2"]);
    let running = PackageTaskRuntime {
        task_id: "task_1".to_string(),
        progress: 45,
        status: PackageTaskStatus::Running,
        started_at: Some("2026-03-24 11:00:00".to_string()),
        ..PackageTaskRuntime::default()
    };
    let done = PackageTaskRuntime {
        task_id: "task_2".to_string(),
        progress: 100,
        status: PackageTaskStatus::Success,
        ..PackageTaskRuntime::default()
    };
    let runtime = RuntimeState { package_tasks: vec![running, done.clone()] };
    let (core, _settings_changed, runtime_changed) =
        AppCore::load(settings, Some(runtime), "2026-03-24 12:00:00", &mut IdCounter::new());
    assert!(runtime_changed);
    assert_eq!(core.settings.package_tasks.len(), 2);
    assert_eq!(core.settings.package_tasks[0].id, "task_1");
    let first = core.get_task_runtime("task_1").expect("listed");
    assert_eq!(first.status, PackageTaskStatus::Failed);
    assert_eq!(first.progress, 45);
    assert_eq!(first.last_error.as_deref(), Some("后端已重启，上一次打包被中断"));
    assert_eq!(first.finished_at.as_deref(), Some("2026-03-24 12:00:00"));
    assert_eq!(core.get_task_runtime("task_2").expect("listed"), done);
}
