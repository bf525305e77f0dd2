use cocos_build_lan_server::ids::{generated_id, IdCounter};
use cocos_build_lan_server::models::{
    AppSettings, Engine, GitConfig, ObfuscationMode, PackageTask, PackageTaskReorderRequest,
    PackageTaskRequest, PackageTaskStatus, Project, RuntimeState, TaskGroup, TaskProjectConfig,
};
use cocos_build_lan_server::ordering::{list_task_groups, sort_tasks_by_order};
use cocos_build_lan_server::queue::LoadedSteps;
use cocos_build_lan_server::state::{AppCore, RuntimePatch};
use cocos_build_lan_server::tasks::{next_task_order, validate_task_request};
use cocos_build_lan_server::workspace::check_worktree_cleanup;

fn patch_status(status: PackageTaskStatus) -> RuntimePatch {
    RuntimePatch {
        progress: None,
        progress_if_below: None,
        progress_step_below: None,
        step_label: None,
        status: Some(status),
        last_log_path: None,
        last_error: None,
        started_at: None,
        finished_at: None,
        canceling_at_unix_secs: None,
    }
}

fn demo_project() -> Project {
    Project {
        id: "project_1".to_string(),
        workspace_dir_key: "workspace_1".to_string(),
        name: "演示项目".to_string(),
        git_url: "https://example.com/demo.git".to_string(),
        engine_name: "cocos".to_string(),
        ..Project::default()
    }
}

fn core_with_task() -> AppCore {
    let mut core = AppCore::new(AppSettings::default(), GitConfig::default(), RuntimeState::default());
    core.save_settings(
        AppSettings {
            engines: vec![Engine { name: "cocos".to_string(), path: "/engine".to_string() }],
            projects: vec![demo_project()],
            package_tasks: vec![PackageTask {
                id: "task_1".to_string(),
                name: "任务1".to_string(),
                group: "主组".to_string(),
                task_group_id: "group_1".to_string(),
                project: Some(TaskProjectConfig { project_id: "演示项目".to_string(), branch: "main".to_string() }),
                build_args_json: "{}".to_string(),
                ..PackageTask::default()
            }],
            task_groups: vec![TaskGroup {
                id: "group_1".to_string(),
                project_id: "project_1".to_string(),
                name: "主组".to_string(),
                branch: "main".to_string(),
                ..TaskGroup::default()
            }],
            ..AppSettings::default()
        },
        &mut IdCounter::new(),
    );
    core
}

fn task_request(name: &str, build_args_json: &str) -> PackageTaskRequest {
    PackageTaskRequest {
        name: name.to_string(),
        task_group_id: "group_1".to_string(),
        code_repo_url: String::new(),
        asset_repo_url: String::new(),
        build_args_json: build_args_json.to_string(),
        enable_obfuscation: false,
        obfuscation_mode: ObfuscationMode::Classic,
        obfuscation_seed: None,
        enable_dead_code_injection: false,
        dead_code_injection_count: 200,
        pre_build_actions: Vec::new(),
        post_build_actions: Vec::new(),
    }
}

#[test]
fn delete_task_should_remove_settings_runtime_and_task_dir() {
    let mut core = core_with_task();
    core.update_task_runtime("task_1", &patch_status(PackageTaskStatus::Success)).expect("update runtime");

    let project = core.task_deletion("task_1").expect("deletable").expect("task has a project");
    assert_eq!(project.id, "project_1");

    core.remove_task("task_1", &mut IdCounter::new());
    assert!(core.settings.package_tasks.is_empty());
    assert!(core.runtime.package_tasks.is_empty());
}

#[test]
fn delete_task_should_reject_running_task() {
    let mut core = core_with_task();
    core.update_task_runtime("task_1", &patch_status(PackageTaskStatus::Running)).expect("update runtime");

    let error = core.task_deletion("task_1").expect_err("running task");
    assert_eq!(error.message(), "任务正在执行中，无法删除");
}

#[test]
fn delete_task_without_project_should_only_remove_settings_entry() {
    let mut core = core_with_task();
    let mut settings = core.get_settings();
    settings.package_tasks[0].project = None;
    core.save_settings(settings, &mut IdCounter::new());

    assert!(core.task_deletion("task_1").is_ok());
    core.remove_task("task_1", &mut IdCounter::new());
    assert!(core.settings.package_tasks.is_empty());
}

#[test]
fn delete_task_of_unknown_id_is_not_found() {
    let core = core_with_task();
    assert!(core.task_deletion("missing").is_err());
}

#[test]
fn run_obfuscation_should_reject_task_without_obfuscation_enabled() {
    let mut core = core_with_task();
    let error = core.start_task_obfuscation("task_1").expect_err("obfuscation is off");
    assert_eq!(error.message(), "任务未开启混淆，无法单独执行混淆");
    assert!(!core.is_build_in_progress());
}

#[test]
fn create_update_and_reorder_tasks() {
    let mut core = core_with_task();
    let mut counter = IdCounter::new();
    let created = core
        .create_task(task_request("任务2", "{}"), &Vec::new(), &Vec::new(), &mut counter)
        .expect("create task");
    assert!(created.id.starts_with("task_"));
    assert_eq!(created.order, 1);

    let updated = core
        .update_task(
            &created.id,
            task_request("任务2修改", "{\"platform\":\"web-mobile\"}"),
            &Vec::new(),
            &Vec::new(),
            &mut counter,
        )
        .expect("update task");
    assert_eq!(updated.name, "任务2修改");

    let reorder = PackageTaskReorderRequest {
        task_group_id: "group_1".to_string(),
        task_ids: vec![created.id.clone(), "task_1".to_string()],
    };
    core.reorder_tasks(&reorder, &mut counter).expect("reorder");

    let tasks = sort_tasks_by_order(core.get_settings().package_tasks);
    assert_eq!(tasks[0].name, "任务2修改");
    assert_eq!(tasks[1].id, "task_1");
}

#[test]
fn task_requests_with_bad_build_args_are_rejected() {
    let core = core_with_task();
    let error = validate_task_request(&core.settings, &task_request("任务3", "{"), None).expect_err("bad json");
    assert!(error.message().contains("JSON"));
    assert!(validate_task_request(&core.settings, &task_request("任务3", "{}"), None).is_ok());
    assert!(validate_task_request(&core.settings, &task_request("任务1", "{}"), None).is_err());
    assert!(validate_task_request(&core.settings, &task_request("任务1", "{}"), Some("task_1")).is_ok());
}

#[test]
fn reorder_rejects_ids_outside_the_group() {
    let mut core = core_with_task();
    let before = core.settings.clone();
    let reorder = PackageTaskReorderRequest {
        task_group_id: "group_1".to_string(),
        task_ids: vec!["task_1".to_string(), "ghost".to_string()],
    };
    assert!(core.reorder_tasks(&reorder, &mut IdCounter::new()).is_err());
    assert_eq!(core.settings, before);
}

#[test]
fn deleting_group_cascades_its_tasks() {
    let mut core = core_with_task();
    let ids = core.group_deletion("group_1").expect("group can go");
    assert_eq!(ids, vec!["task_1".to_string()]);
    for id in &ids {
        core.task_deletion(id).expect("idle task");
        core.remove_task(id, &mut IdCounter::new());
    }
    core.remove_task_group("group_1", &mut IdCounter::new());
    assert!(core.settings.task_groups.is_empty());
    assert!(core.settings.package_tasks.is_empty());
}

#[test]
fn deleting_a_group_with_a_running_task_is_rejected() {
    let mut core = core_with_task();
    core.update_task_runtime("task_1", &patch_status(PackageTaskStatus::Running)).unwrap();
    assert!(core.group_deletion("group_1").is_err());
    assert!(core.group_deletion("missing").is_err());
}

#[test]
fn duplicate_task_copies_under_a_new_id() {
    let mut core = core_with_task();
    let copy = core.duplicate_task("task_1", &mut IdCounter::new()).expect("duplicate");
    assert_ne!(copy.id, "task_1");
    assert_eq!(core.settings.package_tasks.len(), 2);
}

#[test]
fn cleanup_task_private_repos_should_reject_running_task() {
    let mut core = core_with_task();
    core.update_task_runtime("task_1", &patch_status(PackageTaskStatus::Running)).expect("update runtime");
    let error = core.private_repos_cleanup("task_1").expect_err("should reject running task");
    assert_eq!(error.message(), "任务正在执行中，无法清理私有仓库");
}

#[test]
fn cleanup_task_private_repos_resolves_the_project_of_an_idle_task() {
    let core = core_with_task();
    let (task, project) = core.private_repos_cleanup("task_1").expect("idle task");
    assert_eq!(task.id, "task_1");
    assert_eq!(project.id, "project_1");
}

#[test]
fn cleanup_project_worktree_should_reject_uninitialized_project() {
    let error = check_worktree_cleanup(&demo_project(), false, false).expect_err("uninitialized");
    assert_eq!(error.message(), "项目 演示项目 尚未初始化，请先到引擎与项目页初始化");
    assert!(check_worktree_cleanup(&demo_project(), true, true).is_ok());
}

#[test]
fn cleanup_project_worktree_should_reject_missing_project() {
    let core = core_with_task();
    let error = core.find_project("missing").expect_err("missing project");
    assert_eq!(error.message(), "未找到项目 missing");
}

#[test]
fn start_build_rejects_a_second_build_and_unknown_tasks() {
    let mut core = core_with_task();
    let ids = vec!["task_1".to_string()];
    let loaded = vec![LoadedSteps { pre: Vec::new(), post: Vec::new() }];
    core.start_build(&ids, &loaded).expect("start");
    assert!(core.is_build_in_progress());
    assert_eq!(core.get_task_runtime("task_1").unwrap().status, PackageTaskStatus::Pending);
    assert!(core.start_build(&ids, &loaded).is_err());
    core.finish_build();

    let unknown = vec!["ghost".to_string()];
    assert!(core.start_build(&unknown, &loaded).is_err());
    assert!(!core.is_build_in_progress());
}

#[test]
fn next_order_goes_after_the_group_maximum() {
    let tasks = vec![
        PackageTask { id: "a".into(), task_group_id: "g".into(), order: 4, ..PackageTask::default() },
        PackageTask { id: "b".into(), task_group_id: "h".into(), order: 9, ..PackageTask::default() },
    ];
    assert_eq!(next_task_order(&tasks, "g"), 5);
    assert_eq!(next_task_order(&tasks, "empty"), 1);
}

#[test]
fn sorting_is_stable_and_ordered() {
    let tasks = vec![
        PackageTask { id: "a".into(), order: 2, ..PackageTask::default() },
        PackageTask { id: "b".into(), order: 1, ..PackageTask::default() },
        PackageTask { id: "c".into(), order: 2, ..PackageTask::default() },
    ];
    let sorted = sort_tasks_by_order(tasks);
    let ids: Vec<&str> = sorted.iter().map(|t| t.id.as_str()).collect();
    assert_eq!(ids, vec!["b", "a", "c"]);

    let groups = vec![
        TaskGroup { id: "x".into(), order: 3, ..TaskGroup::default() },
        TaskGroup { id: "y".into(), order: 0, ..TaskGroup::default() },
    ];
    let listed = list_task_groups(&groups);
    assert_eq!(listed[0].id, "y");
    assert_eq!(listed[1].id, "x");
}

#[test]
fn generated_ids_carry_the_prefix_and_differ() {
    let a = generated_id("task_");
    let b = generated_id("task_");
    assert!(a.starts_with("task_"));
    assert_eq!(a.len(), "task_".len() + 32);
    assert_ne!(a, b);
}

#[test]
fn build_steps_are_checked_before_a_build_starts() {
    let core = core_with_task();
    let ids = vec!["task_1".to_string()];
    assert!(core.check_build_steps(&ids, &vec![LoadedSteps { pre: Vec::new(), post: Vec::new() }]));
    assert!(!core.check_build_steps(&ids, &Vec::new()));
    let unknown = vec!["task_x".to_string()];
    assert!(core.check_build_steps(&unknown, &vec![LoadedSteps { pre: Vec::new(), post: Vec::new() }]));
}
