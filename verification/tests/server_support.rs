use cocos_build_lan_server::cocos::{build_finished_patch, build_running_patch};
use cocos_build_lan_server::models::PackageTaskRuntime;
use cocos_build_lan_server::prep_actions::prep_step_patch;
use cocos_build_lan_server::state::apply_patch;
use cocos_build_lan_server::error::AppError;
use cocos_build_lan_server::feishu::{
    finished_header_template, format_notification_logs, no_bot_results, response_detail,
    started_list, truncate_text, NotificationResult,
};
use cocos_build_lan_server::git::{
    commits_ahead, format_status_entries, list_remote_branches_from, parse_listed_branch,
    push_args, uncommitted_change_entries_from,
};
use cocos_build_lan_server::models::{ObfuscationMode, PackageTaskStatus, Project};
use cocos_build_lan_server::pipeline::{
    build_stage_patch, obfuscation_commit_needed, obfuscation_skip_line, obfuscation_step,
    BuildStage, ObfuscationStep,
};
use cocos_build_lan_server::listing::order_by_text;
use cocos_build_lan_server::queue::{
    failed_notification, failure_reason_line, group_cleanup_targets, queue_next, queue_start, task_outcome, CleanupTarget,
    QueueNext, QueueStart, QueueTaskSnapshot, TaskOutcome,
};
use cocos_build_lan_server::web::{
    content_type, lan_port_occupied, lan_port_precheck, require_loopback, web_target, PeerAddress,
    WebTarget,
};
use cocos_build_lan_server::workspace::{log_file_name, task_dir, workspace_main_repo_dir};

fn project() -> Project {
    Project { id: "p".to_string(), workspace_dir_key: "ws_1".to_string(), name: "演示".to_string(), ..Project::default() }
}

#[test]
fn lan_port_validation_rejects_zero_control_and_occupied_ports() {
    assert!(lan_port_precheck(41_001, 43_001, 0).is_err());
    assert!(lan_port_precheck(41_001, 43_001, 41_001).is_err());
    assert_eq!(lan_port_precheck(41_001, 43_001, 43_001).ok(), Some(false));
    assert_eq!(lan_port_precheck(41_001, 43_001, 43_002).ok(), Some(true));
    assert_eq!(lan_port_occupied(8080).message(), "局域网业务端口 8080 已被占用");
}

#[test]
fn public_spa_fallback_never_masks_unknown_api_routes() {
    assert_eq!(web_target("/api/unknown"), WebTarget::NotFound);
    assert_eq!(web_target("/api"), WebTarget::NotFound);
    assert_eq!(web_target("/_lan/status"), WebTarget::NotFound);
    assert_eq!(web_target("/"), WebTarget::Index);
    assert_eq!(web_target("/tasks/../secret"), WebTarget::Index);
    assert_eq!(web_target("/assets/app.js"), WebTarget::File("assets/app.js".to_string()));
}

#[test]
fn content_types_follow_the_extension() {
    assert_eq!(content_type("index.html"), "text/html; charset=utf-8");
    assert_eq!(content_type("assets/app.js"), "application/javascript; charset=utf-8");
    assert_eq!(content_type("assets/app.JS"), "application/octet-stream");
    assert_eq!(content_type("a/b.jpeg"), "image/jpeg");
    assert_eq!(content_type("noext"), "application/octet-stream");
}

#[test]
fn control_api_only_answers_loopback() {
    assert!(require_loopback(&PeerAddress::V4([127, 0, 0, 1])).is_ok());
    assert!(require_loopback(&PeerAddress::V6([0, 0, 0, 0, 0, 0, 0, 1])).is_ok());
    let error = require_loopback(&PeerAddress::V4([192, 168, 1, 2])).expect_err("LAN peer");
    assert!(matches!(error, AppError::Forbidden(_)));
}

#[test]
fn feishu_texts_are_cut_and_listed() {
    assert_eq!(truncate_text("abcdef", 3), "abc...");
    assert_eq!(truncate_text("abc", 3), "abc");
    assert_eq!(response_detail(200, true, "ignored"), "HTTP 200");
    assert_eq!(response_detail(500, false, "bad"), "HTTP 500 bad");
    assert_eq!(started_list(&vec!["A".to_string(), "B".to_string()]), "**任务列表**\n• A\n• B");
    assert_eq!(finished_header_template(0), "green");
    assert_eq!(finished_header_template(2), "orange");
    let skipped = no_bot_results();
    assert_eq!(skipped.len(), 1);
    assert!(skipped[0].success);
    let lines = format_notification_logs(
        "开始通知",
        &vec![NotificationResult { bot_name: "bot".to_string(), success: false, detail: "HTTP 500".to_string() }],
    );
    assert_eq!(lines, vec!["开始通知: 机器人=bot, success=false, detail=HTTP 500".to_string()]);
}

#[test]
fn build_stages_set_progress_in_order() {
    let started = build_stage_patch(BuildStage::Started, "/logs/a.log", "now");
    assert_eq!(started.progress, Some(5));
    assert_eq!(started.status, Some(PackageTaskStatus::Running));
    assert_eq!(started.last_log_path, Some(Some("/logs/a.log".to_string())));
    let done = build_stage_patch(BuildStage::Succeeded, "", "later");
    assert_eq!(done.progress, Some(100));
    assert_eq!(done.finished_at, Some(Some("later".to_string())));
}

#[test]
fn obfuscation_decisions() {
    assert_eq!(obfuscation_step(true, true, false).ok(), Some(ObfuscationStep::Run));
    assert_eq!(obfuscation_step(true, true, true).ok(), Some(ObfuscationStep::SkipHotUpdate));
    assert_eq!(obfuscation_step(true, false, false).ok(), Some(ObfuscationStep::SkipDisabled));
    assert!(obfuscation_step(false, true, false).is_err());
    assert_eq!(obfuscation_step(false, false, false).ok(), Some(ObfuscationStep::NoCodeRepo));
    assert_eq!(obfuscation_skip_line(ObfuscationStep::Run), None);
    assert!(obfuscation_commit_needed(ObfuscationMode::Ast, false, true));
    assert!(!obfuscation_commit_needed(ObfuscationMode::Classic, false, true));
}

#[test]
fn queue_outcomes_and_failure_cards() {
    assert_eq!(task_outcome(&Ok(()), true), TaskOutcome::Succeeded);
    assert_eq!(task_outcome(&Err(AppError::Canceled("x".into())), false), TaskOutcome::Canceled);
    assert_eq!(task_outcome(&Err(AppError::Internal("x".into())), true), TaskOutcome::Canceled);
    assert_eq!(task_outcome(&Err(AppError::Internal("x".into())), false), TaskOutcome::Failed);

    let unknown = failed_notification("task_9", None, Some("/l".into()), "t".into(), "e".into());
    assert_eq!(unknown.task_name, "task_9");
    assert_eq!(unknown.project_name, "未知项目");
    assert_eq!(unknown.log_path, None);
    let snapshot = QueueTaskSnapshot {
        task_id: "task_9".into(),
        task_name: "任务".into(),
        project_name: "项目".into(),
        branch: "main".into(),
    };
    let known = failed_notification("task_9", Some(&snapshot), Some("/l".into()), "t".into(), "e".into());
    assert_eq!(known.task_name, "任务");
    assert_eq!(known.log_path.as_deref(), Some("/l"));
    assert_eq!(failure_reason_line(&AppError::Validation("坏".into())), "任务失败原因: 坏");
}

#[test]
fn workspace_paths_are_keyed_by_workspace_key() {
    assert_eq!(workspace_main_repo_dir("/data", &project()), "/data/workspaces/ws_1/main-repo");
    assert_eq!(task_dir("/data/", &project(), "task_1"), "/data/workspaces/ws_1/tasks/task_1");
    assert_eq!(log_file_name("20260101_000000", "Demo Task"), "build_log_20260101_000000_demo_task.log");
}

#[test]
fn git_output_parsing() {
    assert_eq!(parse_listed_branch("abc123\trefs/heads/feature/x"), Some("feature/x".to_string()));
    assert_eq!(parse_listed_branch("abc123\trefs/tags/v1"), None);
    let branches = list_remote_branches_from("a\trefs/heads/main\nb\trefs/heads/dev\nc\trefs/heads/main\n");
    assert_eq!(branches, vec!["dev".to_string(), "main".to_string()]);
    let entries = uncommitted_change_entries_from(" M a.txt\n?? b.txt\n\n");
    assert_eq!(entries, vec![" M a.txt".to_string(), "?? b.txt".to_string()]);
    assert!(format_status_entries(&entries, 1).contains("a.txt"));
    assert!(commits_ahead("0\t3\n"));
    assert!(!commits_ahead("2\t0"));
    assert!(!commits_ahead("3"));
    assert_eq!(push_args("main", true), vec!["push".to_string(), "origin".to_string(), "main".to_string()]);
}

#[test]
fn listing_orders_by_text_and_keeps_ties_in_place() {
    let keys = vec![
        "2026-01-02".to_string(),
        "2026-01-03".to_string(),
        "2026-01-02".to_string(),
        "2025-12-31".to_string(),
    ];
    assert_eq!(order_by_text(&keys, true), vec![1, 0, 2, 3]);
    assert_eq!(order_by_text(&keys, false), vec![3, 0, 2, 1]);
    assert_eq!(order_by_text(&Vec::new(), false), Vec::<usize>::new());
}

#[test]
fn cleanup_targets_are_grouped_by_project_in_id_order() {
    let target = |task: &str, project: &str| CleanupTarget { task_id: task.to_string(), project_id: project.to_string() };
    let groups = group_cleanup_targets(&vec![target("t1", "pB"), target("t2", "pA"), target("t3", "pB")]);
    assert_eq!(groups.len(), 2);
    assert_eq!(groups[0].project_id, "pA");
    assert_eq!(groups[0].task_ids, vec!["t2".to_string()]);
    assert_eq!(groups[1].project_id, "pB");
    assert_eq!(groups[1].task_ids, vec!["t1".to_string(), "t3".to_string()]);
    assert!(group_cleanup_targets(&Vec::new()).is_empty());
}

#[test]
fn queue_goes_on_after_a_failure_and_cancels_after_a_stop() {
    assert_eq!(queue_start(0, 3, false), QueueStart::Run(0));
    assert_eq!(queue_start(1, 3, true), QueueStart::CancelFrom(1));
    assert_eq!(queue_start(3, 3, false), QueueStart::Done);
    assert_eq!(queue_next(TaskOutcome::Failed, 0, 3), QueueNext::Continue(1));
    assert_eq!(queue_next(TaskOutcome::Succeeded, 1, 3), QueueNext::Continue(2));
    assert_eq!(queue_next(TaskOutcome::Canceled, 1, 3), QueueNext::CancelFrom(2));
}

#[test]
fn progress_of_a_build_run_only_rises() {
    let mut entry = PackageTaskRuntime { task_id: "t".to_string(), ..PackageTaskRuntime::default() };
    let mut seen = Vec::new();
    let mut step = |entry: PackageTaskRuntime, patch| {
        let next = apply_patch(entry, &patch);
        seen.push(next.progress);
        next
    };
    entry = step(entry, build_stage_patch(BuildStage::Started, "log", "now"));
    entry = step(entry, build_stage_patch(BuildStage::MainRepoSynced, "log", "now"));
    entry = step(entry, build_stage_patch(BuildStage::ReposPrepared, "log", "now"));
    for _ in 0..7 {
        entry = step(entry, prep_step_patch());
    }
    entry = step(entry, build_stage_patch(BuildStage::ConfigWritten, "log", "now"));
    entry = step(entry, build_running_patch());
    entry = step(entry, build_finished_patch());
    entry = step(entry, build_stage_patch(BuildStage::CodeRepoFinalized, "log", "now"));
    entry = step(entry, build_stage_patch(BuildStage::AssetRepoFinalized, "log", "now"));
    entry = step(entry, build_stage_patch(BuildStage::Succeeded, "log", "now"));
    assert_eq!(entry.status, PackageTaskStatus::Success);
    assert!(seen.windows(2).all(|w| w[0] <= w[1]), "{seen:?}");
    assert_eq!(seen, vec![5, 20, 35, 36, 37, 38, 39, 40, 40, 40, 40, 40, 95, 97, 99, 100]);
}
