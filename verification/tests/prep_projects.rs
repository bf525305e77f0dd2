use cocos_build_lan_server::models::PrepProjectRunResponse;
use cocos_build_lan_server::preps::{summarize_batch, TaskRunOutcome};
use cocos_build_lan_server::json::JsonValue;
use cocos_build_lan_server::models::{
    BuildMode, Engine, PrepParam, PrepParamOption, PrepParamType, PrepParamValueSource, PrepProject,
    PrepProjectExportFile, Project, TaskPrepAction, TaskPrepTarget,
};
use cocos_build_lan_server::prep_actions::select_conditional_targets;
use cocos_build_lan_server::param_map::ParamMap;
use cocos_build_lan_server::placeholders::{version_prefix_of, PlaceholderContext};
use cocos_build_lan_server::preps::{
    build_prep_args, default_lib_py, is_dropped_by_import, normalized_prep_params, render_prep_command,
    sanitize_identifier, should_manage_export_file, unique_import_name, validate_import_file_path,
    validate_prep_params,
};

fn placeholder_context() -> PlaceholderContext {
    PlaceholderContext::new(
        &Project {
            id: "project_1".to_string(),
            name: "demo".to_string(),
            workspace_dir_key: "workspace_1".to_string(),
            git_url: "https://example.com/demo.git".to_string(),
            engine_name: "3.8.8".to_string(),
            version: "6.7.3.1".to_string(),
            minor_version: 4,
            build_mode: BuildMode::Test,
            is_hot_update: true,
            enable_pay: false,
            review_mode: true,
        },
        &Engine { name: "3.8.8".to_string(), path: "C:\\engine\\Creator.exe".to_string() },
        "main".to_string(),
        "C:\\workspace\\project".to_string(),
        "C:\\workspace\\code".to_string(),
        "C:\\workspace\\asset".to_string(),
    )
}

fn prep_context() -> PlaceholderContext {
    let project = Project {
        id: "project_1".to_string(),
        name: "demo".to_string(),
        workspace_dir_key: "workspace_1".to_string(),
        git_url: "https://example.com/demo.git".to_string(),
        engine_name: "cocos".to_string(),
        version: "1.2.3".to_string(),
        minor_version: 7,
        build_mode: BuildMode::Release,
        is_hot_update: false,
        enable_pay: true,
        review_mode: false,
    };
    let engine = Engine { name: "cocos".to_string(), path: "/engine".to_string() };
    PlaceholderContext::new(&project, &engine, "main".to_string(), "/project".to_string(), String::new(), String::new())
}

fn option(label: &str, value: &str) -> PrepParamOption {
    PrepParamOption { id: String::new(), label: label.to_string(), value: value.to_string() }
}

fn select_param() -> PrepParam {
    PrepParam {
        name: "channel".to_string(),
        param_type: PrepParamType::Select,
        value_source: PrepParamValueSource::Runtime,
        optional: false,
        options: vec![option("安卓", "android"), option("iOS", "ios")],
        fixed_value: None,
    }
}

fn select_with(options: Vec<PrepParamOption>) -> PrepParam {
    PrepParam { options, ..select_param() }
}

fn prep_project(params: &[PrepParam]) -> PrepProject {
    PrepProject {
        id: "1".to_string(),
        name: "demo".to_string(),
        path: "/tmp/demo".to_string(),
        description: String::new(),
        create_time: "2026-03-21 00:00:00".to_string(),
        params: normalized_prep_params(params),
    }
}

fn params_of(pairs: Vec<(&str, JsonValue)>) -> ParamMap {
    let mut map = ParamMap::new();
    for (k, v) in pairs {
        map.insert(k.to_string(), v);
    }
    map
}

fn has_pair(args: &[String], a: &str, b: &str) -> bool {
    args.windows(2).any(|pair| pair[0] == a && pair[1] == b)
}

#[test]
fn replace_text_should_render_all_placeholders() {
    let context = placeholder_context();
    let rendered = context.replace_text(
        "${version}|${version_prefix}|${minor_version}|${build_mode}|${BUILD_MODE}|${review_mode}|${project_path}|${code_package_path}|${code_repo_path}|${asset_repo_path}",
    );
    assert_eq!(
        rendered,
        "6.7.3.1|6.7.3|4|test|TEST|true|C:/workspace/project|C:/workspace/code|C:/workspace/code|C:/workspace/asset"
    );
}

#[test]
fn replace_text_should_render_dynamic_parameters() {
    let params = params_of(vec![("channel", JsonValue::Str("official".to_owned()))]);
    let context = PlaceholderContext::new_with_params(
        &Project::default(),
        &Engine::default(),
        "main".to_owned(),
        String::new(),
        String::new(),
        String::new(),
        &params,
    );
    assert_eq!(context.replace_text("${param.channel}"), "official");
}

#[test]
fn replace_text_renders_non_string_parameters_as_json() {
    let params = params_of(vec![
        ("flag", JsonValue::Bool(true)),
        ("list", JsonValue::Composite("[1,2]".to_owned())),
    ]);
    let context = PlaceholderContext::new_with_params(
        &Project::default(),
        &Engine::default(),
        "dev".to_owned(),
        String::new(),
        String::new(),
        String::new(),
        &params,
    );
    assert_eq!(context.replace_text("${param.flag}/${param.list}/${project_branch}"), "true/[1,2]/dev");
    assert_eq!(context.replace_text("${param.missing}"), "${param.missing}");
}

#[test]
fn version_prefix_drops_only_a_fourth_part() {
    assert_eq!(version_prefix_of("6.7.3.1"), "6.7.3");
    assert_eq!(version_prefix_of("1.2.3"), "1.2.3");
}

#[test]
fn validate_should_reject_select_without_options() {
    let error = validate_prep_params(&[select_with(Vec::new())]).expect_err("select without options should fail");
    assert!(error.contains("至少需要配置一个选项"));
}

#[test]
fn validate_should_reject_blank_option_label_or_value() {
    let blank_label = validate_prep_params(&[select_with(vec![option(" ", "android")])])
        .expect_err("blank label should fail");
    assert!(blank_label.contains("显示文案不能为空"));

    let blank_value = validate_prep_params(&[select_with(vec![option("安卓", " ")])])
        .expect_err("blank value should fail");
    assert!(blank_value.contains("选项值不能为空"));
}

#[test]
fn validate_should_reject_duplicate_option_label_or_value() {
    let duplicate_label = validate_prep_params(&[select_with(vec![option("安卓", "android"), option("安卓", "ios")])])
        .expect_err("duplicate label should fail");
    assert!(duplicate_label.contains("显示文案不能重复"));

    let duplicate_value = validate_prep_params(&[select_with(vec![option("安卓", "android"), option("iOS", "android")])])
        .expect_err("duplicate value should fail");
    assert!(duplicate_value.contains("选项值不能重复"));
}

#[test]
fn validate_accepts_a_well_formed_select() {
    assert!(validate_prep_params(&[select_param()]).is_ok());
}

#[test]
fn build_prep_args_should_accept_valid_select_value() {
    let project = prep_project(&[select_param()]);
    let args = build_prep_args(&project, &params_of(vec![("channel", JsonValue::Str("android".to_string()))]), &prep_context())
        .expect("valid select value should pass");
    assert!(has_pair(&args, "--channel", "android"));
}

#[test]
fn build_prep_args_should_reject_invalid_select_value() {
    let project = prep_project(&[select_param()]);
    let error = build_prep_args(&project, &params_of(vec![("channel", JsonValue::Str("windows".to_string()))]), &prep_context())
        .expect_err("invalid select value should fail");
    assert!(error.contains("选项值不合法"));
}

#[test]
fn validate_should_reject_fixed_param_without_value() {
    let error = validate_prep_params(&[PrepParam {
        name: "channel".to_string(),
        param_type: PrepParamType::Str,
        value_source: PrepParamValueSource::Fixed,
        optional: false,
        options: Vec::new(),
        fixed_value: None,
    }])
    .expect_err("fixed param without value should fail");
    assert!(error.contains("必须填写固定值"));
}

#[test]
fn build_prep_args_should_use_fixed_value_and_ignore_runtime_override() {
    let project = prep_project(&[
        PrepParam {
            name: "channel".to_string(),
            param_type: PrepParamType::Str,
            value_source: PrepParamValueSource::Fixed,
            optional: false,
            options: Vec::new(),
            fixed_value: Some(JsonValue::Str("${build_mode}".to_string())),
        },
        PrepParam {
            name: "tag".to_string(),
            param_type: PrepParamType::Bool,
            value_source: PrepParamValueSource::Fixed,
            optional: false,
            options: Vec::new(),
            fixed_value: Some(JsonValue::Bool(true)),
        },
    ]);
    let args = build_prep_args(
        &project,
        &params_of(vec![("channel", JsonValue::Str("override".to_string())), ("tag", JsonValue::Bool(false))]),
        &prep_context(),
    )
    .expect("fixed values should be used");
    assert!(has_pair(&args, "--channel", "release"));
    assert!(has_pair(&args, "--tag", "true"));
    assert!(!has_pair(&args, "--channel", "override"));
}

#[test]
fn build_prep_args_reports_a_missing_required_value() {
    let project = prep_project(&[select_param()]);
    assert!(build_prep_args(&project, &ParamMap::new(), &prep_context()).is_err());
}

#[test]
fn normalized_non_select_param_should_clear_options() {
    let params = normalized_prep_params(&[PrepParam {
        name: "message".to_string(),
        param_type: PrepParamType::Str,
        value_source: PrepParamValueSource::Runtime,
        optional: false,
        options: vec![PrepParamOption { id: "1".to_string(), label: "显示".to_string(), value: "值".to_string() }],
        fixed_value: None,
    }]);
    let message_param = params.iter().find(|param| param.name == "message").expect("message param should exist");
    assert!(message_param.options.is_empty());
}

#[test]
fn import_path_validation_should_reject_parent_or_absolute_path() {
    let parent_error = validate_import_file_path("../lib.py").expect_err("parent path should fail");
    assert!(parent_error.contains("不合法"));

    let absolute_error = validate_import_file_path("/tmp/lib.py").expect_err("absolute path should fail");
    assert!(absolute_error.contains("相对路径"));

    assert!(validate_import_file_path("nested/helper.py").is_ok());
}

#[test]
fn managed_export_filter_should_skip_runtime_files() {
    assert!(should_manage_export_file("lib.py"));
    assert!(should_manage_export_file("nested/helper.py"));
    assert!(!should_manage_export_file("data/output.json"));
    assert!(!should_manage_export_file("nested/data/output.json"));
    assert!(!should_manage_export_file("uv.lock"));
    assert!(!should_manage_export_file(".venv/bin/python"));
    assert!(!should_manage_export_file("__pycache__/lib.pyc"));
}

#[test]
fn default_lib_template_should_describe_data_dir_and_exit_codes() {
    let content = default_lib_py();
    assert!(content.contains("data 目录是数据目录"));
    assert!(content.contains("动态生成的资源请放到 data/ 下面"));
    assert!(content.contains("退出码说明：0 表示成功，非 0 表示失败"));
}

#[test]
fn sanitize_identifier_keeps_ascii_words() {
    assert_eq!(sanitize_identifier("My-Param 1"), "my_param_1");
}

#[test]
fn unique_import_name_appends_a_counter() {
    let existing = vec!["demo".to_string(), "demo (1)".to_string()];
    let name = unique_import_name("demo", &existing);
    assert!(!existing.contains(&name));
    assert!(name.starts_with("demo"));
    assert_eq!(unique_import_name("fresh", &existing), "fresh");
}

#[test]
fn render_prep_command_joins_arguments() {
    let args = vec!["run".to_string(), "main.py".to_string()];
    assert!(render_prep_command(&args).contains("main.py"));
}

#[test]
fn import_update_drops_only_files_it_does_not_bring() {
    let files = vec![PrepProjectExportFile { path: "lib.py".to_string(), content: "new\n".to_string() }];
    assert!(!is_dropped_by_import("lib.py", &files));
    assert!(is_dropped_by_import("nested/extra.py", &files));
    assert!(is_dropped_by_import("lib.py", &Vec::new()));
}

fn conditional(source: &str, equals: &str) -> TaskPrepAction {
    TaskPrepAction::Conditional {
        condition_source: source.to_string(),
        condition_equals: equals.to_string(),
        on_match_targets: vec![TaskPrepTarget { prep_project_id: "prep_match".to_string(), params: ParamMap::new() }],
        on_mismatch_targets: vec![
            TaskPrepTarget { prep_project_id: "prep_other_a".to_string(), params: ParamMap::new() },
            TaskPrepTarget { prep_project_id: "prep_other_b".to_string(), params: ParamMap::new() },
        ],
    }
}

#[test]
fn conditional_step_hands_back_the_targets_of_the_branch_taken() {
    let context = placeholder_context();
    let matched = select_conditional_targets(&conditional(" ${build_mode} ", " test "), &context).expect("valid step");
    assert!(matched.matched);
    assert_eq!(matched.rendered_source, "test");
    assert_eq!(matched.compare_value, "test");
    assert_eq!(matched.targets.len(), 1);
    assert_eq!(matched.targets[0].prep_project_id, "prep_match");

    let missed = select_conditional_targets(&conditional("${build_mode}", "release"), &context).expect("valid step");
    assert!(!missed.matched);
    let ids: Vec<&str> = missed.targets.iter().map(|t| t.prep_project_id.as_str()).collect();
    assert_eq!(ids, vec!["prep_other_a", "prep_other_b"]);

    assert!(select_conditional_targets(&conditional("  ", "x"), &context).is_err());
}

#[test]
fn text_without_placeholder_opener_is_left_as_is() {
    let context = placeholder_context();
    assert_eq!(context.replace_text("plain $ text {version}"), "plain $ text {version}");
    assert_eq!(context.replace_text("${version}"), "6.7.3.1");
}

#[test]
fn batch_run_keeps_task_order_and_counts_failures() {
    let ids = vec!["task_a".to_string(), "missing".to_string(), "task_b".to_string()];
    let ok = PrepProjectRunResponse {
        success: true,
        exit_code: 0,
        stdout: "done".to_string(),
        stderr: String::new(),
        command: "uv run".to_string(),
        project_path: "/p".to_string(),
    };
    let outcomes = vec![
        TaskRunOutcome::Ran { task_name: "A".to_string(), project_name: "P".to_string(), result: ok },
        TaskRunOutcome::NotRun {
            task_name: "missing".to_string(),
            project_name: String::new(),
            project_path: String::new(),
            message: "未找到任务 missing".to_string(),
        },
        TaskRunOutcome::NotRun {
            task_name: "B".to_string(),
            project_name: String::new(),
            project_path: String::new(),
            message: "未绑定项目".to_string(),
        },
    ];
    let r = summarize_batch(&ids, outcomes);
    assert_eq!(r.total_count, 3);
    assert_eq!(r.success_count, 1);
    assert_eq!(r.failed_count, 2);
    let order: Vec<&str> = r.results.iter().map(|item| item.task_id.as_str()).collect();
    assert_eq!(order, vec!["task_a", "missing", "task_b"]);
    assert!(r.results[0].success && r.results[0].error_message.is_none());
    assert_eq!(r.results[1].exit_code, -1);
    assert_eq!(r.results[2].error_message.as_deref(), Some("未绑定项目"));
}
