use cocos_build_lan_server::groups::{create_task_group, update_task_group};
use cocos_build_lan_server::json::{normalize_integral_number, JsonNumber, JsonValue};
use cocos_build_lan_server::models::{
    AppSettings, Engine, FeishuBotConfig, GitConfig, GroupParamPreset, PackageTask, ParamDefinition,
    ParamKind, Project, PublicSettingsUpdate, TaskGroup, TaskGroupRequest,
};
use cocos_build_lan_server::param_map::ParamMap;
use cocos_build_lan_server::params::{
    apply_public_settings, normalize_hidden_params, normalize_params, normalize_presets,
    public_settings_of, valid_parameter_key, validate_definition, validate_update,
};

fn float(text: &str, exact: Option<i128>) -> JsonValue {
    JsonValue::Number(JsonNumber::Float { text: text.to_string(), exact_integer: exact })
}

fn str_value(s: &str) -> JsonValue {
    JsonValue::Str(s.to_string())
}

fn params_of(pairs: Vec<(&str, JsonValue)>) -> ParamMap {
    let mut map = ParamMap::new();
    for (k, v) in pairs {
        map.insert(k.to_string(), v);
    }
    map
}

fn project(id: &str) -> Project {
    Project {
        id: id.to_owned(),
        workspace_dir_key: "workspace_1".to_owned(),
        name: "项目".to_owned(),
        ..Project::default()
    }
}

fn group_request(name: &str, branch: &str) -> TaskGroupRequest {
    TaskGroupRequest {
        project_id: "project_1".to_owned(),
        name: name.to_owned(),
        description: String::new(),
        branch: branch.to_owned(),
        params: ParamMap::new(),
        copy_from_group_id: None,
        presets: None,
        hidden_params: None,
    }
}

#[test]
fn rejects_duplicate_engines_and_invalid_webhook() {
    let duplicate = PublicSettingsUpdate {
        engines: vec![
            Engine { name: "Cocos".to_owned(), path: "a".to_owned() },
            Engine { name: "cocos".to_owned(), path: "b".to_owned() },
        ],
        ..PublicSettingsUpdate::default()
    };
    assert!(validate_update(&duplicate).is_err());

    let bad_webhook = PublicSettingsUpdate {
        feishu_bots: vec![FeishuBotConfig {
            id: "bot".to_owned(),
            name: "机器人".to_owned(),
            api_key: "ftp://example.com/hook".to_owned(),
        }],
        ..PublicSettingsUpdate::default()
    };
    assert!(validate_update(&bad_webhook).is_err());
}

#[test]
fn project_requires_existing_engine() {
    let update = PublicSettingsUpdate {
        projects: vec![Project {
            id: "project_1".to_owned(),
            name: "demo".to_owned(),
            git_url: "https://example.com/demo.git".to_owned(),
            engine_name: "missing".to_owned(),
            ..Project::default()
        }],
        ..PublicSettingsUpdate::default()
    };
    assert!(validate_update(&update).is_err());

    let with_engine = PublicSettingsUpdate {
        engines: vec![Engine { name: "missing".to_owned(), path: "/engine".to_owned() }],
        ..update
    };
    assert!(validate_update(&with_engine).is_ok());
}

#[test]
fn parameter_key_and_type_are_validated() {
    let definition = ParamDefinition {
        key: "bad-key".to_owned(),
        label: "坏参数".to_owned(),
        default_value: str_value("x"),
        ..ParamDefinition::default()
    };
    assert!(validate_definition(&definition).is_err());
    assert!(!valid_parameter_key("bad-key"));
    assert!(valid_parameter_key("good_key1"));
    assert!(!valid_parameter_key("1starts_with_digit"));
}

#[test]
fn integral_floats_are_normalized_without_changing_decimals() {
    let mut integer = float("7.0", Some(7));
    let mut decimal = float("7.5", None);

    assert!(normalize_integral_number(&mut integer));
    assert_eq!(integer, JsonValue::Number(JsonNumber::PosInt(7)));
    assert!(!normalize_integral_number(&mut decimal));
    assert_eq!(decimal, float("7.5", None));

    let mut negative = float("-3.0", Some(-3));
    assert!(normalize_integral_number(&mut negative));
    assert_eq!(negative, JsonValue::Number(JsonNumber::NegInt(-3)));
}

#[test]
fn parameter_validation_rejects_unknown_and_invalid_select_values() {
    let definitions = vec![ParamDefinition {
        key: "channel".to_owned(),
        label: "渠道".to_owned(),
        kind: ParamKind::Select,
        options: vec!["official".to_owned()],
        default_value: str_value("official"),
        required: true,
        ..ParamDefinition::default()
    }];
    assert!(normalize_params(&definitions, &params_of(vec![("other", JsonValue::Null)])).is_err());
    assert!(normalize_params(&definitions, &params_of(vec![("channel", str_value("bad"))])).is_err());
    let ok = normalize_params(&definitions, &ParamMap::new()).expect("defaults fill in");
    assert_eq!(ok.get("channel"), Some(&str_value("official")));
}

#[test]
fn changing_number_preserves_existing_select_value() {
    let definitions = vec![
        ParamDefinition {
            key: "minor_version".to_owned(),
            kind: ParamKind::Number,
            default_value: JsonValue::Number(JsonNumber::PosInt(0)),
            required: true,
            ..ParamDefinition::default()
        },
        ParamDefinition {
            key: "build_mode".to_owned(),
            kind: ParamKind::Select,
            options: vec!["release".to_owned(), "test".to_owned()],
            default_value: str_value("release"),
            required: true,
            ..ParamDefinition::default()
        },
    ];
    let params = params_of(vec![("minor_version", float("7.0", Some(7))), ("build_mode", str_value("test"))]);

    let normalized = normalize_params(&definitions, &params).expect("params should be valid");

    assert_eq!(normalized.get("minor_version"), Some(&JsonValue::Number(JsonNumber::PosInt(7))));
    assert_eq!(normalized.get("build_mode"), Some(&str_value("test")));
}

fn preset_definitions() -> Vec<ParamDefinition> {
    vec![
        ParamDefinition {
            key: "hot_update".to_owned(),
            kind: ParamKind::Switch,
            default_value: JsonValue::Bool(false),
            ..ParamDefinition::default()
        },
        ParamDefinition {
            key: "env".to_owned(),
            kind: ParamKind::Select,
            options: vec!["dev".to_owned(), "pre".to_owned(), "release".to_owned()],
            default_value: str_value("dev"),
            ..ParamDefinition::default()
        },
        ParamDefinition {
            key: "count".to_owned(),
            kind: ParamKind::Number,
            default_value: JsonValue::Number(JsonNumber::PosInt(0)),
            ..ParamDefinition::default()
        },
    ]
}

#[test]
fn presets_validate_names_params_and_assign_ids() {
    let presets = normalize_presets(
        &preset_definitions(),
        &vec![GroupParamPreset {
            id: String::new(),
            name: "首提审包".to_owned(),
            params: params_of(vec![
                ("hot_update", JsonValue::Bool(false)),
                ("env", str_value("dev")),
                ("count", float("7.0", Some(7))),
            ]),
        }],
    )
    .expect("partial preset should be valid");

    assert_eq!(presets.len(), 1);
    assert!(!presets[0].id.is_empty());
    assert!(presets[0].id.starts_with("preset_"));
    assert_eq!(presets[0].name, "首提审包");
    assert_eq!(presets[0].params.get("count"), Some(&JsonValue::Number(JsonNumber::PosInt(7))));
    assert_eq!(presets[0].params.get("hot_update"), Some(&JsonValue::Bool(false)));
    assert_eq!(presets[0].params.get("env"), Some(&str_value("dev")));
}

#[test]
fn presets_keep_a_given_id() {
    let presets = normalize_presets(
        &preset_definitions(),
        &vec![GroupParamPreset { id: " preset_x ".to_owned(), name: "线上".to_owned(), params: ParamMap::new() }],
    )
    .expect("valid preset");
    assert_eq!(presets[0].id, "preset_x");
}

#[test]
fn presets_reject_unknown_params_duplicate_names_and_bad_kinds() {
    let definitions = vec![ParamDefinition {
        key: "env".to_owned(),
        kind: ParamKind::Select,
        options: vec!["dev".to_owned()],
        default_value: str_value("dev"),
        ..ParamDefinition::default()
    }];
    let unknown = normalize_presets(
        &definitions,
        &vec![GroupParamPreset {
            name: "预设".to_owned(),
            params: params_of(vec![("nope", JsonValue::Number(JsonNumber::PosInt(1)))]),
            ..GroupParamPreset::default()
        }],
    );
    assert!(unknown.is_err());
    let bad_value = normalize_presets(
        &definitions,
        &vec![GroupParamPreset {
            name: "预设".to_owned(),
            params: params_of(vec![("env", str_value("bad"))]),
            ..GroupParamPreset::default()
        }],
    );
    assert!(bad_value.is_err());
    let duplicated = normalize_presets(
        &definitions,
        &vec![
            GroupParamPreset { name: "线上".to_owned(), ..GroupParamPreset::default() },
            GroupParamPreset { name: "线上".to_owned(), ..GroupParamPreset::default() },
        ],
    );
    assert!(duplicated.is_err());
    let empty_name = normalize_presets(&definitions, &vec![GroupParamPreset { name: "  ".to_owned(), ..GroupParamPreset::default() }]);
    assert!(empty_name.is_err());
}

#[test]
fn hidden_params_reject_unknown_keys_and_deduplicate() {
    let definitions = vec![ParamDefinition { key: "env".to_owned(), ..ParamDefinition::default() }];
    let unknown = normalize_hidden_params(&definitions, &vec!["env".to_owned(), "nope".to_owned()]);
    assert!(unknown.is_err());

    let hidden = normalize_hidden_params(
        &definitions,
        &vec!["env".to_owned(), " env ".to_owned(), "env".to_owned(), "".to_owned()],
    )
    .expect("valid hidden params");
    assert_eq!(hidden, vec!["env".to_owned()]);
}

fn group_settings() -> AppSettings {
    AppSettings {
        projects: vec![project("project_1")],
        param_definitions: vec![ParamDefinition {
            key: "env".to_owned(),
            kind: ParamKind::Select,
            options: vec!["dev".to_owned(), "pre".to_owned(), "release".to_owned()],
            default_value: str_value("dev"),
            ..ParamDefinition::default()
        }],
        task_groups: vec![TaskGroup {
            id: "group_1".to_owned(),
            project_id: "project_1".to_owned(),
            name: "主分组".to_owned(),
            branch: "main".to_owned(),
            presets: vec![GroupParamPreset {
                id: "preset_old".to_owned(),
                name: "旧预设".to_owned(),
                params: ParamMap::new(),
            }],
            hidden_params: vec!["env".to_owned()],
            ..TaskGroup::default()
        }],
        ..AppSettings::default()
    }
}

#[test]
fn updating_group_keeps_omitted_presets_and_replaces_sent_ones() {
    let mut settings = group_settings();

    let group = update_task_group(&mut settings, "group_1", &group_request("主分组", "release")).expect("update");
    assert_eq!(group.presets[0].id, "preset_old");
    assert_eq!(group.hidden_params, vec!["env".to_owned()]);
    assert_eq!(group.branch, "release");
    assert_eq!(settings.task_groups[0], group);

    let request = TaskGroupRequest {
        presets: Some(vec![GroupParamPreset {
            id: String::new(),
            name: "线上热更新".to_owned(),
            params: params_of(vec![("env", str_value("release"))]),
        }]),
        hidden_params: Some(vec!["env".to_owned()]),
        ..group_request("主分组", "release")
    };
    let group = update_task_group(&mut settings, "group_1", &request).expect("update");
    assert_eq!(group.presets.len(), 1);
    assert_eq!(group.presets[0].name, "线上热更新");
    assert!(!group.presets[0].id.is_empty());
    assert_eq!(group.presets[0].params.get("env"), Some(&str_value("release")));
    assert_eq!(settings.task_groups[0].presets.len(), 1);
}

#[test]
fn updating_a_missing_group_is_not_found() {
    let mut settings = group_settings();
    let before = settings.clone();
    assert!(update_task_group(&mut settings, "nope", &group_request("主分组", "main")).is_err());
    assert_eq!(settings, before);
}

#[test]
fn creating_group_can_copy_only_source_params() {
    let mut settings = AppSettings {
        projects: vec![project("project_1")],
        param_definitions: vec![ParamDefinition {
            key: "channel".to_owned(),
            label: "渠道".to_owned(),
            default_value: str_value("default"),
            ..ParamDefinition::default()
        }],
        task_groups: vec![TaskGroup {
            id: "group_source".to_owned(),
            project_id: "project_1".to_owned(),
            name: "源组".to_owned(),
            description: "源描述".to_owned(),
            branch: "source".to_owned(),
            params: params_of(vec![("channel", str_value("copied"))]),
            presets: Vec::new(),
            hidden_params: Vec::new(),
            order: 0,
        }],
        ..AppSettings::default()
    };
    let request = TaskGroupRequest {
        description: "目标描述".to_owned(),
        copy_from_group_id: Some("group_source".to_owned()),
        ..group_request("目标组", "target")
    };
    let group = create_task_group(&mut settings, &request).expect("create");
    assert_eq!(group.description, "目标描述");
    assert_eq!(group.branch, "target");
    assert_eq!(group.params.get("channel"), Some(&str_value("copied")));
    assert_eq!(settings.task_groups.len(), 2);
}

#[test]
fn creating_group_with_duplicate_name_is_rejected() {
    let mut settings = group_settings();
    assert!(create_task_group(&mut settings, &group_request("主分组", "main")).is_err());
    assert_eq!(settings.task_groups.len(), 1);
}

#[test]
fn public_settings_never_expose_git_credentials() {
    let settings = AppSettings {
        git_config: GitConfig { username: "user".to_owned(), password: "secret".to_owned() },
        package_tasks: vec![PackageTask { id: "task_1".to_owned(), ..PackageTask::default() }],
        ..AppSettings::default()
    };
    let public = public_settings_of(settings);
    assert!(public.git_credentials_configured);
    assert_eq!(public.package_tasks.len(), 1);
    assert!(!format!("{public:?}").contains("secret"));

    let public = public_settings_of(AppSettings::default());
    assert!(!public.git_credentials_configured);
}

#[test]
fn public_settings_update_preserves_tasks_and_git_credentials() {
    let current = AppSettings {
        git_config: GitConfig { username: "user".to_owned(), password: "secret".to_owned() },
        package_tasks: vec![PackageTask { id: "task_1".to_owned(), ..PackageTask::default() }],
        ..AppSettings::default()
    };
    let update = PublicSettingsUpdate {
        engines: vec![Engine { name: "cocos".to_owned(), path: "/engine".to_owned() }],
        ..PublicSettingsUpdate::default()
    };
    let updated = apply_public_settings(current, update).expect("valid update");
    assert_eq!(updated.git_config.password, "secret");
    assert_eq!(updated.package_tasks.len(), 1);
    assert_eq!(updated.engines.len(), 1);
}
