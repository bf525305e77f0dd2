use base64::Engine as _;
use cocos_build_lan_server::cocos::{
    abort_message, cocos_build_crash_keywords, find_crash_keyword, parse_extra_flags, pe_machine,
    push_context_line, CRASH_CONTEXT_LINES,
};
use cocos_build_lan_server::git::{build_auth_header, normalize_branch_name};
use cocos_build_lan_server::models::GitConfig;
use cocos_build_lan_server::paths::{
    code_package_work_dir, engine_dir_candidates, resolve_engine_build_dir_from_game_js,
    resolve_runtime_paths_from_exe,
};

fn fake_pe(machine: u16) -> Vec<u8> {
    let mut bytes = vec![0u8; 0x100];
    bytes[0..2].copy_from_slice(b"MZ");
    let e_lfanew: u32 = 0x40;
    bytes[0x3c..0x40].copy_from_slice(&e_lfanew.to_le_bytes());
    bytes[0x40..0x44].copy_from_slice(b"PE\0\0");
    bytes[0x44..0x46].copy_from_slice(&machine.to_le_bytes());
    bytes
}

#[test]
fn normalize_branch_name_should_trim_origin_prefix() {
    assert_eq!(normalize_branch_name(" origin/main "), "main");
    assert_eq!(normalize_branch_name("feature/demo"), "feature/demo");
}

#[test]
fn build_auth_header_should_only_support_http_urls() {
    let git_config = GitConfig {
        username: "user@example.com".to_string(),
        password: "token".to_string(),
    };

    assert_eq!(
        build_auth_header("https://example.com/repo.git", &git_config),
        Some(format!(
            "AUTHORIZATION: Basic {}",
            base64::engine::general_purpose::STANDARD.encode("user@example.com:token")
        ))
    );
    assert_eq!(build_auth_header("git@example.com:repo.git", &git_config), None);
}

#[test]
fn build_auth_header_encodes_credentials_exactly() {
    let git_config = GitConfig { username: "a".to_string(), password: "b".to_string() };
    assert_eq!(
        build_auth_header("http://host/x.git", &git_config),
        Some("AUTHORIZATION: Basic YTpi".to_string())
    );
    let empty = GitConfig::default();
    assert_eq!(build_auth_header("https://host/x.git", &empty), None);
}

#[test]
fn resolve_runtime_paths_from_exe_should_use_backend_exe_dir() {
    let script_path = resolve_runtime_paths_from_exe("/opt/cocos-build/backend/cocos-build-backend")
        .expect("resolve runtime paths");
    assert_eq!(script_path, "/opt/cocos-build/backend/scripts/ast_obfuscate.cjs");
}

#[test]
fn resolve_runtime_paths_from_exe_should_fail_without_parent() {
    let error = resolve_runtime_paths_from_exe("/").expect_err("path without parent should fail");
    assert!(error.contains("无法解析后端可执行文件所在目录"));
}

#[test]
fn crash_keyword_list_should_include_heap_oom_markers() {
    let keywords = cocos_build_crash_keywords();
    assert!(keywords.iter().any(|k| k == "FATAL ERROR"));
    assert!(keywords.iter().any(|k| k == "heap out of memory"));
}

#[test]
fn find_crash_keyword_reports_the_earliest_listed_marker() {
    assert_eq!(
        find_crash_keyword("<--- FATAL ERROR: heap out of memory"),
        Some("heap out of memory".to_string())
    );
    assert_eq!(find_crash_keyword("build ok"), None);
}

#[test]
fn context_buffer_should_keep_most_recent_lines() {
    let mut recent: Vec<String> = Vec::new();
    for index in 0..(CRASH_CONTEXT_LINES + 10) {
        push_context_line(&mut recent, format!("line {index}"));
    }
    assert_eq!(recent.len(), CRASH_CONTEXT_LINES);
    assert_eq!(recent.first().map(String::as_str), Some("line 10"));
    assert_eq!(recent.last().map(String::as_str), Some("line 49"));
}

#[test]
fn abort_message_should_include_recent_output_when_present() {
    let mut recent: Vec<String> = Vec::new();
    push_context_line(&mut recent, "first".to_owned());
    push_context_line(&mut recent, "second".to_owned());

    let message = abort_message("构建终止", &recent);

    assert!(message.contains("构建终止"));
    assert!(message.contains("崩溃前最近输出"));
    assert!(message.contains("first"));
    assert!(message.contains("second"));

    let without_context = abort_message("构建终止", &Vec::new());
    assert!(!without_context.contains("崩溃前最近输出"));
}

#[test]
fn extra_flags_should_default_and_allow_env_override() {
    assert_eq!(parse_extra_flags(None), vec!["--no-sandbox".to_owned(), "--disable-gpu".to_owned()]);
    assert_eq!(parse_extra_flags(Some("")), vec!["--no-sandbox", "--disable-gpu"]);
    assert_eq!(parse_extra_flags(Some("   ")), vec!["--no-sandbox", "--disable-gpu"]);
    assert_eq!(
        parse_extra_flags(Some("--no-sandbox --disable-gpu-compositing")),
        vec!["--no-sandbox".to_owned(), "--disable-gpu-compositing".to_owned()]
    );
    assert_eq!(
        parse_extra_flags(Some("--js-flags=--max-old-space-size=16384")),
        vec!["--js-flags=--max-old-space-size=16384".to_owned()]
    );
}

#[test]
fn pe_machine_should_parse_x64_and_x86_headers() {
    assert_eq!(pe_machine(&fake_pe(0x8664)), Some(0x8664));
    assert_eq!(pe_machine(&fake_pe(0x014c)), Some(0x014c));
    assert_eq!(pe_machine(&fake_pe(0x014c)[..0x3c]), None);
    assert_eq!(pe_machine(b"not a pe file"), None);
}

#[test]
fn code_package_work_dir_should_use_fixed_code_repo_name() {
    assert_eq!(code_package_work_dir("/tmp/demo-task"), "/tmp/demo-task/code-repo");
}

#[test]
fn resolve_engine_build_dir_from_game_js_should_find_package_root() {
    let target = "/tmp/work/pkg_a/subpackages/main/game.js";
    let candidates = engine_dir_candidates(target);
    assert_eq!(
        candidates,
        vec![
            "/tmp/work/pkg_a/subpackages/main",
            "/tmp/work/pkg_a/subpackages",
            "/tmp/work/pkg_a",
            "/tmp/work",
            "/tmp",
            "/"
        ]
    );
    let flags: Vec<bool> = candidates.iter().map(|c| c == "/tmp/work/pkg_a").collect();
    let resolved = resolve_engine_build_dir_from_game_js(target, &flags).expect("resolve engine build dir");
    assert_eq!(resolved, "/tmp/work/pkg_a");
}

#[test]
fn resolve_engine_build_dir_from_game_js_should_fail_when_engine_dirs_missing() {
    let target = "/tmp/code/pkg_a/subpackages/main/game.js";
    let flags = vec![false; engine_dir_candidates(target).len()];
    let error = resolve_engine_build_dir_from_game_js(target, &flags)
        .expect_err("missing engine dirs should fail");
    assert!(error.contains("未找到代码包构建目录"));
}
