//! Decisions of a Cocos Creator build: extra flags, crash detection, the
//! output kept for the failure message, the stall watchdog, exit codes and
//! the PE header of the executable.

use vstd::prelude::*;
use crate::error::{AppError, ErrorKind, outcome};
use crate::paths::{join_path, join_text};
use crate::text::{chars_of, contains_seq, contains_str, copy_string, is_ws, is_blank_str, push_char, push_str, views};

verus! {

/// How many output lines a failure message carries.
pub const CRASH_CONTEXT_LINES: usize = 40;

/// V8 heap limit given to the build process, in MB.
pub const COCOS_BUILD_MAX_OLD_SPACE_MB: u32 = 8192;

/// Seconds without output after which a warning is logged.
pub const COCOS_BUILD_STALL_WARN_AFTER_SECS: u64 = 600;

/// Seconds without output after which the build is stopped.
pub const COCOS_BUILD_STALL_KILL_AFTER_SECS: u64 = 1200;

/// Output that means the build process crashed.
pub open spec fn crash_keyword_texts() -> Seq<Seq<char>> {
    seq![
        "构建进程奔溃"@,
        "Builder Process Creashed"@,
        "Creashed when build platform"@,
        "render-process-gone"@,
        "heap out of memory"@,
        "FATAL ERROR"@,
    ]
}

pub fn cocos_build_crash_keywords() -> (r: Vec<String>)
    ensures
        views(r@) == crash_keyword_texts(),
{
    let mut r: Vec<String> = Vec::new();
    r.push("构建进程奔溃".to_string());
    r.push("Builder Process Creashed".to_string());
    r.push("Creashed when build platform".to_string());
    r.push("render-process-gone".to_string());
    r.push("heap out of memory".to_string());
    r.push("FATAL ERROR".to_string());
    assert(views(r@) =~= crash_keyword_texts());
    r
}

/// The first crash keyword the line holds.
pub open spec fn first_crash_keyword(line: Seq<char>) -> Option<int> {
    crate::state::first_match(crash_keyword_texts(), |k: Seq<char>| contains_seq(line, k))
}

pub fn find_crash_keyword(line: &str) -> (r: Option<String>)
    ensures
        match first_crash_keyword(line@) {
            Some(i) => r matches Some(k) && k@ == crash_keyword_texts()[i],
            None => r is None,
        },
{
    let keys = cocos_build_crash_keywords();
    let ghost f = |k: Seq<char>| contains_seq(line@, k);
    let mut i: usize = 0;
    while i < keys.len()
        invariant
            i <= keys@.len(),
            views(keys@) == crash_keyword_texts(),
            f == (|k: Seq<char>| contains_seq(line@, k)),
            forall|j: int| 0 <= j < i ==> !f(#[trigger] crash_keyword_texts()[j]),
        decreases keys.len() - i,
    {
        assert(views(keys@)[i as int] == keys@[i as int]@);
        if contains_str(line, keys[i].as_str()) {
            proof { crate::state::lemma_first_match(crash_keyword_texts(), f, i as int); }
            return Some(copy_string(keys[i].as_str()));
        }
        i = i + 1;
    }
    proof { crate::state::lemma_no_match(crash_keyword_texts(), f); }
    None
}

/// The recent lines after one more: the oldest is dropped once there are 40.
pub open spec fn pushed_context(recent: Seq<Seq<char>>, line: Seq<char>) -> Seq<Seq<char>> {
    if recent.len() >= 40 { recent.drop_first().push(line) } else { recent.push(line) }
}

pub fn push_context_line(recent: &mut Vec<String>, line: String)
    ensures
        views(final(recent)@) == pushed_context(views(old(recent)@), line@),
{
    let ghost before = views(recent@);
    if recent.len() >= CRASH_CONTEXT_LINES {
        recent.remove(0);
    }
    let ghost mid = views(recent@);
    recent.push(line);
    proof {
        if before.len() >= 40 {
            assert(mid =~= before.drop_first());
        } else {
            assert(mid =~= before);
        }
        assert(views(recent@) =~= mid.push(line@));
    }
}

/// The last `n` lines (all of them when fewer).
pub open spec fn last_lines(lines: Seq<Seq<char>>, n: nat) -> Seq<Seq<char>> {
    if lines.len() <= n { lines } else { lines.skip(lines.len() - n) }
}

/// Pushing lines one by one into an empty buffer keeps the last 40 of them.
pub proof fn law_context_keeps_recent_lines(lines: Seq<Seq<char>>)
    ensures
        lines.fold_left(Seq::<Seq<char>>::empty(), |acc: Seq<Seq<char>>, l: Seq<char>| pushed_context(acc, l)) == last_lines(lines, 40),
    decreases lines.len(),
{
    let f = |acc: Seq<Seq<char>>, l: Seq<char>| pushed_context(acc, l);
    if lines.len() > 0 {
        law_context_keeps_recent_lines(lines.drop_last());
        let prev = last_lines(lines.drop_last(), 40);
        assert(lines.fold_left(Seq::<Seq<char>>::empty(), f) == f(lines.drop_last().fold_left(Seq::<Seq<char>>::empty(), f), lines.last()));
        if lines.drop_last().len() >= 40 {
            assert(prev.drop_first().push(lines.last()) =~= last_lines(lines, 40));
        } else {
            assert(prev.push(lines.last()) =~= last_lines(lines, 40));
        }
    } else {
        assert(lines.fold_left(Seq::<Seq<char>>::empty(), f) == Seq::<Seq<char>>::empty());
    }
}

/// The lines of the recent output, each after a newline.
pub open spec fn newline_lines(recent: Seq<Seq<char>>) -> Seq<char>
    decreases recent.len(),
{
    if recent.len() == 0 { Seq::empty() } else { newline_lines(recent.drop_last()) + seq!['\n'] + recent.last() }
}

/// The failure message: the reason, then the recent output when there is any.
pub open spec fn abort_text(reason: Seq<char>, recent: Seq<Seq<char>>) -> Seq<char> {
    if recent.len() == 0 {
        reason
    } else {
        reason + "\n── 崩溃前最近输出 ──"@ + newline_lines(recent)
    }
}

pub fn abort_message(reason: &str, recent: &Vec<String>) -> (r: String)
    ensures
        r@ == abort_text(reason@, views(recent@)),
{
    let mut message = copy_string(reason);
    if recent.len() > 0 {
        push_str(&mut message, "\n── 崩溃前最近输出 ──");
        let ghost head = message@;
        let mut i: usize = 0;
        assert(views(recent@).take(0) =~= Seq::<Seq<char>>::empty());
        while i < recent.len()
            invariant
                i <= recent@.len(),
                message@ == head + newline_lines(views(recent@).take(i as int)),
            decreases recent.len() - i,
        {
            assert(views(recent@).take(i + 1).drop_last() =~= views(recent@).take(i as int));
            assert(views(recent@)[i as int] == recent@[i as int]@);
            push_char(&mut message, '\n');
            push_str(&mut message, recent[i].as_str());
            i = i + 1;
        }
        assert(views(recent@).take(recent@.len() as int) =~= views(recent@));
    }
    message
}

/// The words of a text: maximal runs of characters other than white space.
pub open spec fn words(s: Seq<char>) -> Seq<Seq<char>>
    decreases s.len(),
{
    words_from(s, Seq::empty(), Seq::empty())
}

/// Words of `s`, given the words before it and the word being read.
pub open spec fn words_from(s: Seq<char>, done: Seq<Seq<char>>, cur: Seq<char>) -> Seq<Seq<char>>
    decreases s.len(),
{
    if s.len() == 0 {
        if cur.len() > 0 { done.push(cur) } else { done }
    } else if is_ws(s[0]) {
        words_from(s.drop_first(), if cur.len() > 0 { done.push(cur) } else { done }, Seq::empty())
    } else {
        words_from(s.drop_first(), done, cur.push(s[0]))
    }
}

/// `str::split_whitespace`.
pub fn split_whitespace(s: &str) -> (r: Vec<String>)
    ensures
        views(r@) == words(s@),
{
    let cs = chars_of(s);
    let mut done: Vec<String> = Vec::new();
    let mut cur: Vec<char> = Vec::new();
    let mut i: usize = 0;
    assert(s@.skip(0) =~= s@);
    assert(views(done@) =~= Seq::<Seq<char>>::empty());
    assert(cur@ =~= Seq::<char>::empty());
    while i < cs.len()
        invariant
            i <= cs@.len(),
            cs@ == s@,
            words(s@) == words_from(s@.skip(i as int), views(done@), cur@),
        decreases cs.len() - i,
    {
        let ghost rest = s@.skip(i as int);
        assert(rest.drop_first() =~= s@.skip(i + 1));
        assert(rest[0] == cs@[i as int]);
        let c = cs[i];
        if crate::text::is_whitespace(c) {
            if cur.len() > 0 {
                let ghost before = views(done@);
                done.push(crate::text::from_chars(cur.as_slice()));
                assert(views(done@) =~= before.push(cur@));
            }
            cur = Vec::new();
        } else {
            cur.push(c);
        }
        i = i + 1;
    }
    assert(s@.skip(cs@.len() as int) =~= Seq::<char>::empty());
    if cur.len() > 0 {
        let ghost before = views(done@);
        done.push(crate::text::from_chars(cur.as_slice()));
        assert(views(done@) =~= before.push(cur@));
    }
    done
}

/// The extra Chromium flags of a build: the given words, or `--no-sandbox
/// --disable-gpu` when nothing (or only white space) is given.
pub open spec fn extra_flags_for(value: Option<Seq<char>>) -> Seq<Seq<char>> {
    match value {
        Some(v) => if !crate::text::is_blank(v) { words(v) } else { seq!["--no-sandbox"@, "--disable-gpu"@] },
        None => seq!["--no-sandbox"@, "--disable-gpu"@],
    }
}

pub fn parse_extra_flags(value: Option<&str>) -> (r: Vec<String>)
    ensures
        views(r@) == extra_flags_for(match value { Some(v) => Some(v@), None => None }),
{
    match value {
        Some(v) => {
            if !is_blank_str(v) {
                return split_whitespace(v);
            }
        },
        None => {},
    }
    let mut r: Vec<String> = Vec::new();
    r.push("--no-sandbox".to_string());
    r.push("--disable-gpu".to_string());
    assert(views(r@) =~= seq!["--no-sandbox"@, "--disable-gpu"@]);
    r
}

/// The little-endian number of two bytes.
pub open spec fn le16(b0: u8, b1: u8) -> nat {
    b0 as nat + 256 * (b1 as nat)
}

/// The little-endian number of four bytes.
pub open spec fn le32(b0: u8, b1: u8, b2: u8, b3: u8) -> nat {
    b0 as nat + 256 * (b1 as nat) + 65536 * (b2 as nat) + 16777216 * (b3 as nat)
}

/// The machine field of a PE executable: the file must open with `MZ`, and
/// the header that the offset at 0x3c points to must open with `PE\0\0`.
pub open spec fn pe_machine_of(b: Seq<u8>) -> Option<nat> {
    if b.len() < 0x40 || b[0] != 0x4d || b[1] != 0x5a {
        None
    } else {
        let e = le32(b[0x3c], b[0x3d], b[0x3e], b[0x3f]) as int;
        if b.len() < e + 24 || b[e] != 0x50 || b[e + 1] != 0x45 || b[e + 2] != 0 || b[e + 3] != 0 {
            None
        } else {
            Some(le16(b[e + 4], b[e + 5]))
        }
    }
}

pub fn pe_machine(bytes: &[u8]) -> (r: Option<u16>)
    ensures
        match pe_machine_of(bytes@) {
            Some(m) => r == Some(m as u16) && m < 65536,
            None => r is None,
        },
{
    if bytes.len() < 0x40 || bytes[0] != 0x4d || bytes[1] != 0x5a {
        return None;
    }
    let e: u64 = bytes[0x3c] as u64 + 256 * (bytes[0x3d] as u64) + 65536 * (bytes[0x3e] as u64) + 16777216 * (bytes[0x3f] as u64);
    assert(e == le32(bytes@[0x3c], bytes@[0x3d], bytes@[0x3e], bytes@[0x3f]));
    let n = bytes.len() as u64;
    if n < e + 24 {
        return None;
    }
    let i = e as usize;
    if bytes[i] != 0x50 || bytes[i + 1] != 0x45 || bytes[i + 2] != 0 || bytes[i + 3] != 0 {
        return None;
    }
    let m: u16 = bytes[i + 4] as u16 + 256 * (bytes[i + 5] as u16);
    Some(m)
}

/// The text of an executable's architecture, by its PE machine field.
pub open spec fn arch_text(m: Option<u16>) -> Seq<char> {
    match m {
        Some(0x8664u16) => "x64"@,
        Some(0x014cu16) => "x86（32 位进程约 2GB 地址空间上限）"@,
        Some(0xaa64u16) => "ARM64"@,
        Some(other) => "0x"@ + crate::ids::hex4(other as nat),
        None => "未知（非 PE 文件）"@,
    }
}

pub fn executable_arch_text(machine: Option<u16>) -> (r: String)
    ensures
        r@ == arch_text(machine),
{
    match machine {
        Some(0x8664u16) => "x64".to_string(),
        Some(0x014cu16) => "x86（32 位进程约 2GB 地址空间上限）".to_string(),
        Some(0xaa64u16) => "ARM64".to_string(),
        Some(other) => {
            let h = crate::ids::hex4_string(other);
            crate::text::concat2("0x", h.as_str())
        },
        None => "未知（非 PE 文件）".to_string(),
    }
}

/// What the watchdog does after a quiet period.
#[derive(Debug, Clone, Copy, PartialEq, Eq, Structural)]
pub enum StallAction {
    Continue,
    Warn,
    Abort,
}

/// Stop once the build has been quiet for `kill_after` seconds; warn once
/// after the warning threshold.
pub open spec fn stall_action_of(idle_secs: u64, kill_after_secs: u64, warned: bool) -> StallAction {
    if idle_secs >= kill_after_secs {
        StallAction::Abort
    } else if idle_secs >= 600 && !warned {
        StallAction::Warn
    } else {
        StallAction::Continue
    }
}

pub fn stall_action(idle_secs: u64, kill_after_secs: u64, warned: bool) -> (r: StallAction)
    ensures
        r == stall_action_of(idle_secs, kill_after_secs, warned),
{
    if idle_secs >= kill_after_secs {
        StallAction::Abort
    } else if idle_secs >= COCOS_BUILD_STALL_WARN_AFTER_SECS && !warned {
        StallAction::Warn
    } else {
        StallAction::Continue
    }
}

/// How a build that ended is judged by its exit code.
#[derive(Debug, Clone, Copy, PartialEq, Eq, Structural)]
pub enum ExitVerdict {
    Passed,
    Ignored32,
    Ignored36,
    Failed,
}

/// A build passes when it succeeded; codes 32 and 36 are ignored; any other
/// code fails it.
pub open spec fn exit_verdict_of(success: bool, code: i32) -> ExitVerdict {
    if !success && code != 32 && code != 36 {
        ExitVerdict::Failed
    } else if code == 36 {
        ExitVerdict::Ignored36
    } else if code == 32 {
        ExitVerdict::Ignored32
    } else {
        ExitVerdict::Passed
    }
}

pub fn exit_verdict(success: bool, code: i32) -> (r: ExitVerdict)
    ensures
        r == exit_verdict_of(success, code),
{
    if !success && code != 32 && code != 36 {
        ExitVerdict::Failed
    } else if code == 36 {
        ExitVerdict::Ignored36
    } else if code == 32 {
        ExitVerdict::Ignored32
    } else {
        ExitVerdict::Passed
    }
}

/// The systems the server runs on, as far as finding Cocos Creator goes.
#[derive(Debug, Clone, Copy, PartialEq, Eq, Structural)]
pub enum HostOs {
    MacOs,
    Windows,
    Other,
}

/// The executable of an engine: inside a macOS `.app` bundle, the
/// `CocosCreator.exe` of a Windows directory, or the path itself.
pub open spec fn creator_candidate(engine: Seq<char>, os: HostOs, engine_is_dir: bool) -> Seq<char> {
    match os {
        HostOs::MacOs => if crate::web::extension_of(engine) == Some("app"@) {
            join_text(join_text(join_text(engine, "Contents"@), "MacOS"@), "CocosCreator"@)
        } else {
            engine
        },
        HostOs::Windows => if engine_is_dir { join_text(engine, "CocosCreator.exe"@) } else { engine },
        HostOs::Other => engine,
    }
}

pub fn creator_executable_candidate(engine_path: &str, os: HostOs, engine_is_dir: bool) -> (r: String)
    ensures
        r@ == creator_candidate(engine_path@, os, engine_is_dir),
{
    match os {
        HostOs::MacOs => {
            let is_app = match crate::web::extension(engine_path) {
                Some(e) => crate::text::str_eq(e.as_str(), "app"),
                None => false,
            };
            if is_app {
                let a = join_path(engine_path, "Contents");
                let b = join_path(a.as_str(), "MacOS");
                join_path(b.as_str(), "CocosCreator")
            } else {
                copy_string(engine_path)
            }
        },
        HostOs::Windows => if engine_is_dir { join_path(engine_path, "CocosCreator.exe") } else { copy_string(engine_path) },
        HostOs::Other => copy_string(engine_path),
    }
}

/// The executable to run, when it exists.
pub fn resolve_creator_executable(candidate: String, exists: bool) -> (r: Result<String, AppError>)
    ensures
        exists ==> r == Ok::<String, AppError>(candidate),
        !exists ==> outcome(r, Some((ErrorKind::Validation, "未找到 Cocos Creator 可执行文件: "@ + candidate@))),
{
    if !exists {
        return Err(AppError::Validation(crate::text::concat2("未找到 Cocos Creator 可执行文件: ", candidate.as_str())));
    }
    Ok(candidate)
}

/// The flag that raises the V8 heap limit of the build.
pub open spec fn memory_flag() -> Seq<char> {
    "--max-old-space-size="@ + crate::text::dec(COCOS_BUILD_MAX_OLD_SPACE_MB as nat)
}

pub fn memory_flags() -> (r: String)
    ensures
        r@ == memory_flag(),
{
    let n = crate::text::u64_to_string(COCOS_BUILD_MAX_OLD_SPACE_MB as u64);
    crate::text::concat2("--max-old-space-size=", n.as_str())
}

/// The arguments of Cocos Creator for a build: the heap flags, the extra
/// flags, the project and the build configuration.
pub open spec fn build_args_spec(project: Seq<char>, config: Seq<char>, extra: Seq<Seq<char>>) -> Seq<Seq<char>> {
    seq![memory_flag(), "--js-flags="@ + memory_flag()] + extra + seq!["--project"@, project, "--build"@, "configPath="@ + config]
}

pub fn cocos_build_args(project_path: &str, config_path: &str, extra_flags: &Vec<String>) -> (r: Vec<String>)
    ensures
        views(r@) == build_args_spec(project_path@, config_path@, views(extra_flags@)),
{
    let m = memory_flags();
    let mut v: Vec<String> = Vec::new();
    v.push(copy_string(m.as_str()));
    v.push(crate::text::concat2("--js-flags=", m.as_str()));
    let mut i: usize = 0;
    while i < extra_flags.len()
        invariant
            i <= extra_flags@.len(),
            views(v@) == seq![memory_flag(), "--js-flags="@ + memory_flag()] + views(extra_flags@).take(i as int),
        decreases extra_flags.len() - i,
    {
        let ghost before = views(v@);
        v.push(copy_string(extra_flags[i].as_str()));
        assert(views(v@) =~= before.push(extra_flags@[i as int]@));
        assert(views(extra_flags@).take(i + 1) =~= views(extra_flags@).take(i as int).push(extra_flags@[i as int]@));
        i = i + 1;
    }
    assert(views(extra_flags@).take(extra_flags@.len() as int) =~= views(extra_flags@));
    let ghost mid = views(v@);
    v.push("--project".to_string());
    v.push(copy_string(project_path));
    v.push("--build".to_string());
    v.push(crate::text::concat2("configPath=", config_path));
    proof {
        reveal_strlit("--project");
        reveal_strlit("--build");
    }
    assert(views(v@) =~= build_args_spec(project_path@, config_path@, views(extra_flags@)));
    v
}

/// The log line that opens a build.
pub open spec fn build_start_text(exe: Seq<char>, project: Seq<char>, config: Seq<char>) -> Seq<char> {
    "开始调用 Cocos Creator: "@ + exe + " --project "@ + project + " --build configPath="@ + config
}

pub fn build_start_line(executable: &str, project_path: &str, config_path: &str) -> (r: String)
    ensures
        r@ == build_start_text(executable@, project_path@, config_path@),
{
    let mut s = crate::text::concat3("开始调用 Cocos Creator: ", executable, " --project ");
    push_str(&mut s, project_path);
    push_str(&mut s, " --build configPath=");
    push_str(&mut s, config_path);
    s
}

/// Why a build was stopped because its output showed a crash.
pub open spec fn crash_reason_text(keyword: Seq<char>, memory_status: Seq<char>) -> Seq<char> {
    "检测到 Cocos 构建进程崩溃信息（"@ + keyword
        + "），构建终止。Cocos 的「内存不足」提示为通用崩溃文案，真实原因见崩溃前输出。本机内存状态："@ + memory_status
}

pub fn crash_reason(keyword: &str, memory_status: &str) -> (r: String)
    ensures
        r@ == crash_reason_text(keyword@, memory_status@),
{
    crate::text::concat3(
        crate::text::concat2("检测到 Cocos 构建进程崩溃信息（", keyword).as_str(),
        "），构建终止。Cocos 的「内存不足」提示为通用崩溃文案，真实原因见崩溃前输出。本机内存状态：",
        memory_status,
    )
}

/// Why a build was stopped because it stayed quiet too long.
pub open spec fn stall_reason_text(kill_after_secs: u64, memory_status: Seq<char>) -> Seq<char> {
    "Cocos 构建超过 "@ + crate::text::dec(kill_after_secs as nat)
        + " 秒无新输出，判定进程卡死，已强制终止。可能原因：图集构建内存不足弹出对话框等待确认、构建进程崩溃。本机内存状态："@ + memory_status
}

pub fn stall_reason(kill_after_secs: u64, memory_status: &str) -> (r: String)
    ensures
        r@ == stall_reason_text(kill_after_secs, memory_status@),
{
    let n = crate::text::u64_to_string(kill_after_secs);
    crate::text::concat3(
        crate::text::concat2("Cocos 构建超过 ", n.as_str()).as_str(),
        " 秒无新输出，判定进程卡死，已强制终止。可能原因：图集构建内存不足弹出对话框等待确认、构建进程崩溃。本机内存状态：",
        memory_status,
    )
}

/// The warning logged once a build has been quiet long.
pub open spec fn stall_warning_text(idle_secs: u64, kill_after_secs: u64) -> Seq<char> {
    "Cocos 构建已超过 "@ + crate::text::dec(idle_secs as nat) + " 秒无新输出，可能卡死或崩溃，将再等待 "@
        + crate::text::dec((kill_after_secs - idle_secs) as nat) + " 秒后终止"@
}

pub fn stall_warning(idle_secs: u64, kill_after_secs: u64) -> (r: String)
    requires
        idle_secs <= kill_after_secs,
    ensures
        r@ == stall_warning_text(idle_secs, kill_after_secs),
{
    let a = crate::text::u64_to_string(idle_secs);
    let b = crate::text::u64_to_string(kill_after_secs - idle_secs);
    let mut s = crate::text::concat3("Cocos 构建已超过 ", a.as_str(), " 秒无新输出，可能卡死或崩溃，将再等待 ");
    push_str(&mut s, b.as_str());
    push_str(&mut s, " 秒后终止");
    s
}

/// The error of a build that exited with a failing code.
pub fn build_failed_error(task_name: &str, exit_code: i32, memory_status: &str) -> (e: AppError)
    ensures
        e.kind() == ErrorKind::Internal,
        e.spec_message() == "任务 "@ + task_name@ + " 构建失败，退出码: "@ + crate::text::dec_int(exit_code as int)
            + "。本机内存状态："@ + memory_status@,
{
    let code = crate::text::i64_to_string(exit_code as i64);
    let mut s = crate::text::concat3("任务 ", task_name, " 构建失败，退出码: ");
    push_str(&mut s, code.as_str());
    push_str(&mut s, "。本机内存状态：");
    push_str(&mut s, memory_status);
    AppError::Internal(s)
}

/// The error of a build that was stopped.
pub fn build_canceled_error(task_name: &str) -> (e: AppError)
    ensures
        e.kind() == ErrorKind::Canceled,
        e.spec_message() == "任务 "@ + task_name@ + " 已取消"@,
{
    AppError::Canceled(crate::text::concat3("任务 ", task_name, " 已取消"))
}

/// The line logged for an exit code that is let through.
pub fn ignored_exit_line(verdict: ExitVerdict) -> (r: Option<&'static str>)
    ensures
        verdict == ExitVerdict::Ignored36 ==> (r matches Some(s) && s@ == "Cocos Creator 返回退出码 36，按配置忽略并继续"@),
        verdict == ExitVerdict::Ignored32 ==> (r matches Some(s) && s@ == "Cocos Creator 返回退出码 32，按配置忽略并继续"@),
        verdict == ExitVerdict::Passed || verdict == ExitVerdict::Failed ==> r is None,
{
    match verdict {
        ExitVerdict::Ignored36 => Some("Cocos Creator 返回退出码 36，按配置忽略并继续"),
        ExitVerdict::Ignored32 => Some("Cocos Creator 返回退出码 32，按配置忽略并继续"),
        _ => None,
    }
}

/// The change a running build makes to its task when Cocos Creator starts:
/// the step label.
pub fn build_running_patch() -> (p: crate::state::RuntimePatch)
    ensures
        forall|log_path: Seq<char>, now: Seq<char>| p@ == #[trigger] crate::pipeline::run_step_view(crate::pipeline::RunStep::CocosRunning, log_path, now),
        p@ == (crate::state::PatchView { step_label: Some("Cocos Creator 构建中"@), ..crate::pipeline::no_change() }),
{
    crate::state::RuntimePatch {
        progress: None,
        progress_if_below: None,
        progress_step_below: None,
        step_label: Some("Cocos Creator 构建中".to_string()),
        status: None,
        last_log_path: None,
        last_error: None,
        started_at: None,
        finished_at: None,
        canceling_at_unix_secs: None,
    }
}

/// The change a finished build makes to its task: at least 95%, and the
/// label of a finished build.
pub fn build_finished_patch() -> (p: crate::state::RuntimePatch)
    ensures
        forall|log_path: Seq<char>, now: Seq<char>| p@ == #[trigger] crate::pipeline::run_step_view(crate::pipeline::RunStep::CocosFinished, log_path, now),
        p@ == (crate::state::PatchView {
            progress_if_below: Some((95u8, 95u8)),
            step_label: Some("Cocos Creator 构建完成"@),
            ..crate::pipeline::no_change()
        }),
{
    crate::state::RuntimePatch {
        progress: None,
        progress_if_below: Some((95, 95)),
        progress_step_below: None,
        step_label: Some("Cocos Creator 构建完成".to_string()),
        status: None,
        last_log_path: None,
        last_error: None,
        started_at: None,
        finished_at: None,
        canceling_at_unix_secs: None,
    }
}

} // verus!
