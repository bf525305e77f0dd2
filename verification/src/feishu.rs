//! Feishu notifications: the texts that go into the cards about a build,
//! what is reported for each robot, and how those reports are logged.

use vstd::prelude::*;
use crate::text::{chars_of, concat2, concat3, from_chars, join_strings, joined, push_str, u64_to_string, views};

verus! {

/// What sending a card to one robot gave.
#[derive(Debug, Clone, PartialEq)]
pub struct NotificationResult {
    pub bot_name: String,
    pub success: bool,
    pub detail: String,
}

/// What a failure card says about a task.
#[derive(Debug, Clone, PartialEq)]
pub struct FailedTaskNotification {
    pub task_name: String,
    pub project_name: String,
    pub branch: String,
    pub failed_at: String,
    pub error: String,
    pub log_path: Option<String>,
}

/// A task as the card at the end of a build lists it.
#[derive(Debug, Clone, PartialEq)]
pub struct FinishedTaskSummary {
    pub task_name: String,
    pub project_name: String,
    pub error: Option<String>,
}

/// A text cut to `limit` characters, with `...` after it when it was longer.
pub open spec fn truncated(text: Seq<char>, limit: nat) -> Seq<char> {
    if text.len() <= limit { text } else { text.take(limit as int) + "..."@ }
}

pub fn truncate_text(text: &str, limit: usize) -> (r: String)
    ensures
        r@ == truncated(text@, limit as nat),
{
    let cs = chars_of(text);
    if cs.len() <= limit {
        return from_chars(cs.as_slice());
    }
    let mut head: Vec<char> = Vec::new();
    let mut i: usize = 0;
    while i < limit
        invariant
            i <= limit,
            limit < cs@.len(),
            head@ == cs@.take(i as int),
        decreases limit - i,
    {
        head.push(cs[i]);
        i = i + 1;
        assert(head@ =~= cs@.take(i as int));
    }
    let t = from_chars(head.as_slice());
    concat2(t.as_str(), "...")
}

pub open spec fn bool_word(b: bool) -> Seq<char> {
    if b { "true"@ } else { "false"@ }
}

/// How one robot's report is logged.
pub open spec fn notification_line(scene: Seq<char>, r: NotificationResult) -> Seq<char> {
    scene + ": 机器人="@ + r.bot_name@ + ", success="@ + bool_word(r.success) + ", detail="@ + r.detail@
}

/// One log line for each robot's report, in order.
pub fn format_notification_logs(scene: &str, results: &Vec<NotificationResult>) -> (r: Vec<String>)
    ensures
        r@.len() == results@.len(),
        forall|i: int| 0 <= i < r@.len() ==> (#[trigger] r@[i])@ == notification_line(scene@, results@[i]),
{
    let mut out: Vec<String> = Vec::new();
    let mut i: usize = 0;
    while i < results.len()
        invariant
            i <= results@.len(),
            out@.len() == i,
            forall|k: int| 0 <= k < i ==> (#[trigger] out@[k])@ == notification_line(scene@, results@[k]),
        decreases results.len() - i,
    {
        let r = &results[i];
        let mut line = concat3(scene, ": 机器人=", r.bot_name.as_str());
        push_str(&mut line, ", success=");
        if r.success {
            push_str(&mut line, "true");
        } else {
            push_str(&mut line, "false");
        }
        push_str(&mut line, ", detail=");
        push_str(&mut line, r.detail.as_str());
        out.push(line);
        i = i + 1;
    }
    out
}

/// What is reported when no robot is configured: one skipped, successful report.
pub fn no_bot_results() -> (r: Vec<NotificationResult>)
    ensures
        r@.len() == 1,
        r@[0].bot_name@ == "无"@,
        r@[0].success,
        r@[0].detail@ == "未配置飞书机器人，已跳过通知"@,
{
    let mut v: Vec<NotificationResult> = Vec::new();
    v.push(NotificationResult {
        bot_name: "无".to_string(),
        success: true,
        detail: "未配置飞书机器人，已跳过通知".to_string(),
    });
    v
}

/// What a robot's HTTP answer is reported as: the status, and when it is
/// not a success the first 200 characters of the body.
pub open spec fn response_detail_text(status: u16, success: bool, body: Seq<char>) -> Seq<char> {
    if success {
        "HTTP "@ + crate::text::dec(status as nat)
    } else {
        "HTTP "@ + crate::text::dec(status as nat) + " "@ + truncated(body, 200)
    }
}

pub fn response_detail(status: u16, success: bool, body: &str) -> (r: String)
    ensures
        r@ == response_detail_text(status, success, body@),
{
    let code = u64_to_string(status as u64);
    let mut s = concat2("HTTP ", code.as_str());
    if !success {
        push_str(&mut s, " ");
        let t = truncate_text(body, 200);
        push_str(&mut s, t.as_str());
    }
    s
}

/// A bullet line for each task name.
pub open spec fn bullet_lines(names: Seq<Seq<char>>) -> Seq<Seq<char>> {
    names.map_values(|n: Seq<char>| "• "@ + n)
}

/// The task list of the card sent when a build starts.
pub open spec fn started_list_text(names: Seq<Seq<char>>) -> Seq<char> {
    "**任务列表**\n"@ + joined(bullet_lines(names), "\n"@)
}

pub fn started_list(task_names: &Vec<String>) -> (r: String)
    ensures
        r@ == started_list_text(views(task_names@)),
{
    let mut lines: Vec<String> = Vec::new();
    let mut i: usize = 0;
    while i < task_names.len()
        invariant
            i <= task_names@.len(),
            views(lines@) == bullet_lines(views(task_names@)).take(i as int),
        decreases task_names.len() - i,
    {
        let ghost before = lines@;
        let line = concat2("• ", task_names[i].as_str());
        lines.push(line);
        assert(views(lines@) =~= views(before).push(line@));
        assert(bullet_lines(views(task_names@)).take(i + 1) =~= bullet_lines(views(task_names@)).take(i as int).push(line@));
        i = i + 1;
    }
    assert(bullet_lines(views(task_names@)).take(task_names@.len() as int) =~= bullet_lines(views(task_names@)));
    let body = join_strings(&lines, "\n");
    concat2("**任务列表**\n", body.as_str())
}

/// How a succeeded task is listed.
pub open spec fn success_line(t: FinishedTaskSummary) -> Seq<char> {
    "• "@ + t.project_name@ + " / "@ + t.task_name@
}

/// How a failed task is listed: with the first 120 characters of its error.
pub open spec fn failure_line(t: FinishedTaskSummary) -> Seq<char> {
    let summary = match t.error { Some(e) => e@, None => "无错误信息"@ };
    "• "@ + t.project_name@ + " / "@ + t.task_name@ + "："@ + truncated(summary, 120)
}

/// The lines of a list, or `无` for an empty one.
pub open spec fn list_or_none(lines: Seq<Seq<char>>) -> Seq<char> {
    if lines.len() == 0 { "无"@ } else { joined(lines, "\n"@) }
}

/// The list of succeeded tasks on the card sent when a build ends.
pub fn success_list(tasks: &Vec<FinishedTaskSummary>) -> (r: String)
    ensures
        r@ == list_or_none(tasks@.map_values(|t: FinishedTaskSummary| success_line(t))),
{
    let ghost want = tasks@.map_values(|t: FinishedTaskSummary| success_line(t));
    let mut lines: Vec<String> = Vec::new();
    let mut i: usize = 0;
    while i < tasks.len()
        invariant
            i <= tasks@.len(),
            want == tasks@.map_values(|t: FinishedTaskSummary| success_line(t)),
            views(lines@) == want.take(i as int),
        decreases tasks.len() - i,
    {
        let t = &tasks[i];
        let mut line = concat3("• ", t.project_name.as_str(), " / ");
        push_str(&mut line, t.task_name.as_str());
        let ghost before = lines@;
        lines.push(line);
        assert(views(lines@) =~= views(before).push(line@));
        assert(want.take(i + 1) =~= want.take(i as int).push(line@));
        i = i + 1;
    }
    assert(want.take(tasks@.len() as int) =~= want);
    if tasks.len() == 0 {
        return "无".to_string();
    }
    join_strings(&lines, "\n")
}

/// The list of failed tasks on the card sent when a build ends.
pub fn failure_list(tasks: &Vec<FinishedTaskSummary>) -> (r: String)
    ensures
        r@ == list_or_none(tasks@.map_values(|t: FinishedTaskSummary| failure_line(t))),
{
    let ghost want = tasks@.map_values(|t: FinishedTaskSummary| failure_line(t));
    let mut lines: Vec<String> = Vec::new();
    let mut i: usize = 0;
    while i < tasks.len()
        invariant
            i <= tasks@.len(),
            want == tasks@.map_values(|t: FinishedTaskSummary| failure_line(t)),
            views(lines@) == want.take(i as int),
        decreases tasks.len() - i,
    {
        let t = &tasks[i];
        let summary = match &t.error {
            Some(e) => truncate_text(e.as_str(), 120),
            None => truncate_text("无错误信息", 120),
        };
        let mut line = concat3("• ", t.project_name.as_str(), " / ");
        push_str(&mut line, t.task_name.as_str());
        push_str(&mut line, "：");
        push_str(&mut line, summary.as_str());
        let ghost before = lines@;
        lines.push(line);
        assert(views(lines@) =~= views(before).push(line@));
        assert(want.take(i + 1) =~= want.take(i as int).push(line@));
        i = i + 1;
    }
    assert(want.take(tasks@.len() as int) =~= want);
    if tasks.len() == 0 {
        return "无".to_string();
    }
    join_strings(&lines, "\n")
}

/// The error summary of a failure card: the first 400 characters.
pub fn error_summary(n: &FailedTaskNotification) -> (r: String)
    ensures
        r@ == "**错误摘要**\n"@ + truncated(n.error@, 400),
{
    let t = truncate_text(n.error.as_str(), 400);
    concat2("**错误摘要**\n", t.as_str())
}

/// The log path of a failure card, or `无`.
pub fn log_path_text(n: &FailedTaskNotification) -> (r: String)
    ensures
        r@ == "**日志路径**\n"@ + match n.log_path { Some(p) => p@, None => "无"@ },
{
    match &n.log_path {
        Some(p) => concat2("**日志路径**\n", p.as_str()),
        None => concat2("**日志路径**\n", "无"),
    }
}

/// The colour of the card sent when a build ends: green when nothing failed.
pub fn finished_header_template(failed_count: usize) -> (r: &'static str)
    ensures
        failed_count == 0 ==> r@ == "green"@,
        failed_count != 0 ==> r@ == "orange"@,
{
    if failed_count == 0 { "green" } else { "orange" }
}


/// On the card that ends a build, a failed task with an error is listed
/// with that error (its first 120 characters, `...` after a longer one);
/// `无错误信息` stands only for a task without one. A list of one task is
/// that task's line.
pub proof fn law_failure_lines_carry_errors(tasks: Seq<FinishedTaskSummary>, i: int)
    requires
        0 <= i < tasks.len(),
    ensures
        tasks[i].error matches Some(e) ==> tasks.map_values(|t: FinishedTaskSummary| failure_line(t))[i]
            == "• "@ + tasks[i].project_name@ + " / "@ + tasks[i].task_name@ + "："@ + (if e@.len() <= 120 { e@ } else { e@.take(120) + "..."@ }),
        tasks[i].error is None ==> tasks.map_values(|t: FinishedTaskSummary| failure_line(t))[i]
            == "• "@ + tasks[i].project_name@ + " / "@ + tasks[i].task_name@ + "："@ + "无错误信息"@,
        tasks.len() == 1 ==> list_or_none(tasks.map_values(|t: FinishedTaskSummary| failure_line(t))) == failure_line(tasks[0]),
{
    reveal_strlit("无错误信息");
}

} // verus!
