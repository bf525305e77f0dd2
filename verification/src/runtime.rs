//! The run-time part of tasks (progress, status, log, times), kept apart
//! from the settings that are written to disk, and merged back for display.

use vstd::prelude::*;
use crate::models::{AppSettings, GitConfig, PackageTask, PackageTaskRuntime, PackageTaskStatus, RuntimeState};
use crate::copies::dup_string_opt;
use crate::preps::{strip_lead_us, strip_trail_us};
use crate::params::is_ascii_alnum;
use crate::text::{ascii_lower, chars_of, copy_string, str_eq, to_ascii_lower_char, views};

verus! {

/// A task with its run-time fields reset.
pub open spec fn strip_task(t: PackageTask) -> PackageTask {
    PackageTask {
        progress: 0,
        status: PackageTaskStatus::Pending,
        last_log_path: None,
        last_error: None,
        started_at: None,
        finished_at: None,
        ..t
    }
}

/// Resets the run-time fields of a task, keeping the rest.
pub fn strip_runtime_from_task(task: PackageTask) -> (r: PackageTask)
    ensures
        r == strip_task(task),
{
    let mut task = task;
    task.progress = 0;
    task.status = PackageTaskStatus::Pending;
    task.last_log_path = None;
    task.last_error = None;
    task.started_at = None;
    task.finished_at = None;
    task
}

/// `r` is `s` as written to disk: no credentials, and no run-time fields
/// in its tasks.
pub open spec fn settings_stripped(s: AppSettings, r: AppSettings) -> bool {
    &&& r.engines == s.engines
    &&& r.projects == s.projects
    &&& r.feishu_bots == s.feishu_bots
    &&& r.task_groups == s.task_groups
    &&& r.param_definitions == s.param_definitions
    &&& r.git_config.username@.len() == 0
    &&& r.git_config.password@.len() == 0
    &&& r.package_tasks@ == s.package_tasks@.map_values(|t: PackageTask| strip_task(t))
}

/// Settings as they are written to disk: no credentials, no run-time fields.
pub fn strip_runtime_from_settings(settings: AppSettings) -> (r: AppSettings)
    ensures
        settings_stripped(settings, r),
{
    let mut settings = settings;
    let mut tasks: Vec<PackageTask> = Vec::new();
    std::mem::swap(&mut tasks, &mut settings.package_tasks);
    let ghost all = tasks@;
    let total = tasks.len();
    let mut out: Vec<PackageTask> = Vec::new();
    let mut k: usize = 0;
    while tasks.len() > 0
        invariant
            k + tasks@.len() == all.len(),
            all.len() == total,
            tasks@ == all.skip(k as int),
            out@ == all.take(k as int).map_values(|t: PackageTask| strip_task(t)),
        decreases tasks@.len(),
    {
        let t = tasks.remove(0);
        out.push(strip_runtime_from_task(t));
        k = k + 1;
        assert(tasks@ =~= all.skip(k as int));
        assert(out@ =~= all.take(k as int).map_values(|t: PackageTask| strip_task(t)));
    }
    assert(all.take(all.len() as int) =~= all);
    settings.package_tasks = out;
    settings.git_config = GitConfig { username: String::new(), password: String::new() };
    settings
}

/// `r` is the run-time entry that task `t` starts from.
pub open spec fn runtime_from_task(t: PackageTask, r: PackageTaskRuntime) -> bool {
    &&& r.task_id == t.id
    &&& r.progress == t.progress
    &&& r.step_label@.len() == 0
    &&& r.status == t.status
    &&& r.last_log_path == t.last_log_path
    &&& r.last_error == t.last_error
    &&& r.started_at == t.started_at
    &&& r.finished_at == t.finished_at
    &&& r.canceling_at_unix_secs is None
}

pub fn task_runtime_from_task(task: &PackageTask) -> (r: PackageTaskRuntime)
    ensures
        runtime_from_task(*task, r),
{
    PackageTaskRuntime {
        task_id: task.id.clone(),
        progress: task.progress,
        step_label: String::new(),
        status: task.status,
        last_log_path: dup_string_opt(&task.last_log_path),
        last_error: dup_string_opt(&task.last_error),
        started_at: dup_string_opt(&task.started_at),
        finished_at: dup_string_opt(&task.finished_at),
        canceling_at_unix_secs: None,
    }
}

/// The run-time state that settings carry in their tasks, one entry per task.
pub fn extract_runtime_state(settings: &AppSettings) -> (r: RuntimeState)
    ensures
        r.package_tasks@.len() == settings.package_tasks@.len(),
        forall|i: int| 0 <= i < r.package_tasks@.len() ==> runtime_from_task(settings.package_tasks@[i], #[trigger] r.package_tasks@[i]),
{
    let mut out: Vec<PackageTaskRuntime> = Vec::new();
    let mut i: usize = 0;
    while i < settings.package_tasks.len()
        invariant
            i <= settings.package_tasks@.len(),
            out@.len() == i,
            forall|j: int| 0 <= j < i ==> runtime_from_task(settings.package_tasks@[j], #[trigger] out@[j]),
        decreases settings.package_tasks.len() - i,
    {
        out.push(task_runtime_from_task(&settings.package_tasks[i]));
        i = i + 1;
    }
    RuntimeState { package_tasks: out }
}

/// The last entry for a task id (later entries win, as in a map built from the list).
pub open spec fn last_runtime_for(rt: Seq<PackageTaskRuntime>, id: Seq<char>) -> Option<PackageTaskRuntime>
    decreases rt.len(),
{
    if rt.len() == 0 {
        None
    } else if rt.last().task_id@ == id {
        Some(rt.last())
    } else {
        last_runtime_for(rt.drop_last(), id)
    }
}

/// A task with the run-time fields of an entry.
pub open spec fn with_runtime(t: PackageTask, r: PackageTaskRuntime) -> PackageTask {
    PackageTask {
        progress: r.progress,
        status: r.status,
        last_log_path: r.last_log_path,
        last_error: r.last_error,
        started_at: r.started_at,
        finished_at: r.finished_at,
        ..t
    }
}

/// A task as it shows with the run-time state: its entry's fields when it has one.
pub open spec fn merged_task(t: PackageTask, rt: Seq<PackageTaskRuntime>) -> PackageTask {
    match last_runtime_for(rt, t.id@) {
        Some(r) => with_runtime(t, r),
        None => t,
    }
}

/// Index of the last entry for `id`, if any.
fn last_runtime_index(rt: &Vec<PackageTaskRuntime>, id: &str) -> (r: Option<usize>)
    ensures
        match last_runtime_for(rt@, id@) {
            Some(e) => r matches Some(i) && i < rt@.len() && rt@[i as int] == e,
            None => r is None,
        },
{
    let mut i: usize = rt.len();
    assert(rt@.take(i as int) =~= rt@);
    while i > 0
        invariant
            i <= rt@.len(),
            last_runtime_for(rt@, id@) == last_runtime_for(rt@.take(i as int), id@),
        decreases i,
    {
        let ghost pre = rt@.take(i as int);
        assert(pre.drop_last() =~= rt@.take(i - 1));
        if str_eq(rt[i - 1].task_id.as_str(), id) {
            return Some(i - 1);
        }
        i = i - 1;
    }
    None
}

/// Settings with each task showing its run-time entry.
pub fn apply_runtime_state(settings: AppSettings, runtime_state: &RuntimeState) -> (r: AppSettings)
    ensures
        r.engines == settings.engines,
        r.projects == settings.projects,
        r.git_config == settings.git_config,
        r.feishu_bots == settings.feishu_bots,
        r.task_groups == settings.task_groups,
        r.param_definitions == settings.param_definitions,
        r.package_tasks@ == settings.package_tasks@.map_values(|t: PackageTask| merged_task(t, runtime_state.package_tasks@)),
{
    let ghost rt = runtime_state.package_tasks@;
    let mut settings = settings;
    let mut tasks: Vec<PackageTask> = Vec::new();
    std::mem::swap(&mut tasks, &mut settings.package_tasks);
    let ghost all = tasks@;
    let total = tasks.len();
    let mut out: Vec<PackageTask> = Vec::new();
    let mut k: usize = 0;
    while tasks.len() > 0
        invariant
            k + tasks@.len() == all.len(),
            all.len() == total,
            tasks@ == all.skip(k as int),
            rt == runtime_state.package_tasks@,
            out@ == all.take(k as int).map_values(|t: PackageTask| merged_task(t, rt)),
        decreases tasks@.len(),
    {
        let mut t = tasks.remove(0);
        let ghost t0 = t;
        match last_runtime_index(&runtime_state.package_tasks, t.id.as_str()) {
            Some(i) => {
                let e = &runtime_state.package_tasks[i];
                t.progress = e.progress;
                t.status = e.status;
                t.last_log_path = dup_string_opt(&e.last_log_path);
                t.last_error = dup_string_opt(&e.last_error);
                t.started_at = dup_string_opt(&e.started_at);
                t.finished_at = dup_string_opt(&e.finished_at);
            },
            None => {},
        }
        assert(t == merged_task(t0, rt));
        out.push(t);
        k = k + 1;
        assert(tasks@ =~= all.skip(k as int));
        assert(out@ =~= all.take(k as int).map_values(|t: PackageTask| merged_task(t, rt)));
    }
    assert(all.take(all.len() as int) =~= all);
    settings.package_tasks = out;
    settings
}

/// Whether a status is that of a build under way.
pub open spec fn is_active_status(s: PackageTaskStatus) -> bool {
    s == PackageTaskStatus::Running || s == PackageTaskStatus::Canceling
}

/// The entry a task carries after a restart, when no run-time state was read:
/// its own run-time fields, with a build it had under way marked failed.
pub open spec fn restarted_task_entry(t: PackageTask, finished_at: Seq<char>, r: PackageTaskRuntime) -> bool {
    &&& r.task_id == t.id
    &&& r.progress == t.progress
    &&& r.step_label@.len() == 0
    &&& r.last_log_path == t.last_log_path
    &&& r.started_at == t.started_at
    &&& r.canceling_at_unix_secs is None
    &&& if is_active_status(t.status) {
        &&& r.status == PackageTaskStatus::Failed
        &&& r.last_error matches Some(m) && m@ == "后端已重启，上一次打包被中断"@
        &&& r.finished_at matches Some(f) && f@ == finished_at
    } else {
        &&& r.status == t.status
        &&& r.last_error == t.last_error
        &&& r.finished_at == t.finished_at
    }
}

/// An entry after a restart: a build under way is marked failed with the
/// restart message and the given finish time; other entries are kept.
pub open spec fn restarted_entry(e: PackageTaskRuntime, finished_at: Seq<char>, r: PackageTaskRuntime) -> bool {
    if is_active_status(e.status) {
        &&& r.task_id == e.task_id
        &&& r.progress == e.progress
        &&& r.step_label == e.step_label
        &&& r.status == PackageTaskStatus::Failed
        &&& r.last_log_path == e.last_log_path
        &&& r.last_error matches Some(m) && m@ == "后端已重启，上一次打包被中断"@
        &&& r.started_at == e.started_at
        &&& r.finished_at matches Some(f) && f@ == finished_at
        &&& r.canceling_at_unix_secs == e.canceling_at_unix_secs
    } else {
        r == e
    }
}

/// After a restart no build is under way: entries left running or stopping
/// are marked failed. Returns whether any entry changed.
pub fn normalize_runtime_state_on_startup(runtime_state: RuntimeState, finished_at: &str) -> (r: (RuntimeState, bool))
    ensures
        r.0.package_tasks@.len() == runtime_state.package_tasks@.len(),
        forall|i: int| 0 <= i < r.0.package_tasks@.len() ==> restarted_entry(runtime_state.package_tasks@[i], finished_at@, #[trigger] r.0.package_tasks@[i]),
        r.1 == exists|i: int| 0 <= i < runtime_state.package_tasks@.len() && is_active_status(#[trigger] runtime_state.package_tasks@[i].status),
{
    let mut entries = runtime_state.package_tasks;
    let ghost orig = entries@;
    let mut changed = false;
    let mut i: usize = 0;
    while i < entries.len()
        invariant
            i <= entries@.len(),
            entries@.len() == orig.len(),
            forall|j: int| 0 <= j < i ==> restarted_entry(orig[j], finished_at@, #[trigger] entries@[j]),
            forall|j: int| i <= j < entries@.len() ==> #[trigger] entries@[j] == orig[j],
            changed == exists|j: int| 0 <= j < i && is_active_status(#[trigger] orig[j].status),
        decreases entries.len() - i,
    {
        let st = entries[i].status;
        if st == PackageTaskStatus::Running || st == PackageTaskStatus::Canceling {
            let mut e = entries[i].dup();
            e.status = PackageTaskStatus::Failed;
            e.last_error = Some("后端已重启，上一次打包被中断".to_string());
            e.finished_at = Some(copy_string(finished_at));
            entries.set(i, e);
            changed = true;
        }
        i = i + 1;
    }
    (RuntimeState { package_tasks: entries }, changed)
}

/// Whether a task with this id is in the settings.
pub open spec fn has_task(tasks: Seq<PackageTask>, id: Seq<char>) -> bool {
    exists|i: int| 0 <= i < tasks.len() && #[trigger] tasks[i].id@ == id
}

/// The entries whose task is still in the list, in order.
pub open spec fn entries_for_tasks(rt: Seq<PackageTaskRuntime>, tasks: Seq<PackageTask>) -> Seq<PackageTaskRuntime>
    decreases rt.len(),
{
    if rt.len() == 0 {
        Seq::empty()
    } else {
        let prev = entries_for_tasks(rt.drop_last(), tasks);
        if has_task(tasks, rt.last().task_id@) { prev.push(rt.last()) } else { prev }
    }
}

/// Position of the task with this id, if any.
pub fn find_task_index(tasks: &Vec<PackageTask>, id: &str) -> (r: Option<usize>)
    ensures
        r is Some <==> has_task(tasks@, id@),
        r matches Some(i) ==> i < tasks@.len() && tasks@[i as int].id@ == id@
            && forall|j: int| 0 <= j < i ==> tasks@[j].id@ != id@,
{
    let mut i: usize = 0;
    while i < tasks.len()
        invariant
            i <= tasks@.len(),
            forall|j: int| 0 <= j < i ==> tasks@[j].id@ != id@,
        decreases tasks.len() - i,
    {
        if str_eq(tasks[i].id.as_str(), id) {
            return Some(i);
        }
        i = i + 1;
    }
    assert(!has_task(tasks@, id@)) by {
        if has_task(tasks@, id@) {
            let j = choose|j: int| 0 <= j < tasks@.len() && #[trigger] tasks@[j].id@ == id@;
            assert(tasks@[j].id@ != id@);
        }
    }
    None
}

/// Keeps the entries whose task is in the list, in order.
pub fn retain_entries_for_tasks(entries: &mut Vec<PackageTaskRuntime>, tasks: &Vec<PackageTask>)
    ensures
        final(entries)@ == entries_for_tasks(old(entries)@, tasks@),
{
    let ghost orig = entries@;
    let mut kept: Vec<PackageTaskRuntime> = Vec::new();
    let mut rest: Vec<PackageTaskRuntime> = Vec::new();
    std::mem::swap(&mut rest, entries);
    let total = rest.len();
    let mut k: usize = 0;
    assert(orig.take(0) =~= Seq::<PackageTaskRuntime>::empty());
    while rest.len() > 0
        invariant
            k + rest@.len() == orig.len(),
            orig.len() == total,
            rest@ == orig.skip(k as int),
            kept@ == entries_for_tasks(orig.take(k as int), tasks@),
        decreases rest@.len(),
    {
        let e = rest.remove(0);
        assert(orig.take(k + 1).drop_last() =~= orig.take(k as int));
        assert(orig.take(k + 1).last() == e);
        if find_task_index(tasks, e.task_id.as_str()).is_some() {
            kept.push(e);
        }
        k = k + 1;
        assert(rest@ =~= orig.skip(k as int));
    }
    assert(orig.take(orig.len() as int) =~= orig);
    *entries = kept;
}

/// The run-time state restricted to the tasks of the settings.
pub fn filter_runtime_state_for_settings(settings: &AppSettings, runtime_state: RuntimeState) -> (r: RuntimeState)
    ensures
        r.package_tasks@ == entries_for_tasks(runtime_state.package_tasks@, settings.package_tasks@),
{
    let mut entries = runtime_state.package_tasks;
    retain_entries_for_tasks(&mut entries, &settings.package_tasks);
    RuntimeState { package_tasks: entries }
}

/// A name usable in a file name: ASCII letters and digits lower-cased, every
/// run of other characters one `_`, `_` trimmed from both ends; `workspace`
/// when nothing is left.
pub open spec fn slug_raw(s: Seq<char>) -> Seq<char>
    decreases s.len(),
{
    if s.len() == 0 {
        Seq::empty()
    } else {
        let p = slug_raw(s.drop_last());
        let c = s.last();
        if is_ascii_alnum(c) {
            p.push(ascii_lower(c))
        } else if p.len() > 0 && p.last() == '_' {
            p
        } else {
            p.push('_')
        }
    }
}

pub open spec fn slug(s: Seq<char>) -> Seq<char> {
    let t = strip_trail_us(strip_lead_us(slug_raw(s)));
    if t.len() == 0 { "workspace"@ } else { t }
}

pub fn slugify(input: &str) -> (r: String)
    ensures
        r@ == slug(input@),
{
    let cs = chars_of(input);
    let mut raw: Vec<char> = Vec::new();
    let mut last_was_underscore = false;
    let mut i: usize = 0;
    assert(input@.take(0) =~= Seq::<char>::empty());
    while i < cs.len()
        invariant
            i <= cs.len(),
            cs@ == input@,
            raw@ == slug_raw(input@.take(i as int)),
            last_was_underscore == (raw@.len() > 0 && raw@.last() == '_'),
        decreases cs.len() - i,
    {
        assert(input@.take(i + 1).drop_last() =~= input@.take(i as int));
        let c = cs[i];
        if ('a' <= c && c <= 'z') || ('A' <= c && c <= 'Z') || ('0' <= c && c <= '9') {
            raw.push(to_ascii_lower_char(c));
            last_was_underscore = false;
        } else if !last_was_underscore {
            raw.push('_');
            last_was_underscore = true;
        }
        i = i + 1;
    }
    assert(input@.take(cs.len() as int) =~= input@);
    let trimmed = crate::preps::trim_underscores(&raw);
    if trimmed.len() == 0 {
        proof { reveal_strlit("workspace"); }
        "workspace".to_string()
    } else {
        crate::text::from_chars(trimmed.as_slice())
    }
}


/// Showing a task with its run-time entry never changes what is written to
/// disk for it.
pub proof fn law_strip_after_merge(t: PackageTask, rt: Seq<PackageTaskRuntime>)
    ensures
        strip_task(merged_task(t, rt)) == strip_task(t),
{
}

/// No entry is left under way after a restart.
pub proof fn law_restart_leaves_no_build(e: PackageTaskRuntime, finished_at: Seq<char>, r: PackageTaskRuntime)
    requires
        restarted_entry(e, finished_at, r),
    ensures
        !is_active_status(r.status),
{
}

/// The last entry for an id among entries that follow distinct tasks one for one.
proof fn lemma_last_runtime_unique(tasks: Seq<PackageTask>, rt: Seq<PackageTaskRuntime>, i: int)
    requires
        rt.len() == tasks.len(),
        0 <= i < tasks.len(),
        forall|a: int, b: int| 0 <= a < b < tasks.len() ==> tasks[a].id@ != tasks[b].id@,
        forall|j: int| 0 <= j < rt.len() ==> runtime_from_task(tasks[j], #[trigger] rt[j]),
    ensures
        last_runtime_for(rt, tasks[i].id@) == Some(rt[i]),
    decreases rt.len(),
{
    if i < rt.len() - 1 {
        let n = rt.len() - 1;
        assert(rt.last().task_id@ == tasks[n].id@);
        lemma_last_runtime_unique(tasks.drop_last(), rt.drop_last(), i);
        assert(rt.drop_last()[i] == rt[i]);
    }
}

/// Splitting settings into what is written to disk and the run-time entries,
/// then showing them together, gives the tasks back, when task ids are distinct.
pub proof fn law_split_then_merge(tasks: Seq<PackageTask>, rt: Seq<PackageTaskRuntime>, i: int)
    requires
        0 <= i < tasks.len(),
        rt.len() == tasks.len(),
        forall|a: int, b: int| 0 <= a < b < tasks.len() ==> tasks[a].id@ != tasks[b].id@,
        forall|j: int| 0 <= j < rt.len() ==> runtime_from_task(tasks[j], #[trigger] rt[j]),
    ensures
        merged_task(strip_task(tasks[i]), rt) == tasks[i],
{
    lemma_last_runtime_unique(tasks, rt, i);
}

/// Keeping the entries of listed tasks keeps exactly those, in order.
pub proof fn law_retained_entries(rt: Seq<PackageTaskRuntime>, tasks: Seq<PackageTask>, e: PackageTaskRuntime)
    ensures
        entries_for_tasks(rt, tasks).contains(e) <==> (rt.contains(e) && has_task(tasks, e.task_id@)),
    decreases rt.len(),
{
    if rt.len() > 0 {
        law_retained_entries(rt.drop_last(), tasks, e);
        let prev = entries_for_tasks(rt.drop_last(), tasks);
        if rt.contains(e) && !rt.drop_last().contains(e) {
            let k = choose|k: int| 0 <= k < rt.len() && rt[k] == e;
            if k < rt.len() - 1 {
                assert(rt.drop_last()[k] == e);
            }
        }
        if rt.drop_last().contains(e) {
            let k = choose|k: int| 0 <= k < rt.drop_last().len() && rt.drop_last()[k] == e;
            assert(rt[k] == e);
        }
        if has_task(tasks, rt.last().task_id@) {
            let cur = prev.push(rt.last());
            if prev.contains(e) {
                let k = choose|k: int| 0 <= k < prev.len() && prev[k] == e;
                assert(cur[k] == e);
            }
            if e == rt.last() {
                assert(cur[cur.len() - 1] == e);
            }
            if cur.contains(e) {
                let k = choose|k: int| 0 <= k < cur.len() && cur[k] == e;
                if k < prev.len() {
                    assert(prev[k] == e);
                }
            }
        }
    }
}


/// Which entries are kept depends on the tasks' ids alone.
pub proof fn lemma_entries_same_ids(rt: Seq<PackageTaskRuntime>, a: Seq<PackageTask>, b: Seq<PackageTask>)
    requires
        a.len() == b.len(),
        forall|i: int| 0 <= i < a.len() ==> #[trigger] a[i].id@ == b[i].id@,
    ensures
        entries_for_tasks(rt, a) == entries_for_tasks(rt, b),
    decreases rt.len(),
{
    if rt.len() > 0 {
        lemma_entries_same_ids(rt.drop_last(), a, b);
        let id = rt.last().task_id@;
        if has_task(a, id) {
            let k = choose|k: int| 0 <= k < a.len() && #[trigger] a[k].id@ == id;
            assert(b[k].id@ == id);
        }
        if has_task(b, id) {
            let k = choose|k: int| 0 <= k < b.len() && #[trigger] b[k].id@ == id;
            assert(a[k].id@ == id);
        }
    }
}

/// For a listed task, the entry it is shown with is the same before and
/// after the entries of unlisted tasks are dropped.
pub proof fn lemma_last_runtime_kept(rt: Seq<PackageTaskRuntime>, tasks: Seq<PackageTask>, id: Seq<char>)
    requires
        has_task(tasks, id),
    ensures
        last_runtime_for(entries_for_tasks(rt, tasks), id) == last_runtime_for(rt, id),
    decreases rt.len(),
{
    if rt.len() > 0 {
        lemma_last_runtime_kept(rt.drop_last(), tasks, id);
        let prev = entries_for_tasks(rt.drop_last(), tasks);
        if has_task(tasks, rt.last().task_id@) {
            assert(prev.push(rt.last()).drop_last() =~= prev);
        }
    }
}

/// A character a slug is made of: a lower-case ASCII letter, a digit or `_`.
pub open spec fn is_slug_char(c: char) -> bool {
    ('a' <= c && c <= 'z') || ('0' <= c && c <= '9') || c == '_'
}

/// Slug characters only, with no two `_` side by side.
pub open spec fn slug_shaped(t: Seq<char>) -> bool {
    &&& forall|i: int| 0 <= i < t.len() ==> is_slug_char(#[trigger] t[i])
    &&& forall|i: int| 0 <= i < t.len() - 1 && t[i] == '_' ==> #[trigger] t[i + 1] != '_'
}

proof fn lemma_slug_raw_shaped(s: Seq<char>)
    ensures
        slug_shaped(slug_raw(s)),
    decreases s.len(),
{
    if s.len() > 0 {
        lemma_slug_raw_shaped(s.drop_last());
        let p = slug_raw(s.drop_last());
        let c = s.last();
        let r = slug_raw(s);
        if is_ascii_alnum(c) {
            let l = ascii_lower(c);
            assert(is_slug_char(l)) by {
                if 'A' <= c && c <= 'Z' {
                    assert(('a' as u32) <= (c as u32) + 32 <= ('z' as u32));
                }
            }
            assert(r == p.push(l));
        } else if p.len() > 0 && p.last() == '_' {
        } else {
            assert(r == p.push('_'));
        }
        assert forall|i: int| 0 <= i < r.len() implies is_slug_char(#[trigger] r[i]) by {
            if i < p.len() { assert(r[i] == p[i]); }
        }
        assert forall|i: int| 0 <= i < r.len() - 1 && r[i] == '_' implies #[trigger] r[i + 1] != '_' by {
            if i + 1 < p.len() {
                assert(r[i] == p[i]);
                assert(r[i + 1] == p[i + 1]);
            }
        }
    }
}

proof fn lemma_slug_raw_of_shaped(t: Seq<char>)
    requires
        slug_shaped(t),
    ensures
        slug_raw(t) == t,
    decreases t.len(),
{
    if t.len() > 0 {
        let d = t.drop_last();
        assert forall|i: int| 0 <= i < d.len() implies is_slug_char(#[trigger] d[i]) by {
            assert(d[i] == t[i]);
        }
        assert forall|i: int| 0 <= i < d.len() - 1 && d[i] == '_' implies #[trigger] d[i + 1] != '_' by {
            assert(d[i] == t[i]);
            assert(d[i + 1] == t[i + 1]);
        }
        lemma_slug_raw_of_shaped(d);
        let c = t.last();
        assert(is_slug_char(t[t.len() - 1]));
        if c == '_' {
            if d.len() > 0 {
                assert(t[d.len() - 1] == d.last());
                assert(t[(d.len() - 1) + 1] == c);
            }
        }
        assert(d.push(c) =~= t);
    }
}

proof fn lemma_strip_lead_suffix(s: Seq<char>)
    ensures
        exists|k: int| 0 <= k <= s.len() && #[trigger] s.subrange(k, s.len() as int) == strip_lead_us(s),
        strip_lead_us(s).len() > 0 ==> strip_lead_us(s)[0] != '_',
    decreases s.len(),
{
    if s.len() > 0 && s[0] == '_' {
        lemma_strip_lead_suffix(s.drop_first());
        let d = s.drop_first();
        let k = choose|k: int| 0 <= k <= d.len() && #[trigger] d.subrange(k, d.len() as int) == strip_lead_us(d);
        assert(s.subrange(k + 1, s.len() as int) =~= d.subrange(k, d.len() as int));
    } else {
        assert(s.subrange(0, s.len() as int) =~= s);
    }
}

proof fn lemma_strip_trail_prefix(s: Seq<char>)
    ensures
        exists|k: int| 0 <= k <= s.len() && #[trigger] s.subrange(0, k) == strip_trail_us(s),
        strip_trail_us(s).len() > 0 ==> strip_trail_us(s).last() != '_',
    decreases s.len(),
{
    if s.len() > 0 && s.last() == '_' {
        lemma_strip_trail_prefix(s.drop_last());
        let d = s.drop_last();
        let k = choose|k: int| 0 <= k <= d.len() && #[trigger] d.subrange(0, k) == strip_trail_us(d);
        assert(s.subrange(0, k) =~= d.subrange(0, k));
    } else {
        assert(s.subrange(0, s.len() as int) =~= s);
    }
}

proof fn lemma_shaped_subrange(t: Seq<char>, a: int, b: int)
    requires
        slug_shaped(t),
        0 <= a <= b <= t.len(),
    ensures
        slug_shaped(t.subrange(a, b)),
{
    let u = t.subrange(a, b);
    assert forall|i: int| 0 <= i < u.len() implies is_slug_char(#[trigger] u[i]) by {
        assert(u[i] == t[a + i]);
    }
    assert forall|i: int| 0 <= i < u.len() - 1 && u[i] == '_' implies #[trigger] u[i + 1] != '_' by {
        assert(u[i] == t[a + i]);
        assert(u[i + 1] == t[(a + i) + 1]);
    }
}

/// What `slug` gives is slug-shaped, not empty, and neither starts nor ends with `_`.
proof fn lemma_slug_shape(s: Seq<char>)
    ensures
        slug_shaped(slug(s)),
        slug(s).len() > 0,
        slug(s)[0] != '_',
        slug(s).last() != '_',
{
    reveal_strlit("workspace");
    let raw = slug_raw(s);
    lemma_slug_raw_shaped(s);
    let a = strip_lead_us(raw);
    lemma_strip_lead_suffix(raw);
    let k = choose|k: int| 0 <= k <= raw.len() && #[trigger] raw.subrange(k, raw.len() as int) == a;
    lemma_shaped_subrange(raw, k, raw.len() as int);
    let t = strip_trail_us(a);
    lemma_strip_trail_prefix(a);
    let j = choose|j: int| 0 <= j <= a.len() && #[trigger] a.subrange(0, j) == t;
    lemma_shaped_subrange(a, 0, j);
    if t.len() > 0 {
        assert(t[0] == a[0]);
    } else {
        let w = "workspace"@;
        assert(slug(s) == w);
        assert forall|i: int| 0 <= i < w.len() implies is_slug_char(#[trigger] w[i]) by {}
        assert forall|i: int| 0 <= i < w.len() - 1 && w[i] == '_' implies #[trigger] w[i + 1] != '_' by {}
    }
}

/// Slugifying a slug gives it back: `slugify` is idempotent.
pub proof fn law_slug_idempotent(s: Seq<char>)
    ensures
        slug(slug(s)) == slug(s),
{
    let t = slug(s);
    lemma_slug_shape(s);
    lemma_slug_raw_of_shaped(t);
    assert(strip_lead_us(t) == t);
    assert(strip_trail_us(t) == t);
}

} // verus!
