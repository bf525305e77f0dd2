//! The state the server keeps in memory: settings, credentials, the run-time
//! entries of tasks and the build in progress. Reading and writing the files
//! is left to the caller; every decision on the state is made here.

use vstd::prelude::*;
use crate::error::{AppError, ErrorKind, Problem, outcome};
use crate::json::{JsonNumber, JsonValue};
use crate::models::{
    AppSettings, BuildMode, BuildStatusResponse, BuildTaskStatusDto, Engine, GitConfig,
    PackageTask, PackageTaskRuntime, PackageTaskStatus, Project, PublicSettingsUpdate, RuntimeState, TaskGroup,
};
use crate::copies::{dup_string_opt, same_group, same_groups, same_definitions, same_settings, same_task, same_tasks, dup_engines, dup_projects, dup_bots, dup_tasks, dup_groups, dup_definitions};
use crate::param_map::ParamMap;
use crate::runtime::{apply_runtime_state, find_task_index, has_task, merged_task, retain_entries_for_tasks, entries_for_tasks};
use crate::text::{concat2, str_eq, is_blank, is_blank_str, u64_to_string, views};

verus! {

/// A change to a run-time entry: each field that is given is set.
/// `progress_if_below` (`(limit, value)`) sets the progress to `value` only
/// where it is (still) below `limit`; `progress_step_below` (`cap`) then adds
/// one to a progress below `cap`.
#[derive(Debug, Clone, PartialEq)]
pub struct RuntimePatch {
    pub progress: Option<u8>,
    pub progress_if_below: Option<(u8, u8)>,
    pub progress_step_below: Option<u8>,
    pub step_label: Option<String>,
    pub status: Option<PackageTaskStatus>,
    pub last_log_path: Option<Option<String>>,
    pub last_error: Option<Option<String>>,
    pub started_at: Option<Option<String>>,
    pub finished_at: Option<Option<String>>,
    pub canceling_at_unix_secs: Option<Option<u64>>,
}

pub open spec fn opt_view(o: Option<String>) -> Option<Seq<char>> {
    match o {
        Some(s) => Some(s@),
        None => None,
    }
}

pub open spec fn opt_opt_view(o: Option<Option<String>>) -> Option<Option<Seq<char>>> {
    match o {
        Some(v) => Some(opt_view(v)),
        None => None,
    }
}

/// A patch as values: texts as character sequences.
pub struct PatchView {
    pub progress: Option<u8>,
    pub progress_if_below: Option<(u8, u8)>,
    pub progress_step_below: Option<u8>,
    pub step_label: Option<Seq<char>>,
    pub status: Option<PackageTaskStatus>,
    pub last_log_path: Option<Option<Seq<char>>>,
    pub last_error: Option<Option<Seq<char>>>,
    pub started_at: Option<Option<Seq<char>>>,
    pub finished_at: Option<Option<Seq<char>>>,
    pub canceling_at_unix_secs: Option<Option<u64>>,
}

impl View for RuntimePatch {
    type V = PatchView;

    open spec fn view(&self) -> PatchView {
        PatchView {
            progress: self.progress,
            progress_if_below: self.progress_if_below,
            progress_step_below: self.progress_step_below,
            step_label: opt_view(self.step_label),
            status: self.status,
            last_log_path: opt_opt_view(self.last_log_path),
            last_error: opt_opt_view(self.last_error),
            started_at: opt_opt_view(self.started_at),
            finished_at: opt_opt_view(self.finished_at),
            canceling_at_unix_secs: self.canceling_at_unix_secs,
        }
    }
}

/// A run-time entry as values: texts as character sequences.
pub struct EntryView {
    pub task_id: Seq<char>,
    pub progress: u8,
    pub step_label: Seq<char>,
    pub status: PackageTaskStatus,
    pub last_log_path: Option<Seq<char>>,
    pub last_error: Option<Seq<char>>,
    pub started_at: Option<Seq<char>>,
    pub finished_at: Option<Seq<char>>,
    pub canceling_at_unix_secs: Option<u64>,
}

impl View for PackageTaskRuntime {
    type V = EntryView;

    open spec fn view(&self) -> EntryView {
        EntryView {
            task_id: self.task_id@,
            progress: self.progress,
            step_label: self.step_label@,
            status: self.status,
            last_log_path: opt_view(self.last_log_path),
            last_error: opt_view(self.last_error),
            started_at: opt_view(self.started_at),
            finished_at: opt_view(self.finished_at),
            canceling_at_unix_secs: self.canceling_at_unix_secs,
        }
    }
}

/// The entries as values.
pub open spec fn entry_views(rt: Seq<PackageTaskRuntime>) -> Seq<EntryView> {
    rt.map_values(|e: PackageTaskRuntime| e@)
}

/// The entry a task without one has: empty and pending.
pub open spec fn fresh_view(id: Seq<char>) -> EntryView {
    EntryView {
        task_id: id,
        progress: 0,
        step_label: Seq::empty(),
        status: PackageTaskStatus::Pending,
        last_log_path: None,
        last_error: None,
        started_at: None,
        finished_at: None,
        canceling_at_unix_secs: None,
    }
}

pub open spec fn patched_text(old: Option<Seq<char>>, given: Option<Option<Seq<char>>>) -> Option<Seq<char>> {
    match given {
        Some(v) => v,
        None => old,
    }
}

/// An entry after a patch.
pub open spec fn patch_view(v: EntryView, p: PatchView) -> EntryView {
    let base = match p.progress { Some(x) => x, None => v.progress };
    let lifted = match p.progress_if_below {
        Some(lv) => if base < lv.0 { lv.1 } else { base },
        None => base,
    };
    EntryView {
        task_id: v.task_id,
        progress: match p.progress_step_below {
            Some(cap) => if lifted < cap { (lifted + 1) as u8 } else { lifted },
            None => lifted,
        },
        step_label: match p.step_label { Some(l) => l, None => v.step_label },
        status: match p.status { Some(x) => x, None => v.status },
        last_log_path: patched_text(v.last_log_path, p.last_log_path),
        last_error: patched_text(v.last_error, p.last_error),
        started_at: patched_text(v.started_at, p.started_at),
        finished_at: patched_text(v.finished_at, p.finished_at),
        canceling_at_unix_secs: match p.canceling_at_unix_secs { Some(c) => c, None => v.canceling_at_unix_secs },
    }
}

fn opt_patch(old: Option<String>, given: &Option<Option<String>>) -> (r: Option<String>)
    ensures
        opt_view(r) == patched_text(opt_view(old), opt_opt_view(*given)),
{
    match given {
        Some(v) => dup_string_opt(v),
        None => old,
    }
}

/// Applies a patch to an entry.
pub fn apply_patch(e: PackageTaskRuntime, p: &RuntimePatch) -> (r: PackageTaskRuntime)
    ensures
        r@ == patch_view(e@, p@),
{
    let ghost v = e@;
    let mut e = e;
    if let Some(x) = p.progress {
        e.progress = x;
    }
    if let Some(lv) = p.progress_if_below {
        if e.progress < lv.0 {
            e.progress = lv.1;
        }
    }
    if let Some(cap) = p.progress_step_below {
        if e.progress < cap {
            e.progress = e.progress + 1;
        }
    }
    if let Some(l) = &p.step_label {
        e.step_label = l.clone();
    }
    if let Some(x) = p.status {
        e.status = x;
    }
    e.last_log_path = opt_patch(e.last_log_path, &p.last_log_path);
    e.last_error = opt_patch(e.last_error, &p.last_error);
    e.started_at = opt_patch(e.started_at, &p.started_at);
    e.finished_at = opt_patch(e.finished_at, &p.finished_at);
    if let Some(c) = p.canceling_at_unix_secs {
        e.canceling_at_unix_secs = c;
    }
    e
}

/// A new entry for a task: empty and pending.
pub fn fresh_entry(task_id: &str) -> (r: PackageTaskRuntime)
    ensures
        r@ == fresh_view(task_id@),
{
    let r = PackageTaskRuntime {
        task_id: crate::text::copy_string(task_id),
        progress: 0,
        step_label: String::new(),
        status: PackageTaskStatus::Pending,
        last_log_path: None,
        last_error: None,
        started_at: None,
        finished_at: None,
        canceling_at_unix_secs: None,
    };
    assert(r@.step_label =~= Seq::<char>::empty());
    r
}

/// The index of the first entry for `id`.
pub open spec fn first_entry_index(vs: Seq<EntryView>, id: Seq<char>) -> Option<int> {
    if exists|i: int| 0 <= i < vs.len() && #[trigger] vs[i].task_id == id && forall|j: int| 0 <= j < i ==> vs[j].task_id != id {
        Some(choose|i: int| 0 <= i < vs.len() && #[trigger] vs[i].task_id == id && forall|j: int| 0 <= j < i ==> vs[j].task_id != id)
    } else {
        None
    }
}

proof fn lemma_first_entry_index(vs: Seq<EntryView>, id: Seq<char>, i: int)
    requires
        0 <= i < vs.len(),
        vs[i].task_id == id,
        forall|j: int| 0 <= j < i ==> vs[j].task_id != id,
    ensures
        first_entry_index(vs, id) == Some(i),
{
    assert(exists|k: int| 0 <= k < vs.len() && #[trigger] vs[k].task_id == id && forall|j: int| 0 <= j < k ==> vs[j].task_id != id);
    let k = choose|k: int| 0 <= k < vs.len() && #[trigger] vs[k].task_id == id && forall|j: int| 0 <= j < k ==> vs[j].task_id != id;
    if k < i {
        assert(vs[k].task_id != id);
    } else if k > i {
        assert(vs[i].task_id != id);
    }
}

/// Position of the first entry for `id`.
pub fn first_entry_position(rt: &Vec<PackageTaskRuntime>, id: &str) -> (r: Option<usize>)
    ensures
        match first_entry_index(entry_views(rt@), id@) {
            Some(i) => r == Some(i as usize),
            None => r is None,
        },
        r matches Some(i) ==> i < rt@.len() && rt@[i as int].task_id@ == id@,
        r is None ==> forall|j: int| 0 <= j < rt@.len() ==> rt@[j].task_id@ != id@,
{
    let ghost vs = entry_views(rt@);
    let mut i: usize = 0;
    while i < rt.len()
        invariant
            i <= rt@.len(),
            vs == entry_views(rt@),
            forall|j: int| 0 <= j < i ==> vs[j].task_id != id@,
        decreases rt.len() - i,
    {
        if str_eq(rt[i].task_id.as_str(), id) {
            proof { lemma_first_entry_index(vs, id@, i as int); }
            return Some(i);
        }
        i = i + 1;
    }
    assert(!exists|k: int| 0 <= k < vs.len() && #[trigger] vs[k].task_id == id@ && forall|j: int| 0 <= j < k ==> vs[j].task_id != id@);
    assert forall|j: int| 0 <= j < rt@.len() implies rt@[j].task_id@ != id@ by {
        assert(vs[j] == rt@[j]@);
    }
    None
}

/// The entry a task is shown with: its first entry.
pub open spec fn entry_for(vs: Seq<EntryView>, id: Seq<char>) -> Option<EntryView> {
    match first_entry_index(vs, id) {
        Some(i) => Some(vs[i]),
        None => None,
    }
}

/// The entries after the entry for `id` is patched (added first when missing).
pub open spec fn update_views(vs: Seq<EntryView>, id: Seq<char>, p: PatchView) -> Seq<EntryView> {
    match first_entry_index(vs, id) {
        Some(i) => vs.update(i, patch_view(vs[i], p)),
        None => vs.push(patch_view(fresh_view(id), p)),
    }
}

/// The position of the entry for `task_id`: its first entry, or a new empty
/// pending one added at the end when it has none.
pub fn ensure_runtime_entry(entries: &mut Vec<PackageTaskRuntime>, task_id: &str) -> (r: usize)
    ensures
        r < final(entries)@.len(),
        first_entry_index(entry_views(final(entries)@), task_id@) == Some(r as int),
        match first_entry_index(entry_views(old(entries)@), task_id@) {
            Some(i) => r == i && final(entries)@ == old(entries)@,
            None => r == old(entries)@.len()
                && entry_views(final(entries)@) == entry_views(old(entries)@).push(fresh_view(task_id@))
                && final(entries)@.take(r as int) == old(entries)@,
        },
{
    let ghost vs = entry_views(entries@);
    proof { lemma_first_entry_sound(vs, task_id@); }
    let pos = first_entry_position(entries, task_id);
    match pos {
        Some(i) => {
            let len = entries.len();
            assert(vs.len() == len);
            assert(first_entry_index(vs, task_id@) == Some(i as int));
            i
        },
        None => {
            let ghost before = entries@;
            entries.push(fresh_entry(task_id));
            let n = entries.len() - 1;
            assert(entries@.take(n as int) =~= before);
            assert(entry_views(entries@) =~= vs.push(fresh_view(task_id@)));
            proof {
                let nv = entry_views(entries@);
                assert forall|j: int| 0 <= j < n implies nv[j].task_id != task_id@ by {
                    assert(nv[j] == entries@[j]@);
                }
                lemma_first_entry_index(nv, task_id@, n as int);
            }
            n
        },
    }
}

/// Applies a patch to the entry for `id`, adding the entry first when
/// missing; returns the patched entry.
pub fn patch_entry(entries: &mut Vec<PackageTaskRuntime>, task_id: &str, p: &RuntimePatch) -> (r: PackageTaskRuntime)
    ensures
        entry_views(final(entries)@) == update_views(entry_views(old(entries)@), task_id@, p@),
        entry_for(entry_views(final(entries)@), task_id@) == Some(r@),
{
    let ghost vs = entry_views(entries@);
    let i = ensure_runtime_entry(entries, task_id);
    let ghost mid = entry_views(entries@);
    proof { lemma_first_entry_sound(mid, task_id@); }
    let e = entries[i].dup();
    assert(mid[i as int] == e@);
    let n = apply_patch(e, p);
    let out = n.dup();
    let ghost before = entries@;
    entries.set(i, n);
    assert(entries@ == before.update(i as int, n));
    assert(entry_views(entries@) =~= mid.update(i as int, n@));
    assert(entry_views(entries@) =~= update_views(vs, task_id@, p@));
    proof {
        let nv = entry_views(entries@);
        assert forall|j: int| 0 <= j < i implies nv[j].task_id != task_id@ by {
            assert(nv[j] == mid[j]);
        }
        lemma_first_entry_index(nv, task_id@, i as int);
    }
    out
}

/// Whether a task is in the list.
pub open spec fn task_listed(s: AppSettings, id: Seq<char>) -> bool {
    has_task(s.package_tasks@, id)
}

/// The message of a missing task.
pub open spec fn task_missing(id: Seq<char>) -> Problem {
    (ErrorKind::NotFound, "未找到任务 "@ + id)
}

/// The first task with the given id.
pub open spec fn first_task(tasks: Seq<PackageTask>, id: Seq<char>) -> PackageTask {
    tasks[choose|i: int| 0 <= i < tasks.len() && #[trigger] tasks[i].id@ == id && forall|j: int| 0 <= j < i ==> tasks[j].id@ != id]
}

/// `r` is the settings as shown: the held settings with the credentials in
/// memory, and each task with its run-time entry.
pub open spec fn settings_shown(c: AppCore, r: AppSettings) -> bool {
    &&& r.engines@ == c.settings.engines@
    &&& r.projects@ == c.settings.projects@
    &&& r.feishu_bots@ == c.settings.feishu_bots@
    &&& r.git_config == c.git_config
    &&& same_groups(r.task_groups@, c.settings.task_groups@)
    &&& same_definitions(r.param_definitions@, c.settings.param_definitions@)
    &&& r.package_tasks@.len() == c.settings.package_tasks@.len()
    &&& forall|i: int| 0 <= i < r.package_tasks@.len() ==> same_task(#[trigger] r.package_tasks@[i], merged_task(c.settings.package_tasks@[i], c.runtime.package_tasks@))
}

/// `new` is `old` after saving `s`: the settings held are `s` normalized
/// and stripped, the run-time entries of tasks no longer listed are dropped,
/// and the rest stays.
pub open spec fn saved_as(old: AppCore, new: AppCore, s: AppSettings) -> bool {
    &&& exists|n: (AppSettings, bool)| crate::migration::settings_normalized(s, n) && crate::runtime::settings_stripped(n.0, new.settings)
    &&& new.runtime.package_tasks@ == entries_for_tasks(old.runtime.package_tasks@, new.settings.package_tasks@)
    &&& new.git_config == old.git_config
    &&& new.build_in_progress == old.build_in_progress
    &&& new.cancel_signal == old.cancel_signal
    &&& new.active_task_id == old.active_task_id
    &&& new.runtime_revision == old.runtime_revision
    &&& new.persisted_revision == old.persisted_revision
}

/// Normalizing and stripping settings keeps their tasks' ids, in order.
pub proof fn lemma_normalized_task_ids(s: AppSettings, n: (AppSettings, bool), t: AppSettings)
    requires
        crate::migration::settings_normalized(s, n),
        crate::runtime::settings_stripped(n.0, t),
    ensures
        t.package_tasks@.len() == s.package_tasks@.len(),
        forall|i: int| 0 <= i < s.package_tasks@.len() ==> (#[trigger] t.package_tasks@[i]).id@ == s.package_tasks@[i].id@,
{
    let (tb, gd) = choose|tb: Seq<PackageTask>, gd: Seq<TaskGroup>|
        #![trigger crate::migration::projects_bound(s.package_tasks@, n.0.projects@, tb), crate::migration::groups_filled(n.0.projects@, gd, n.0.task_groups@)]
        crate::migration::projects_bound(s.package_tasks@, n.0.projects@, tb)
        && crate::migration::groups_migrated(tb, s.task_groups@, n.0.projects@, n.0.package_tasks@, gd)
        && crate::migration::groups_filled(n.0.projects@, gd, n.0.task_groups@);
    let ts = t.package_tasks@;
    let src = s.package_tasks@;
    assert forall|i: int| 0 <= i < src.len() implies (#[trigger] ts[i]).id@ == src[i].id@ by {
        assert(tb[i] == crate::migration::with_project(src[i], tb[i].project));
        assert(crate::migration::task_migrated(s.task_groups@, gd, tb[i], i, n.0.package_tasks@[i]));
        assert(ts[i] == crate::runtime::strip_task(n.0.package_tasks@[i]));
    }
}

/// Saving settings `s` keeps, of the run-time entries held before, exactly
/// those of the tasks of `s`, in their order and unchanged: the settings
/// held list the tasks of `s` with their ids, every entry left names one of
/// them, and each task listed is shown with the same entry as before.
pub proof fn law_saved_runtime(old: AppCore, new: AppCore, s: AppSettings)
    requires
        saved_as(old, new, s),
    ensures
        new.settings.package_tasks@.len() == s.package_tasks@.len(),
        forall|i: int| 0 <= i < s.package_tasks@.len() ==> (#[trigger] new.settings.package_tasks@[i]).id@ == s.package_tasks@[i].id@,
        new.runtime.package_tasks@ == entries_for_tasks(old.runtime.package_tasks@, s.package_tasks@),
        forall|e: PackageTaskRuntime| #[trigger] new.runtime.package_tasks@.contains(e) <==> (old.runtime.package_tasks@.contains(e) && has_task(s.package_tasks@, e.task_id@)),
        forall|i: int| 0 <= i < new.settings.package_tasks@.len() ==> crate::runtime::last_runtime_for(new.runtime.package_tasks@, (#[trigger] new.settings.package_tasks@[i]).id@)
            == crate::runtime::last_runtime_for(old.runtime.package_tasks@, new.settings.package_tasks@[i].id@),
{
    let n = choose|n: (AppSettings, bool)| crate::migration::settings_normalized(s, n) && crate::runtime::settings_stripped(n.0, new.settings);
    lemma_normalized_task_ids(s, n, new.settings);
    let ts = new.settings.package_tasks@;
    let src = s.package_tasks@;
    crate::runtime::lemma_entries_same_ids(old.runtime.package_tasks@, ts, src);
    assert forall|e: PackageTaskRuntime| #[trigger] new.runtime.package_tasks@.contains(e) <==> (old.runtime.package_tasks@.contains(e) && has_task(src, e.task_id@)) by {
        crate::runtime::law_retained_entries(old.runtime.package_tasks@, src, e);
    }
    assert forall|i: int| 0 <= i < ts.len() implies crate::runtime::last_runtime_for(new.runtime.package_tasks@, (#[trigger] ts[i]).id@)
            == crate::runtime::last_runtime_for(old.runtime.package_tasks@, ts[i].id@) by {
        assert(has_task(ts, ts[i].id@));
        crate::runtime::lemma_last_runtime_kept(old.runtime.package_tasks@, ts, ts[i].id@);
    }
}

/// When a change to the run-time state goes to disk: with the next periodic
/// flush, or at once.
#[derive(Debug, Clone, Copy, PartialEq, Eq, Structural)]
pub enum RuntimeFlushMode {
    Deferred,
    Immediate,
}

/// The state of the server.
pub struct AppCore {
    /// Settings without credentials or run-time fields.
    pub settings: AppSettings,
    /// Credentials, kept in memory only.
    pub git_config: GitConfig,
    /// The run-time entries of tasks.
    pub runtime: RuntimeState,
    pub build_in_progress: bool,
    /// The stop signal of the build in progress: `None` when no build holds one.
    pub cancel_signal: Option<bool>,
    pub active_task_id: Option<String>,
    /// How many changes the run-time state has had, and how many of them are on disk.
    pub runtime_revision: u64,
    pub persisted_revision: u64,
}

/// A call that changes whether a build is under way.
#[derive(Debug, Clone, Copy, PartialEq, Eq, Structural)]
pub enum BuildCall {
    /// `try_start_build`
    Start,
    /// `finish_build`
    Finish,
}

/// Whether a build is under way after one call: a start leaves one under
/// way (its own, or the one that refused it), a finish leaves none.
pub open spec fn build_flag_step(flag: bool, call: BuildCall) -> bool {
    match call {
        BuildCall::Start => true,
        BuildCall::Finish => false,
    }
}

/// Whether a build is under way after the calls, from a new state (none under way).
pub open spec fn build_flag_after(calls: Seq<BuildCall>) -> bool
    decreases calls.len(),
{
    if calls.len() == 0 {
        false
    } else {
        build_flag_step(build_flag_after(calls.drop_last()), calls.last())
    }
}

/// Whether the start at `k` succeeded and no finish came after it, before `n`.
pub open spec fn start_still_open(calls: Seq<BuildCall>, k: int, n: int) -> bool {
    &&& 0 <= k < n
    &&& calls[k] == BuildCall::Start
    &&& !build_flag_after(calls.take(k))
    &&& forall|j: int| k < j < n ==> #[trigger] calls[j] == BuildCall::Start
}

/// Over any sequence of `try_start_build` and `finish_build` calls on a new
/// state, a build is under way after the first `n` calls (so that a start
/// there is refused with a conflict, changing nothing) exactly when an
/// earlier start succeeded and no finish came after it.
pub proof fn law_build_flag_over_calls(calls: Seq<BuildCall>, n: int)
    requires
        0 <= n <= calls.len(),
    ensures
        build_flag_after(calls.take(n)) <==> exists|k: int| #[trigger] start_still_open(calls, k, n),
    decreases n,
{
    if n > 0 {
        law_build_flag_over_calls(calls, n - 1);
        assert(calls.take(n).drop_last() =~= calls.take(n - 1));
        assert(calls.take(n).last() == calls[n - 1]);
        if calls[n - 1] == BuildCall::Finish {
            if exists|k: int| #[trigger] start_still_open(calls, k, n) {
                let k = choose|k: int| #[trigger] start_still_open(calls, k, n);
                if k < n - 1 {
                    assert(calls[n - 1] == BuildCall::Start);
                }
            }
        } else {
            if !build_flag_after(calls.take(n - 1)) {
                assert(start_still_open(calls, n - 1, n));
            } else {
                let k = choose|k: int| #[trigger] start_still_open(calls, k, n - 1);
                assert(start_still_open(calls, k, n));
            }
        }
    }
}

impl AppCore {
    /// A state holding the given settings, credentials and run-time entries,
    /// with no build under way.
    pub fn new(settings: AppSettings, git_config: GitConfig, runtime: RuntimeState) -> (r: AppCore)
        ensures
            r.settings == settings,
            r.git_config == git_config,
            r.runtime == runtime,
            !r.build_in_progress,
            r.cancel_signal is None,
            r.active_task_id is None,
            r.runtime_revision == 0,
            r.persisted_revision == 0,
    {
        AppCore {
            settings,
            git_config,
            runtime,
            build_in_progress: false,
            cancel_signal: None,
            active_task_id: None,
            runtime_revision: 0,
            persisted_revision: 0,
        }
    }

    /// Everything but the run-time entries and the revision is as in `other`.
    pub open spec fn same_but_runtime(self, other: AppCore) -> bool {
        &&& self.settings == other.settings
        &&& self.git_config == other.git_config
        &&& self.build_in_progress == other.build_in_progress
        &&& self.cancel_signal == other.cancel_signal
        &&& self.active_task_id == other.active_task_id
        &&& self.persisted_revision == other.persisted_revision
    }

    pub fn is_build_in_progress(&self) -> (r: bool)
        ensures
            r == self.build_in_progress,
    {
        self.build_in_progress
    }

    /// Starts a build, unless one is under way.
    pub fn try_start_build(&mut self) -> (r: Result<(), AppError>)
        ensures
            outcome(r, if old(self).build_in_progress { Some((ErrorKind::Conflict, "已有打包任务在进行中"@)) } else { None }),
            r is Err ==> *final(self) == *old(self),
            final(self).build_in_progress == build_flag_step(old(self).build_in_progress, BuildCall::Start),
            r is Ok ==> final(self).build_in_progress && final(self).cancel_signal == Some(false)
                && final(self).settings == old(self).settings && final(self).runtime == old(self).runtime
                && final(self).git_config == old(self).git_config && final(self).active_task_id == old(self).active_task_id
                && final(self).runtime_revision == old(self).runtime_revision
                && final(self).persisted_revision == old(self).persisted_revision,
    {
        if self.build_in_progress {
            return Err(AppError::Conflict("已有打包任务在进行中".to_string()));
        }
        self.build_in_progress = true;
        self.cancel_signal = Some(false);
        Ok(())
    }

    /// Ends the build: no build, no stop signal, no active task.
    pub fn finish_build(&mut self)
        ensures
            !final(self).build_in_progress,
            final(self).build_in_progress == build_flag_step(old(self).build_in_progress, BuildCall::Finish),
            final(self).cancel_signal is None,
            final(self).active_task_id is None,
            final(self).settings == old(self).settings,
            final(self).runtime == old(self).runtime,
            final(self).git_config == old(self).git_config,
            final(self).runtime_revision == old(self).runtime_revision,
            final(self).persisted_revision == old(self).persisted_revision,
    {
        self.build_in_progress = false;
        self.cancel_signal = None;
        self.active_task_id = None;
    }

    pub fn set_active_task(&mut self, task_id: Option<String>)
        ensures
            final(self).active_task_id == task_id,
            final(self).settings == old(self).settings,
            final(self).runtime == old(self).runtime,
            final(self).git_config == old(self).git_config,
            final(self).build_in_progress == old(self).build_in_progress,
            final(self).cancel_signal == old(self).cancel_signal,
            final(self).runtime_revision == old(self).runtime_revision,
            final(self).persisted_revision == old(self).persisted_revision,
    {
        self.active_task_id = task_id;
    }

    /// Whether a stop of the build in progress was asked for.
    pub fn cancel_requested(&self) -> (r: bool)
        ensures
            r == (self.cancel_signal == Some(true)),
    {
        match self.cancel_signal {
            Some(b) => b,
            None => false,
        }
    }

    /// Checks that a task with this id is in the settings.
    pub fn ensure_task_exists(&self, task_id: &str) -> (r: Result<(), AppError>)
        ensures
            outcome(r, if task_listed(self.settings, task_id@) { None } else { Some(task_missing(task_id@)) }),
    {
        match find_task_index(&self.settings.package_tasks, task_id) {
            Some(_) => Ok(()),
            None => Err(AppError::NotFound(concat2("未找到任务 ", task_id))),
        }
    }

    /// Counts one more change of the run-time state.
    pub fn mark_runtime_updated(&mut self)
        ensures
            final(self).runtime_revision == (if old(self).runtime_revision == u64::MAX { 0 } else { (old(self).runtime_revision + 1) as u64 }),
            final(self).runtime == old(self).runtime,
            final(self).same_but_runtime(*old(self)),
    {
        self.runtime_revision = if self.runtime_revision == u64::MAX { 0 } else { self.runtime_revision + 1 };
    }

    /// Whether the run-time state has changes not yet on disk.
    pub fn needs_flush(&self) -> (r: bool)
        ensures
            r == (self.runtime_revision != self.persisted_revision),
    {
        self.runtime_revision != self.persisted_revision
    }

    /// Whether the run-time state is to be written now after a change made
    /// in the given mode: an immediate change, with something not yet on disk.
    pub fn flush_due(&self, mode: RuntimeFlushMode) -> (r: bool)
        ensures
            r == (mode == RuntimeFlushMode::Immediate && self.runtime_revision != self.persisted_revision),
    {
        mode == RuntimeFlushMode::Immediate && self.needs_flush()
    }

    /// Records that the run-time state as it is now is on disk.
    pub fn mark_persisted(&mut self)
        ensures
            final(self).persisted_revision == old(self).runtime_revision,
            final(self).runtime_revision == old(self).runtime_revision,
            final(self).runtime == old(self).runtime,
            final(self).settings == old(self).settings,
            final(self).git_config == old(self).git_config,
            final(self).build_in_progress == old(self).build_in_progress,
            final(self).cancel_signal == old(self).cancel_signal,
            final(self).active_task_id == old(self).active_task_id,
    {
        self.persisted_revision = self.runtime_revision;
    }

    /// Changes the run-time entry of a listed task (adding it when missing)
    /// and returns it; a task not in the settings is an error and nothing changes.
    pub fn update_task_runtime(&mut self, task_id: &str, patch: &RuntimePatch) -> (r: Result<PackageTaskRuntime, AppError>)
        ensures
            outcome(r, if task_listed(old(self).settings, task_id@) { None } else { Some(task_missing(task_id@)) }),
            r is Err ==> *final(self) == *old(self),
            r matches Ok(e) ==> entry_views(final(self).runtime.package_tasks@) == update_views(entry_views(old(self).runtime.package_tasks@), task_id@, patch@)
                && entry_for(entry_views(final(self).runtime.package_tasks@), task_id@) == Some(e@)
                && final(self).same_but_runtime(*old(self))
                && final(self).runtime_revision == (if old(self).runtime_revision == u64::MAX { 0 } else { (old(self).runtime_revision + 1) as u64 }),
    {
        self.ensure_task_exists(task_id)?;
        let e = patch_entry(&mut self.runtime.package_tasks, task_id, patch);
        self.mark_runtime_updated();
        Ok(e)
    }

    /// The run-time entry of a listed task: its entry, or an empty pending one.
    pub fn get_task_runtime(&self, task_id: &str) -> (r: Result<PackageTaskRuntime, AppError>)
        ensures
            outcome(r, if task_listed(self.settings, task_id@) { None } else { Some(task_missing(task_id@)) }),
            r matches Ok(e) ==> e@ == match entry_for(entry_views(self.runtime.package_tasks@), task_id@) {
                Some(x) => x,
                None => fresh_view(task_id@),
            },
    {
        self.ensure_task_exists(task_id)?;
        match first_entry_position(&self.runtime.package_tasks, task_id) {
            Some(i) => {
                assert(entry_views(self.runtime.package_tasks@)[i as int] == self.runtime.package_tasks@[i as int]@);
                Ok(self.runtime.package_tasks[i].dup())
            },
            None => Ok(fresh_entry(task_id)),
        }
    }

    /// All run-time entries.
    pub fn all_task_runtimes(&self) -> (r: Vec<PackageTaskRuntime>)
        ensures
            r@ == self.runtime.package_tasks@,
    {
        let mut out: Vec<PackageTaskRuntime> = Vec::new();
        let mut i: usize = 0;
        while i < self.runtime.package_tasks.len()
            invariant
                i <= self.runtime.package_tasks@.len(),
                out@ == self.runtime.package_tasks@.take(i as int),
            decreases self.runtime.package_tasks.len() - i,
        {
            out.push(self.runtime.package_tasks[i].dup());
            i = i + 1;
            assert(out@ =~= self.runtime.package_tasks@.take(i as int));
        }
        assert(self.runtime.package_tasks@.take(self.runtime.package_tasks@.len() as int) =~= self.runtime.package_tasks@);
        out
    }
}


/// The first index whose element satisfies `f`.
pub open spec fn first_match<T>(s: Seq<T>, f: spec_fn(T) -> bool) -> Option<int> {
    if exists|i: int| 0 <= i < s.len() && f(#[trigger] s[i]) && forall|j: int| 0 <= j < i ==> !f(s[j]) {
        Some(choose|i: int| 0 <= i < s.len() && f(#[trigger] s[i]) && forall|j: int| 0 <= j < i ==> !f(s[j]))
    } else {
        None
    }
}

pub proof fn lemma_first_match<T>(s: Seq<T>, f: spec_fn(T) -> bool, i: int)
    requires
        0 <= i < s.len(),
        f(s[i]),
        forall|j: int| 0 <= j < i ==> !f(s[j]),
    ensures
        first_match(s, f) == Some(i),
{
    assert(exists|k: int| 0 <= k < s.len() && f(#[trigger] s[k]) && forall|j: int| 0 <= j < k ==> !f(s[j]));
    let k = choose|k: int| 0 <= k < s.len() && f(#[trigger] s[k]) && forall|j: int| 0 <= j < k ==> !f(s[j]);
    if k < i {
        assert(!f(s[k]));
    } else if k > i {
        assert(!f(s[i]));
    }
}

/// When some element satisfies `f`, the first match is found, no later than it.
pub proof fn lemma_first_match_some<T>(s: Seq<T>, f: spec_fn(T) -> bool, k: int)
    requires
        0 <= k < s.len(),
        f(s[k]),
    ensures
        first_match(s, f) matches Some(i) && 0 <= i <= k && f(s[i]) && forall|j: int| 0 <= j < i ==> !f(s[j]),
    decreases k,
{
    if exists|j: int| 0 <= j < k && f(s[j]) {
        let j = choose|j: int| 0 <= j < k && f(s[j]);
        lemma_first_match_some(s, f, j);
    } else {
        lemma_first_match(s, f, k);
    }
}

pub proof fn lemma_no_match<T>(s: Seq<T>, f: spec_fn(T) -> bool)
    requires
        forall|j: int| 0 <= j < s.len() ==> !f(s[j]),
    ensures
        first_match(s, f) is None,
{
}

pub open spec fn project_matches(r: Seq<char>) -> spec_fn(Project) -> bool {
    |p: Project| p.id@ == r || p.name@ == r
}

pub open spec fn engine_matches(name: Seq<char>) -> spec_fn(Engine) -> bool {
    |e: Engine| e.name@ == name
}

pub open spec fn group_matches(id: Seq<char>) -> spec_fn(TaskGroup) -> bool {
    |g: TaskGroup| g.id@ == id
}

pub open spec fn task_matches(id: Seq<char>) -> spec_fn(PackageTask) -> bool {
    |t: PackageTask| t.id@ == id
}

/// The project found by a reference: the first whose id or name it is.
pub fn find_project_in(projects: &Vec<Project>, project_ref: &str) -> (r: Result<Project, AppError>)
    ensures
        match first_match(projects@, project_matches(project_ref@)) {
            Some(i) => r == Ok::<Project, AppError>(projects@[i]),
            None => outcome(r, Some((ErrorKind::NotFound, "未找到项目 "@ + project_ref@))),
        },
{
    let mut i: usize = 0;
    while i < projects.len()
        invariant
            i <= projects@.len(),
            forall|j: int| 0 <= j < i ==> !project_matches(project_ref@)(#[trigger] projects@[j]),
        decreases projects.len() - i,
    {
        if str_eq(projects[i].id.as_str(), project_ref) || str_eq(projects[i].name.as_str(), project_ref) {
            proof { lemma_first_match(projects@, project_matches(project_ref@), i as int); }
            return Ok(projects[i].dup());
        }
        i = i + 1;
    }
    Err(AppError::NotFound(concat2("未找到项目 ", project_ref)))
}

/// The engine with the given name.
pub fn find_engine_in(engines: &Vec<Engine>, engine_name: &str) -> (r: Result<Engine, AppError>)
    ensures
        match first_match(engines@, engine_matches(engine_name@)) {
            Some(i) => r == Ok::<Engine, AppError>(engines@[i]),
            None => outcome(r, Some((ErrorKind::NotFound, "未找到引擎 "@ + engine_name@))),
        },
{
    let mut i: usize = 0;
    while i < engines.len()
        invariant
            i <= engines@.len(),
            forall|j: int| 0 <= j < i ==> !engine_matches(engine_name@)(#[trigger] engines@[j]),
        decreases engines.len() - i,
    {
        if str_eq(engines[i].name.as_str(), engine_name) {
            proof { lemma_first_match(engines@, engine_matches(engine_name@), i as int); }
            return Ok(engines[i].dup());
        }
        i = i + 1;
    }
    Err(AppError::NotFound(concat2("未找到引擎 ", engine_name)))
}

/// Position of the first task group with the id.
pub fn find_group_index(groups: &Vec<TaskGroup>, group_id: &str) -> (r: Option<usize>)
    ensures
        r matches Some(i) ==> i < groups@.len() && first_match(groups@, group_matches(group_id@)) == Some(i as int),
        r is None ==> first_match(groups@, group_matches(group_id@)) is None,
{
    let mut i: usize = 0;
    while i < groups.len()
        invariant
            i <= groups@.len(),
            forall|j: int| 0 <= j < i ==> !group_matches(group_id@)(#[trigger] groups@[j]),
        decreases groups.len() - i,
    {
        if str_eq(groups[i].id.as_str(), group_id) {
            proof { lemma_first_match(groups@, group_matches(group_id@), i as int); }
            return Some(i);
        }
        i = i + 1;
    }
    proof { lemma_no_match(groups@, group_matches(group_id@)); }
    None
}

/// The task group with the given id.
pub fn find_group_in(groups: &Vec<TaskGroup>, group_id: &str) -> (r: Result<TaskGroup, AppError>)
    ensures
        match first_match(groups@, group_matches(group_id@)) {
            Some(i) => r matches Ok(g) && same_group(g, groups@[i]),
            None => outcome(r, Some((ErrorKind::NotFound, "未找到任务组 "@ + group_id@))),
        },
{
    let mut i: usize = 0;
    while i < groups.len()
        invariant
            i <= groups@.len(),
            forall|j: int| 0 <= j < i ==> !group_matches(group_id@)(#[trigger] groups@[j]),
        decreases groups.len() - i,
    {
        if str_eq(groups[i].id.as_str(), group_id) {
            proof { lemma_first_match(groups@, group_matches(group_id@), i as int); }
            return Ok(groups[i].dup());
        }
        i = i + 1;
    }
    Err(AppError::NotFound(concat2("未找到任务组 ", group_id)))
}

/// A project with the legacy build fields of a task group's parameters:
/// each present with the right type is taken; an unknown build mode is release.
pub open spec fn group_applied(p: Project, m: ParamMap) -> Project {
    Project {
        version: match m.first_value("version"@) {
            Some(JsonValue::Str(s)) => s,
            _ => p.version,
        },
        minor_version: match m.first_value("minor_version"@) {
            Some(JsonValue::Number(JsonNumber::PosInt(u))) => u as u32,
            _ => p.minor_version,
        },
        build_mode: match m.first_value("build_mode"@) {
            Some(JsonValue::Str(s)) => if s@ == "test"@ {
                BuildMode::Test
            } else if s@ == "pre"@ {
                BuildMode::Pre
            } else {
                BuildMode::Release
            },
            _ => p.build_mode,
        },
        is_hot_update: match m.first_value("is_hot_update"@) {
            Some(JsonValue::Bool(b)) => b,
            _ => p.is_hot_update,
        },
        enable_pay: match m.first_value("enable_pay"@) {
            Some(JsonValue::Bool(b)) => b,
            _ => p.enable_pay,
        },
        review_mode: match m.first_value("review_mode"@) {
            Some(JsonValue::Bool(b)) => b,
            _ => p.review_mode,
        },
        ..p
    }
}

/// Overlays a task group's parameters on the legacy build fields of a project.
pub fn apply_group_params(project: &mut Project, params: &ParamMap)
    ensures
        *final(project) == group_applied(*old(project), *params),
{
    proof {
        reveal_strlit("version"); reveal_strlit("minor_version"); reveal_strlit("build_mode");
        reveal_strlit("is_hot_update"); reveal_strlit("enable_pay"); reveal_strlit("review_mode");
        reveal_strlit("test"); reveal_strlit("pre");
    }
    if let Some(JsonValue::Str(s)) = params.lookup("version") {
        project.version = s.clone();
    }
    if let Some(JsonValue::Number(JsonNumber::PosInt(u))) = params.lookup("minor_version") {
        project.minor_version = *u as u32;
    }
    if let Some(JsonValue::Str(s)) = params.lookup("build_mode") {
        project.build_mode = if str_eq(s.as_str(), "test") {
            BuildMode::Test
        } else if str_eq(s.as_str(), "pre") {
            BuildMode::Pre
        } else {
            BuildMode::Release
        };
    }
    if let Some(JsonValue::Bool(b)) = params.lookup("is_hot_update") {
        project.is_hot_update = *b;
    }
    if let Some(JsonValue::Bool(b)) = params.lookup("enable_pay") {
        project.enable_pay = *b;
    }
    if let Some(JsonValue::Bool(b)) = params.lookup("review_mode") {
        project.review_mode = *b;
    }
}


/// The patch that readies an entry for a new build: progress 0, pending, no
/// log, error or times.
pub open spec fn reset_patch() -> PatchView {
    PatchView {
        progress: Some(0),
        progress_if_below: None,
        progress_step_below: None,
        step_label: None,
        status: Some(PackageTaskStatus::Pending),
        last_log_path: Some(None),
        last_error: Some(None),
        started_at: Some(None),
        finished_at: Some(None),
        canceling_at_unix_secs: None,
    }
}

/// The entries after each listed id, in order, is readied for a build.
pub open spec fn prepared_views(vs: Seq<EntryView>, ids: Seq<Seq<char>>) -> Seq<EntryView>
    decreases ids.len(),
{
    if ids.len() == 0 {
        vs
    } else {
        update_views(prepared_views(vs, ids.drop_last()), ids.last(), reset_patch())
    }
}

/// The first id that names no task.
pub open spec fn first_missing_task(s: AppSettings, ids: Seq<Seq<char>>) -> Option<int> {
    first_match(ids, |id: Seq<char>| !task_listed(s, id))
}

/// The patch that marks the task being stopped.
pub open spec fn canceling_patch(now: u64) -> PatchView {
    PatchView {
        progress: None,
        progress_if_below: None,
        progress_step_below: None,
        step_label: Some("正在终止子进程…"@),
        status: Some(PackageTaskStatus::Canceling),
        last_log_path: None,
        last_error: None,
        started_at: None,
        finished_at: None,
        canceling_at_unix_secs: Some(Some(now)),
    }
}

/// The summary the control side shows, and how many builds succeeded.
#[derive(Debug, Clone, PartialEq)]
pub struct ControlStatus {
    pub summary: String,
    pub completed_jobs: u64,
}

pub open spec fn count_status(vs: Seq<PackageTaskRuntime>, f: spec_fn(PackageTaskStatus) -> bool) -> nat
    decreases vs.len(),
{
    if vs.len() == 0 {
        0
    } else {
        count_status(vs.drop_last(), f) + if f(vs.last().status) { 1nat } else { 0nat }
    }
}

pub open spec fn busy_status() -> spec_fn(PackageTaskStatus) -> bool {
    |s: PackageTaskStatus| s == PackageTaskStatus::Running || s == PackageTaskStatus::Canceling
}

pub open spec fn success_status() -> spec_fn(PackageTaskStatus) -> bool {
    |s: PackageTaskStatus| s == PackageTaskStatus::Success
}

/// The summary line of the control side.
pub open spec fn status_summary(running: nat, username: Seq<char>) -> Seq<char> {
    if running > 0 {
        "正在执行 "@ + crate::text::dec(running) + " 个构建任务"@
    } else if is_blank(username) {
        "服务运行中，尚未在控制端配置 Git 凭据"@
    } else {
        "服务运行中，等待构建任务"@
    }
}

/// The status of a task's build as the build page shows it.
pub open spec fn dto_of(e: PackageTaskRuntime, d: BuildTaskStatusDto) -> bool {
    &&& d.task_id == e.task_id
    &&& d.progress == e.progress
    &&& d.step_label == e.step_label
    &&& d.status == e.status
    &&& d.last_error == e.last_error
    &&& d.started_at == e.started_at
    &&& d.finished_at == e.finished_at
}

fn count_in(rt: &Vec<PackageTaskRuntime>, busy: bool) -> (r: usize)
    ensures
        r == (if busy { count_status(rt@, busy_status()) } else { count_status(rt@, success_status()) }),
{
    let mut n: usize = 0;
    let mut i: usize = 0;
    assert(rt@.take(0) =~= Seq::<PackageTaskRuntime>::empty());
    while i < rt.len()
        invariant
            i <= rt@.len(),
            n <= i,
            n == (if busy { count_status(rt@.take(i as int), busy_status()) } else { count_status(rt@.take(i as int), success_status()) }),
        decreases rt.len() - i,
    {
        assert(rt@.take(i + 1).drop_last() =~= rt@.take(i as int));
        let st = rt[i].status;
        let hit = if busy {
            st == PackageTaskStatus::Running || st == PackageTaskStatus::Canceling
        } else {
            st == PackageTaskStatus::Success
        };
        if hit {
            n = n + 1;
        }
        i = i + 1;
    }
    assert(rt@.take(rt@.len() as int) =~= rt@);
    n
}

impl AppCore {
    /// Readies the entries of the listed tasks for a build, in order; the
    /// first id naming no task is an error (entries readied before it stay).
    pub fn prepare_tasks_for_build(&mut self, task_ids: &Vec<String>) -> (r: Result<(), AppError>)
        ensures
            match first_missing_task(old(self).settings, views(task_ids@)) {
                Some(m) => outcome(r, Some(task_missing(task_ids@[m]@)))
                    && entry_views(final(self).runtime.package_tasks@) == prepared_views(entry_views(old(self).runtime.package_tasks@), views(task_ids@).take(m))
                    && final(self).runtime_revision == old(self).runtime_revision,
                None => r is Ok
                    && entry_views(final(self).runtime.package_tasks@) == prepared_views(entry_views(old(self).runtime.package_tasks@), views(task_ids@))
                    && final(self).runtime_revision == (if old(self).runtime_revision == u64::MAX { 0 } else { (old(self).runtime_revision + 1) as u64 }),
            },
            final(self).same_but_runtime(*old(self)),
    {
        let ghost ids = views(task_ids@);
        let ghost start = entry_views(self.runtime.package_tasks@);
        let reset = RuntimePatch {
            progress: Some(0),
            progress_if_below: None,
            progress_step_below: None,
            step_label: None,
            status: Some(PackageTaskStatus::Pending),
            last_log_path: Some(None),
            last_error: Some(None),
            started_at: Some(None),
            finished_at: Some(None),
            canceling_at_unix_secs: None,
        };
        let mut i: usize = 0;
        assert(ids.take(0) =~= Seq::<Seq<char>>::empty());
        while i < task_ids.len()
            invariant
                i <= task_ids@.len(),
                ids == views(task_ids@),
                reset@ == reset_patch(),
                forall|j: int| 0 <= j < i ==> task_listed(self.settings, #[trigger] ids[j]),
                entry_views(self.runtime.package_tasks@) == prepared_views(start, ids.take(i as int)),
                self.same_but_runtime(*old(self)),
                self.runtime_revision == old(self).runtime_revision,
                start == entry_views(old(self).runtime.package_tasks@),
            decreases task_ids.len() - i,
        {
            assert(ids[i as int] == task_ids@[i as int]@);
            if find_task_index(&self.settings.package_tasks, task_ids[i].as_str()).is_none() {
                proof {
                    lemma_first_match(ids, |id: Seq<char>| !task_listed(self.settings, id), i as int);
                }
                return Err(AppError::NotFound(concat2("未找到任务 ", task_ids[i].as_str())));
            }
            assert(ids.take(i + 1).drop_last() =~= ids.take(i as int));
            let _ = patch_entry(&mut self.runtime.package_tasks, task_ids[i].as_str(), &reset);
            i = i + 1;
        }
        assert(ids.take(ids.len() as int) =~= ids);
        proof { lemma_no_match(ids, |id: Seq<char>| !task_listed(self.settings, id)); }
        self.mark_runtime_updated();
        Ok(())
    }

    /// Asks the build in progress to stop its current task: the task must be
    /// the active one and a stop signal must exist. The signal is raised,
    /// then the task's entry is marked as stopping (with the time of the
    /// request).
    pub fn cancel_active_build(&mut self, task_id: &str, now_unix_secs: u64) -> (r: Result<(), AppError>)
        ensures
            opt_view(old(self).active_task_id) != Some(task_id@) ==> outcome(r, Some((ErrorKind::Conflict, "该任务不是当前正在执行的构建任务"@))) && *final(self) == *old(self),
            opt_view(old(self).active_task_id) == Some(task_id@) && old(self).cancel_signal is None ==> outcome(r, Some((ErrorKind::Conflict, "当前没有可终止的打包任务"@))) && *final(self) == *old(self),
            opt_view(old(self).active_task_id) == Some(task_id@) && old(self).cancel_signal is Some ==> {
                &&& final(self).cancel_signal == Some(true)
                &&& final(self).settings == old(self).settings
                &&& final(self).build_in_progress == old(self).build_in_progress
                &&& final(self).active_task_id == old(self).active_task_id
                &&& outcome(r, if task_listed(old(self).settings, task_id@) { None } else { Some(task_missing(task_id@)) })
                &&& r is Ok ==> entry_views(final(self).runtime.package_tasks@) == update_views(entry_views(old(self).runtime.package_tasks@), task_id@, canceling_patch(now_unix_secs))
                &&& r is Err ==> final(self).runtime == old(self).runtime
            },
    {
        proof { reveal_strlit("正在终止子进程…"); }
        let is_active = match &self.active_task_id {
            Some(a) => str_eq(a.as_str(), task_id),
            None => false,
        };
        if !is_active {
            return Err(AppError::Conflict("该任务不是当前正在执行的构建任务".to_string()));
        }
        if self.cancel_signal.is_none() {
            return Err(AppError::Conflict("当前没有可终止的打包任务".to_string()));
        }
        self.cancel_signal = Some(true);
        let label = "正在终止子进程…".to_string();
        let patch = RuntimePatch {
            progress: None,
            progress_if_below: None,
            progress_step_below: None,
            step_label: Some(label),
            status: Some(PackageTaskStatus::Canceling),
            last_log_path: None,
            last_error: None,
            started_at: None,
            finished_at: None,
            canceling_at_unix_secs: Some(Some(now_unix_secs)),
        };
        assert(patch@ == canceling_patch(now_unix_secs));
        let r = self.update_task_runtime(task_id, &patch);
        match r {
            Ok(_) => Ok(()),
            Err(e) => Err(e),
        }
    }
}


impl AppCore {
    /// The settings as the pages see them: with the credentials, and each
    /// task showing its run-time entry.
    pub fn get_settings(&self) -> (r: AppSettings)
        ensures
            settings_shown(*self, r),
    {
        let s = AppSettings {
            engines: dup_engines(&self.settings.engines),
            projects: dup_projects(&self.settings.projects),
            git_config: self.git_config.dup(),
            feishu_bots: dup_bots(&self.settings.feishu_bots),
            package_tasks: dup_tasks(&self.settings.package_tasks),
            task_groups: dup_groups(&self.settings.task_groups),
            param_definitions: dup_definitions(&self.settings.param_definitions),
        };
        let ghost tasks = s.package_tasks@;
        let r = apply_runtime_state(s, &self.runtime);
        assert forall|i: int| 0 <= i < r.package_tasks@.len() implies same_task(#[trigger] r.package_tasks@[i], merged_task(self.settings.package_tasks@[i], self.runtime.package_tasks@)) by {
            assert(same_task(tasks[i], self.settings.package_tasks@[i]));
        }
        r
    }

    /// The build status of the listed tasks: their run-time entries, in the
    /// order of the entries.
    pub fn get_build_status(&self) -> (r: BuildStatusResponse)
        ensures
            r.package_tasks@.len() == entries_for_tasks(self.runtime.package_tasks@, self.settings.package_tasks@).len(),
            forall|i: int| 0 <= i < r.package_tasks@.len() ==> dto_of(entries_for_tasks(self.runtime.package_tasks@, self.settings.package_tasks@)[i], #[trigger] r.package_tasks@[i]),
    {
        let entries = self.all_task_runtimes();
        let mut kept = entries;
        retain_entries_for_tasks(&mut kept, &self.settings.package_tasks);
        let mut out: Vec<BuildTaskStatusDto> = Vec::new();
        let mut i: usize = 0;
        while i < kept.len()
            invariant
                i <= kept@.len(),
                out@.len() == i,
                forall|j: int| 0 <= j < i ==> dto_of(kept@[j], #[trigger] out@[j]),
            decreases kept.len() - i,
        {
            let e = &kept[i];
            out.push(BuildTaskStatusDto {
                task_id: e.task_id.clone(),
                progress: e.progress,
                step_label: e.step_label.clone(),
                status: e.status,
                last_error: dup_string_opt(&e.last_error),
                started_at: dup_string_opt(&e.started_at),
                finished_at: dup_string_opt(&e.finished_at),
            });
            i = i + 1;
        }
        BuildStatusResponse { package_tasks: out }
    }

    /// What the control side shows: how many builds run, whether credentials
    /// are set, and how many builds succeeded.
    pub fn control_status(&self) -> (r: ControlStatus)
        ensures
            r.summary@ == status_summary(count_status(self.runtime.package_tasks@, busy_status()), self.git_config.username@),
            r.completed_jobs == count_status(self.runtime.package_tasks@, success_status()),
    {
        let running = count_in(&self.runtime.package_tasks, true);
        let completed = count_in(&self.runtime.package_tasks, false);
        let summary = if running > 0 {
            let n = u64_to_string(running as u64);
            crate::text::concat3("正在执行 ", n.as_str(), " 个构建任务")
        } else if is_blank_str(self.git_config.username.as_str()) {
            "服务运行中，尚未在控制端配置 Git 凭据".to_string()
        } else {
            "服务运行中，等待构建任务".to_string()
        };
        ControlStatus { summary, completed_jobs: completed as u64 }
    }

    /// A listed task, as the pages see it.
    pub fn find_task(&self, task_id: &str) -> (r: Result<PackageTask, AppError>)
        ensures
            match first_match(self.settings.package_tasks@, task_matches(task_id@)) {
                Some(i) => r matches Ok(t) && same_task(t, merged_task(self.settings.package_tasks@[i], self.runtime.package_tasks@)),
                None => outcome(r, Some(task_missing(task_id@))),
            },
    {
        match find_task_index(&self.settings.package_tasks, task_id) {
            Some(i) => {
                proof { lemma_first_match(self.settings.package_tasks@, task_matches(task_id@), i as int); }
                let t = self.settings.package_tasks[i].dup();
                let mut one: Vec<PackageTask> = Vec::new();
                one.push(t);
                let s = AppSettings {
                    engines: Vec::new(),
                    projects: Vec::new(),
                    git_config: GitConfig { username: String::new(), password: String::new() },
                    feishu_bots: Vec::new(),
                    package_tasks: one,
                    task_groups: Vec::new(),
                    param_definitions: Vec::new(),
                };
                let ghost t0 = s.package_tasks@[0];
                let mut merged = apply_runtime_state(s, &self.runtime);
                assert(merged.package_tasks@.len() == 1);
                let r = merged.package_tasks.remove(0);
                assert(r == merged_task(t0, self.runtime.package_tasks@));
                Ok(r)
            },
            None => {
                proof {
                    lemma_no_match(self.settings.package_tasks@, task_matches(task_id@));
                }
                Err(AppError::NotFound(concat2("未找到任务 ", task_id)))
            },
        }
    }

    /// The project named by an id or a name.
    pub fn find_project(&self, project_ref: &str) -> (r: Result<Project, AppError>)
        ensures
            match first_match(self.settings.projects@, project_matches(project_ref@)) {
                Some(i) => r == Ok::<Project, AppError>(self.settings.projects@[i]),
                None => outcome(r, Some((ErrorKind::NotFound, "未找到项目 "@ + project_ref@))),
            },
    {
        find_project_in(&self.settings.projects, project_ref)
    }

    pub fn find_engine(&self, engine_name: &str) -> (r: Result<Engine, AppError>)
        ensures
            match first_match(self.settings.engines@, engine_matches(engine_name@)) {
                Some(i) => r == Ok::<Engine, AppError>(self.settings.engines@[i]),
                None => outcome(r, Some((ErrorKind::NotFound, "未找到引擎 "@ + engine_name@))),
            },
    {
        find_engine_in(&self.settings.engines, engine_name)
    }

    pub fn find_task_group(&self, group_id: &str) -> (r: Result<TaskGroup, AppError>)
        ensures
            match first_match(self.settings.task_groups@, group_matches(group_id@)) {
                Some(i) => r matches Ok(g) && same_group(g, self.settings.task_groups@[i]),
                None => outcome(r, Some((ErrorKind::NotFound, "未找到任务组 "@ + group_id@))),
            },
    {
        find_group_in(&self.settings.task_groups, group_id)
    }

    /// Keeps only the run-time entries of the tasks of the given settings.
    pub fn retain_runtime_for_settings(&mut self, settings: &AppSettings)
        ensures
            final(self).runtime.package_tasks@ == entries_for_tasks(old(self).runtime.package_tasks@, settings.package_tasks@),
            final(self).same_but_runtime(*old(self)),
            final(self).runtime_revision == old(self).runtime_revision,
    {
        retain_entries_for_tasks(&mut self.runtime.package_tasks, &settings.package_tasks);
    }

    /// Takes new settings (as written to disk).
    pub fn replace_settings(&mut self, settings: AppSettings)
        ensures
            final(self).settings == settings,
            final(self).runtime == old(self).runtime,
            final(self).git_config == old(self).git_config,
            final(self).build_in_progress == old(self).build_in_progress,
            final(self).cancel_signal == old(self).cancel_signal,
            final(self).active_task_id == old(self).active_task_id,
            final(self).runtime_revision == old(self).runtime_revision,
            final(self).persisted_revision == old(self).persisted_revision,
    {
        self.settings = settings;
    }

    /// Saves settings: they are normalized and stripped of credentials and
    /// run-time fields, the run-time entries of tasks no longer listed are
    /// dropped, and the stripped settings are held (as they are to be
    /// written to disk).
    pub fn save_settings(&mut self, settings: AppSettings, counter: &mut crate::ids::IdCounter)
        ensures
            saved_as(*old(self), *final(self), settings),
    {
        let n = crate::migration::normalize_settings(settings, counter);
        let ghost gn = n;
        let (normalized, _) = n;
        let stripped = crate::runtime::strip_runtime_from_settings(normalized);
        assert(crate::migration::settings_normalized(settings, gn) && crate::runtime::settings_stripped(gn.0, stripped));
        retain_entries_for_tasks(&mut self.runtime.package_tasks, &stripped.package_tasks);
        self.settings = stripped;
    }

    /// Saves the settings the page sends: they are applied to the settings as
    /// shown (normalized, checked, the groups' parameters derived again) and
    /// saved. Nothing changes on an error.
    pub fn save_public_settings(&mut self, update: PublicSettingsUpdate, counter: &mut crate::ids::IdCounter) -> (r: Result<(), AppError>)
        requires
            crate::params::groups_wf(old(self).settings.task_groups@),
        ensures
            exists|cur: AppSettings, res: Result<AppSettings, AppError>|
                #![trigger crate::params::public_update_applied(cur, update, res)]
                settings_shown(*old(self), cur) && crate::params::public_update_applied(cur, update, res)
                && match res {
                    Err(e) => r == Err::<(), AppError>(e) && *final(self) == *old(self),
                    Ok(s) => r is Ok && saved_as(*old(self), *final(self), s),
                },
    {
        let current = self.get_settings();
        let ghost cur = current;
        assert(crate::params::groups_wf(current.task_groups@)) by {
            assert forall|i: int| 0 <= i < current.task_groups@.len() implies (#[trigger] current.task_groups@[i]).params.wf() by {
                assert(same_group(current.task_groups@[i], self.settings.task_groups@[i]));
            }
        }
        let res = crate::params::apply_public_settings(current, update);
        let ghost gres = res;
        match res {
            Err(e) => {
                assert(settings_shown(*old(self), cur) && crate::params::public_update_applied(cur, update, gres));
                Err(e)
            },
            Ok(s) => {
                let ghost gs = s;
                self.save_settings(s, counter);
                assert(settings_shown(*old(self), cur) && crate::params::public_update_applied(cur, update, gres));
                Ok(())
            },
        }
    }

    /// Takes new credentials.
    pub fn set_git_config(&mut self, git_config: GitConfig)
        ensures
            final(self).git_config == git_config,
            final(self).settings == old(self).settings,
            final(self).runtime == old(self).runtime,
            final(self).build_in_progress == old(self).build_in_progress,
            final(self).cancel_signal == old(self).cancel_signal,
            final(self).active_task_id == old(self).active_task_id,
            final(self).runtime_revision == old(self).runtime_revision,
            final(self).persisted_revision == old(self).persisted_revision,
    {
        self.git_config = git_config;
    }
}



/// The problem resolving a task's project and group, if any.
pub open spec fn context_problem(s: AppSettings, t: PackageTask) -> Option<Problem> {
    if !is_blank(t.task_group_id@) {
        match first_match(s.task_groups@, group_matches(t.task_group_id@)) {
            None => Some((ErrorKind::NotFound, "未找到任务组 "@ + t.task_group_id@)),
            Some(gi) => match first_match(s.projects@, project_matches(s.task_groups@[gi].project_id@)) {
                None => Some((ErrorKind::NotFound, "未找到项目 "@ + s.task_groups@[gi].project_id@)),
                Some(_) => None,
            },
        }
    } else {
        match t.project {
            None => Some((ErrorKind::Validation, "任务 "@ + t.name@ + " 未绑定项目"@)),
            Some(tp) => match first_match(s.projects@, project_matches(tp.project_id@)) {
                None => Some((ErrorKind::NotFound, "未找到项目 "@ + tp.project_id@)),
                Some(_) => None,
            },
        }
    }
}

/// `r` is the project and group a task builds with: its task group and that
/// group's project (with the group's parameters on the legacy fields), or,
/// for a task of the old shape, its bound project and a group made from the
/// task's group name and branch.
pub open spec fn task_context(s: AppSettings, t: PackageTask, r: (Project, TaskGroup)) -> bool {
    if !is_blank(t.task_group_id@) {
        let gi = first_match(s.task_groups@, group_matches(t.task_group_id@))->0;
        let g = s.task_groups@[gi];
        let pi = first_match(s.projects@, project_matches(g.project_id@))->0;
        &&& same_group(r.1, g)
        &&& r.0 == group_applied(s.projects@[pi], g.params)
    } else {
        let tp = t.project->0;
        let pi = first_match(s.projects@, project_matches(tp.project_id@))->0;
        &&& r.0 == s.projects@[pi]
        &&& r.1.id@.len() == 0
        &&& r.1.project_id == tp.project_id
        &&& r.1.name == t.group
        &&& r.1.branch == tp.branch
        &&& r.1.description@.len() == 0
        &&& r.1.params.entries@.len() == 0
        &&& r.1.presets@.len() == 0
        &&& r.1.hidden_params@.len() == 0
        &&& r.1.order == 0
    }
}

impl AppCore {
    /// The project and task group a task builds with.
    pub fn resolve_task_context(&self, task: &PackageTask) -> (r: Result<(Project, TaskGroup), AppError>)
        ensures
            outcome(r, context_problem(self.settings, *task)),
            r matches Ok(c) ==> task_context(self.settings, *task, c),
    {
        if !is_blank_str(task.task_group_id.as_str()) {
            let group = self.find_task_group(task.task_group_id.as_str())?;
            let mut project = self.find_project(group.project_id.as_str())?;
            apply_group_params(&mut project, &group.params);
            return Ok((project, group));
        }
        let legacy = match &task.project {
            Some(p) => p,
            None => {
                let m = crate::text::concat3("任务 ", task.name.as_str(), " 未绑定项目");
                return Err(AppError::Validation(m));
            },
        };
        let project = self.find_project(legacy.project_id.as_str())?;
        let group = TaskGroup {
            id: String::new(),
            project_id: legacy.project_id.clone(),
            name: task.group.clone(),
            description: String::new(),
            branch: legacy.branch.clone(),
            params: ParamMap::new(),
            presets: Vec::new(),
            hidden_params: Vec::new(),
            order: 0,
        };
        Ok((project, group))
    }
}


/// When some entry is for `id`, the first one is found, no later than it.
pub proof fn lemma_first_entry_complete(vs: Seq<EntryView>, id: Seq<char>, k: int)
    requires
        0 <= k < vs.len(),
        vs[k].task_id == id,
    ensures
        first_entry_index(vs, id) matches Some(i) && i <= k && vs[i].task_id == id,
    decreases k,
{
    if exists|j: int| 0 <= j < k && vs[j].task_id == id {
        let j = choose|j: int| 0 <= j < k && vs[j].task_id == id;
        lemma_first_entry_complete(vs, id, j);
    } else {
        lemma_first_entry_index(vs, id, k);
    }
}

/// The first entry for `id`, when there is one, is for `id` and none before it is.
pub proof fn lemma_first_entry_sound(vs: Seq<EntryView>, id: Seq<char>)
    ensures
        first_entry_index(vs, id) matches Some(i) ==> 0 <= i < vs.len() && vs[i].task_id == id && forall|j: int| 0 <= j < i ==> vs[j].task_id != id,
        first_entry_index(vs, id) is None ==> forall|j: int| 0 <= j < vs.len() ==> vs[j].task_id != id,
{
    if first_entry_index(vs, id) is None {
        assert forall|j: int| 0 <= j < vs.len() implies vs[j].task_id != id by {
            if vs[j].task_id == id {
                lemma_first_entry_complete(vs, id, j);
            }
        }
    }
}

/// Reading a task's entry after a change to it gives the changed entry (the
/// entry it had, or a new empty one, with the patch applied); the entries of
/// other tasks read as before.
pub proof fn law_read_after_update(vs: Seq<EntryView>, id: Seq<char>, p: PatchView, other: Seq<char>)
    requires
        other != id,
    ensures
        entry_for(update_views(vs, id, p), id) == Some(patch_view(
            match entry_for(vs, id) {
                Some(x) => x,
                None => fresh_view(id),
            },
            p,
        )),
        entry_for(update_views(vs, id, p), other) == entry_for(vs, other),
{
    let nv = update_views(vs, id, p);
    lemma_first_entry_sound(vs, id);
    lemma_first_entry_sound(vs, other);
    match first_entry_index(vs, id) {
        Some(i) => {
            lemma_first_entry_index(nv, id, i);
            match first_entry_index(vs, other) {
                Some(k) => {
                    assert(k != i);
                    lemma_first_entry_index(nv, other, k);
                },
                None => {
                    assert forall|j: int| 0 <= j < nv.len() implies nv[j].task_id != other by {}
                    lemma_first_entry_sound(nv, other);
                    if first_entry_index(nv, other) is Some {
                        let k = first_entry_index(nv, other)->0;
                        assert(nv[k].task_id == other);
                    }
                },
            }
        },
        None => {
            lemma_first_entry_index(nv, id, vs.len() as int);
            match first_entry_index(vs, other) {
                Some(k) => {
                    lemma_first_entry_index(nv, other, k);
                },
                None => {
                    lemma_first_entry_sound(nv, other);
                    if first_entry_index(nv, other) is Some {
                        let k = first_entry_index(nv, other)->0;
                        assert(nv[k].task_id == other);
                    }
                },
            }
        },
    }
}

/// After readying tasks for a build, each of them reads as pending, at
/// progress 0, with no log, error or times.
pub proof fn law_prepared_tasks_are_reset(vs: Seq<EntryView>, ids: Seq<Seq<char>>, k: int)
    requires
        0 <= k < ids.len(),
    ensures
        entry_for(prepared_views(vs, ids), ids[k]) matches Some(e) && e.progress == 0
            && e.status == PackageTaskStatus::Pending && e.last_log_path is None && e.last_error is None
            && e.started_at is None && e.finished_at is None,
    decreases ids.len(),
{
    let prev = prepared_views(vs, ids.drop_last());
    if ids.last() == ids[k] {
        assert(ids[k].push('x').len() != ids[k].len());
        law_read_after_update(prev, ids[k], reset_patch(), ids[k].push('x'));
    } else {
        law_prepared_tasks_are_reset(vs, ids.drop_last(), k);
        law_read_after_update(prev, ids.last(), reset_patch(), ids[k]);
    }
}


/// After a restart, reading a task's entry finds an entry exactly when one
/// was read from disk; a build it had under way (running or stopping) now
/// reads as failed with the restart message and the finish time, keeping its
/// progress, log and start time; any other entry reads as it was. No entry
/// reads as under way.
pub proof fn law_restart_reads_failed(old: Seq<PackageTaskRuntime>, new: Seq<PackageTaskRuntime>, finished_at: Seq<char>, id: Seq<char>)
    requires
        new.len() == old.len(),
        forall|i: int| 0 <= i < new.len() ==> crate::runtime::restarted_entry(old[i], finished_at, #[trigger] new[i]),
    ensures
        entry_for(entry_views(new), id) is Some <==> entry_for(entry_views(old), id) is Some,
        entry_for(entry_views(old), id) matches Some(x) ==> (entry_for(entry_views(new), id) matches Some(y) && if crate::runtime::is_active_status(x.status) {
            &&& y.status == PackageTaskStatus::Failed
            &&& y.progress == x.progress
            &&& y.last_log_path == x.last_log_path
            &&& y.started_at == x.started_at
            &&& y.last_error == Some("后端已重启，上一次打包被中断"@)
            &&& y.finished_at == Some(finished_at)
        } else {
            y == x
        }),
        entry_for(entry_views(new), id) matches Some(y) ==> !crate::runtime::is_active_status(y.status),
{
    let vo = entry_views(old);
    let vn = entry_views(new);
    assert forall|j: int| 0 <= j < new.len() implies (#[trigger] vn[j]).task_id == vo[j].task_id by {
        assert(crate::runtime::restarted_entry(old[j], finished_at, new[j]));
    }
    match first_entry_index(vo, id) {
        Some(i) => {
            assert(0 <= i < vo.len() && vo[i].task_id == id && forall|j: int| 0 <= j < i ==> vo[j].task_id != id);
            assert forall|j: int| 0 <= j < i implies vn[j].task_id != id by {
                assert(vo[j].task_id != id);
            }
            lemma_first_entry_index(vn, id, i);
            assert(crate::runtime::restarted_entry(old[i], finished_at, new[i]));
            assert(vn[i] == new[i]@);
            assert(vo[i] == old[i]@);
        },
        None => {
            if first_entry_index(vn, id) is Some {
                let k = first_entry_index(vn, id)->0;
                assert(0 <= k < vn.len() && vn[k].task_id == id && forall|j: int| 0 <= j < k ==> vn[j].task_id != id);
                assert forall|j: int| 0 <= j < k implies vo[j].task_id != id by {
                    assert(vn[j].task_id != id);
                }
                lemma_first_entry_index(vo, id, k);
            }
        },
    }
    if first_entry_index(vn, id) is Some {
        let k = first_entry_index(vn, id)->0;
        assert(0 <= k < vn.len());
        assert(crate::runtime::restarted_entry(old[k], finished_at, new[k]));
        assert(vn[k] == new[k]@);
    }
}

/// What loading gives, as far as the settings go: the settings held are
/// `settings` normalized (`n`) and stripped, `settings_changed` is what
/// normalization reported, and when no run-time state was read the entries
/// are those the normalized tasks carry, restarted.
pub open spec fn loaded_from(settings: AppSettings, runtime: Option<RuntimeState>, finished_at: Seq<char>, core: AppCore, settings_changed: bool) -> bool {
    exists|n: (AppSettings, bool)| #[trigger] loaded_through(settings, n, runtime, finished_at, core, settings_changed)
}

/// `loaded_from`, with the normalized settings `n` given.
pub open spec fn loaded_through(settings: AppSettings, n: (AppSettings, bool), runtime: Option<RuntimeState>, finished_at: Seq<char>, core: AppCore, settings_changed: bool) -> bool {
    &&& crate::migration::settings_normalized(settings, n)
    &&& crate::runtime::settings_stripped(n.0, core.settings)
    &&& settings_changed == n.1
    &&& runtime is None ==> {
        &&& core.runtime.package_tasks@.len() == n.0.package_tasks@.len()
        &&& forall|i: int| 0 <= i < n.0.package_tasks@.len() ==>
            crate::runtime::restarted_task_entry(n.0.package_tasks@[i], finished_at, #[trigger] core.runtime.package_tasks@[i])
    }
}

impl AppCore {
    /// The state at start-up, from the settings and run-time state read from
    /// disk (`None` when there was none): settings normalized, run-time
    /// entries taken from the settings when none were read, builds left under
    /// way marked failed, credentials kept in memory only. Also returns
    /// whether the settings and the run-time state changed (and should be
    /// written back).
    pub fn load(settings: AppSettings, runtime: Option<RuntimeState>, finished_at: &str, counter: &mut crate::ids::IdCounter) -> (r: (AppCore, bool, bool))
        ensures
            !r.0.build_in_progress,
            r.0.cancel_signal is None,
            r.0.active_task_id is None,
            r.0.runtime_revision == 0,
            r.0.persisted_revision == 0,
            r.0.settings.git_config.username@.len() == 0,
            r.0.settings.git_config.password@.len() == 0,
            r.0.git_config == settings.git_config,
            r.0.settings.engines == settings.engines,
            crate::migration::identities_normalized(settings.projects@, r.0.settings.projects@),
            loaded_from(settings, runtime, finished_at@, r.0, r.1),
            r.0.settings.package_tasks@.len() == settings.package_tasks@.len(),
            forall|i: int| 0 <= i < settings.package_tasks@.len() ==> (#[trigger] r.0.settings.package_tasks@[i]).id@ == settings.package_tasks@[i].id@,
            forall|i: int| 0 <= i < r.0.runtime.package_tasks@.len() ==> !crate::runtime::is_active_status(#[trigger] r.0.runtime.package_tasks@[i].status),
            runtime is Some ==> r.0.runtime.package_tasks@.len() == runtime->0.package_tasks@.len()
                && forall|i: int| 0 <= i < r.0.runtime.package_tasks@.len() ==> crate::runtime::restarted_entry(runtime->0.package_tasks@[i], finished_at@, #[trigger] r.0.runtime.package_tasks@[i]),
            runtime is Some ==> r.2 == exists|i: int| 0 <= i < runtime->0.package_tasks@.len() && crate::runtime::is_active_status(#[trigger] runtime->0.package_tasks@[i].status),
            runtime is None ==> r.2 == exists|i: int| 0 <= i < settings.package_tasks@.len() && crate::runtime::is_active_status(#[trigger] settings.package_tasks@[i].status),
    {
        let (normalized, settings_changed) = crate::migration::normalize_settings(settings, counter);
        let ghost gn = (normalized, settings_changed);
        let rt = match runtime {
            Some(rt) => rt,
            None => crate::runtime::extract_runtime_state(&normalized),
        };
        proof {
            if runtime is None {
                let tasks = normalized.package_tasks@;
                let tb = choose|tb: Seq<PackageTask>, gd: Seq<TaskGroup>|
                    #![trigger crate::migration::projects_bound(settings.package_tasks@, normalized.projects@, tb), crate::migration::groups_filled(normalized.projects@, gd, normalized.task_groups@)]
                    crate::migration::projects_bound(settings.package_tasks@, normalized.projects@, tb)
                    && crate::migration::groups_migrated(tb, settings.task_groups@, normalized.projects@, tasks, gd)
                    && crate::migration::groups_filled(normalized.projects@, gd, normalized.task_groups@);
                let (tb, gd) = tb;
                assert forall|i: int| 0 <= i < tasks.len() implies (#[trigger] tasks[i]).status == settings.package_tasks@[i].status by {
                    assert(crate::migration::task_migrated(settings.task_groups@, gd, tb[i], i, tasks[i]));
                    assert(tb[i] == crate::migration::with_project(settings.package_tasks@[i], tb[i].project));
                }
                assert(rt.package_tasks@.len() == tasks.len());
                assert forall|i: int| 0 <= i < rt.package_tasks@.len() implies (#[trigger] rt.package_tasks@[i]).status == settings.package_tasks@[i].status by {
                    assert(crate::runtime::runtime_from_task(tasks[i], rt.package_tasks@[i]));
                }
            }
        }
        let ghost rt0 = rt.package_tasks@;
        let (rt, runtime_changed) = crate::runtime::normalize_runtime_state_on_startup(rt, finished_at);
        proof {
            assert forall|i: int| 0 <= i < rt.package_tasks@.len() implies !crate::runtime::is_active_status(#[trigger] rt.package_tasks@[i].status) by {
                crate::runtime::law_restart_leaves_no_build(rt0[i], finished_at@, rt.package_tasks@[i]);
            }
            if runtime is None {
                if runtime_changed {
                    let i = choose|i: int| 0 <= i < rt0.len() && crate::runtime::is_active_status(#[trigger] rt0[i].status);
                    assert(crate::runtime::is_active_status(settings.package_tasks@[i].status));
                }
                if exists|i: int| 0 <= i < settings.package_tasks@.len() && crate::runtime::is_active_status(#[trigger] settings.package_tasks@[i].status) {
                    let i = choose|i: int| 0 <= i < settings.package_tasks@.len() && crate::runtime::is_active_status(#[trigger] settings.package_tasks@[i].status);
                    assert(crate::runtime::is_active_status(rt0[i].status));
                }
            }
        }
        let git_config = normalized.git_config.dup();
        let stripped = crate::runtime::strip_runtime_from_settings(normalized);
        let core = AppCore::new(stripped, git_config, rt);
        proof {
            lemma_normalized_task_ids(settings, gn, core.settings);
            if runtime is None {
                assert forall|i: int| 0 <= i < gn.0.package_tasks@.len() implies
                    crate::runtime::restarted_task_entry(gn.0.package_tasks@[i], finished_at@, #[trigger] core.runtime.package_tasks@[i]) by {
                    assert(crate::runtime::runtime_from_task(gn.0.package_tasks@[i], rt0[i]));
                    assert(crate::runtime::restarted_entry(rt0[i], finished_at@, core.runtime.package_tasks@[i]));
                }
                assert(core.runtime.package_tasks@.len() == gn.0.package_tasks@.len());
                assert(crate::migration::settings_normalized(settings, gn));
                assert(crate::runtime::settings_stripped(gn.0, core.settings));
                assert(settings_changed == gn.1);
                assert(loaded_through(settings, gn, runtime, finished_at@, core, settings_changed));
            } else {
                assert(loaded_through(settings, gn, runtime, finished_at@, core, settings_changed));
            }
        }
        (core, settings_changed, runtime_changed)
    }
}

} // verus!
