//! Settings as they are loaded: unique project identities, task bindings
//! resolved to project ids, and tasks of the old shape moved into task groups.

use vstd::prelude::*;
use crate::ids::{IdCounter, normalize_project_field, is_fresh_field_value};
use crate::json::{JsonNumber, JsonValue};
use crate::models::{
    AppSettings, BuildMode, build_mode_text, PackageTask, ParamDefinition, ParamKind, Project, TaskGroup, TaskProjectConfig,
};
use crate::ids::{fresh_text, fresh_from, with_suffix};
use crate::state::{first_match, lemma_first_match, lemma_no_match};
use crate::param_map::ParamMap;
use crate::text::{trim, trim_str, is_blank, str_eq, views, copy_string};

verus! {

/// The parameters a task group takes from a project's legacy build fields.
pub open spec fn legacy_params_of(p: Project, m: ParamMap) -> bool {
    &&& m.wf()
    &&& forall|k: Seq<char>| #[trigger] m.has_key(k) <==> (k == "version"@ || k == "minor_version"@ || k == "build_mode"@
        || k == "is_hot_update"@ || k == "enable_pay"@ || k == "review_mode"@)
    &&& m.spec_get("version"@) matches Some(JsonValue::Str(s)) && s@ == p.version@
    &&& m.spec_get("minor_version"@) == Some(JsonValue::Number(JsonNumber::PosInt(p.minor_version as u64)))
    &&& m.spec_get("build_mode"@) matches Some(JsonValue::Str(s)) && s@ == build_mode_text(p.build_mode)
    &&& m.spec_get("is_hot_update"@) == Some(JsonValue::Bool(p.is_hot_update))
    &&& m.spec_get("enable_pay"@) == Some(JsonValue::Bool(p.enable_pay))
    &&& m.spec_get("review_mode"@) == Some(JsonValue::Bool(p.review_mode))
}

/// A project's legacy build fields as task group parameters.
pub fn legacy_project_params(project: &Project) -> (m: ParamMap)
    ensures
        legacy_params_of(*project, m),
{
    proof {
        reveal_strlit("version"); reveal_strlit("minor_version"); reveal_strlit("build_mode");
        reveal_strlit("is_hot_update"); reveal_strlit("enable_pay"); reveal_strlit("review_mode");
    }
    let ghost keys = seq!["version"@, "minor_version"@, "build_mode"@, "is_hot_update"@, "enable_pay"@, "review_mode"@];
    assert(keys[0].len() == 7 && keys[1].len() == 13 && keys[2].len() == 10 && keys[3].len() == 13 && keys[4].len() == 10 && keys[5].len() == 11);
    assert(keys[1][0] != keys[3][0]);
    assert(keys[2][0] != keys[4][0]);
    let mut m = ParamMap::new();
    assert(forall|k: Seq<char>| !m.has_key(k));
    m.insert("version".to_string(), JsonValue::Str(project.version.clone()));
    m.insert("minor_version".to_string(), JsonValue::Number(JsonNumber::PosInt(project.minor_version as u64)));
    m.insert("build_mode".to_string(), JsonValue::Str(project.build_mode.as_str().to_string()));
    m.insert("is_hot_update".to_string(), JsonValue::Bool(project.is_hot_update));
    m.insert("enable_pay".to_string(), JsonValue::Bool(project.enable_pay));
    m.insert("review_mode".to_string(), JsonValue::Bool(project.review_mode));
    m
}


/// A definition with the given fields (a text default given by its characters).
pub open spec fn definition_is(
    d: ParamDefinition,
    key: Seq<char>,
    label: Seq<char>,
    kind: ParamKind,
    options: Seq<Seq<char>>,
    default_text: Option<Seq<char>>,
    default_other: JsonValue,
    required: bool,
    order: u32,
    description: Seq<char>,
) -> bool {
    &&& d.key@ == key
    &&& d.label@ == label
    &&& d.kind == kind
    &&& views(d.options@) == options
    &&& match default_text {
        Some(t) => d.default_value matches JsonValue::Str(s) && s@ == t,
        None => d.default_value == default_other,
    }
    &&& d.required == required
    &&& d.order == order
    &&& d.description@ == description
}

/// The parameter definitions that stand for the legacy build fields.
pub open spec fn legacy_definitions(ds: Seq<ParamDefinition>) -> bool {
    &&& ds.len() == 6
    &&& definition_is(ds[0], "version"@, "版本号"@, ParamKind::Text, seq![], Some("1.0.0"@), JsonValue::Null, true, 0, "主版本号"@)
    &&& definition_is(ds[1], "minor_version"@, "小版本"@, ParamKind::Number, seq![], None, JsonValue::Number(JsonNumber::PosInt(0)), true, 1, seq![])
    &&& definition_is(ds[2], "build_mode"@, "构建模式"@, ParamKind::Select, seq!["test"@, "pre"@, "release"@], Some("release"@), JsonValue::Null, true, 2, seq![])
    &&& definition_is(ds[3], "is_hot_update"@, "热更新"@, ParamKind::Switch, seq![], None, JsonValue::Bool(false), false, 3, seq![])
    &&& definition_is(ds[4], "enable_pay"@, "支付"@, ParamKind::Switch, seq![], None, JsonValue::Bool(false), false, 4, seq![])
    &&& definition_is(ds[5], "review_mode"@, "审核模式"@, ParamKind::Switch, seq![], None, JsonValue::Bool(false), false, 5, seq![])
}

fn definition(key: &str, label: &str, kind: ParamKind, options: Vec<String>, default_value: JsonValue, required: bool, order: u32, description: &str) -> (d: ParamDefinition)
    ensures
        d.key@ == key@,
        d.label@ == label@,
        d.kind == kind,
        d.options@ == options@,
        d.default_value == default_value,
        d.required == required,
        d.order == order,
        d.description@ == description@,
{
    ParamDefinition {
        key: copy_string(key),
        label: copy_string(label),
        kind,
        options,
        default_value,
        required,
        order,
        description: copy_string(description),
    }
}

pub fn legacy_param_definitions() -> (ds: Vec<ParamDefinition>)
    ensures
        legacy_definitions(ds@),
{
    let mut ds: Vec<ParamDefinition> = Vec::new();
    let empty: Vec<String> = Vec::new();
    assert(views(empty@) =~= seq![]);
    ds.push(definition("version", "版本号", ParamKind::Text, Vec::new(), JsonValue::Str("1.0.0".to_string()), true, 0, "主版本号"));
    ds.push(definition("minor_version", "小版本", ParamKind::Number, Vec::new(), JsonValue::Number(JsonNumber::PosInt(0)), true, 1, ""));
    let mut modes: Vec<String> = Vec::new();
    modes.push("test".to_string());
    modes.push("pre".to_string());
    modes.push("release".to_string());
    assert(views(modes@) =~= seq!["test"@, "pre"@, "release"@]);
    ds.push(definition("build_mode", "构建模式", ParamKind::Select, modes, JsonValue::Str("release".to_string()), true, 2, ""));
    ds.push(definition("is_hot_update", "热更新", ParamKind::Switch, Vec::new(), JsonValue::Bool(false), false, 3, ""));
    ds.push(definition("enable_pay", "支付", ParamKind::Switch, Vec::new(), JsonValue::Bool(false), false, 4, ""));
    ds.push(definition("review_mode", "审核模式", ParamKind::Switch, Vec::new(), JsonValue::Bool(false), false, 5, ""));
    proof { reveal_strlit(""); }
    assert(views(ds@[0].options@) =~= seq![]);
    assert(views(ds@[1].options@) =~= seq![]);
    assert(views(ds@[3].options@) =~= seq![]);
    assert(views(ds@[4].options@) =~= seq![]);
    assert(views(ds@[5].options@) =~= seq![]);
    assert(""@ =~= Seq::<char>::empty());
    ds
}


/// The ids of the projects.
pub open spec fn project_id_views(ps: Seq<Project>) -> Seq<Seq<char>> {
    ps.map_values(|p: Project| p.id@)
}

/// The workspace keys of the projects.
pub open spec fn project_key_views(ps: Seq<Project>) -> Seq<Seq<char>> {
    ps.map_values(|p: Project| p.workspace_dir_key@)
}

/// A field of project `i` after normalization: kept (trimmed) when given
/// and not taken by an earlier project, otherwise new; distinct from the
/// fields of earlier projects either way.
pub open spec fn field_normalized(raw: Seq<char>, earlier: Seq<Seq<char>>, r: Seq<char>) -> bool {
    &&& !earlier.contains(r)
    &&& r.len() > 0
    &&& trim(r) == r
    &&& (trim(raw).len() > 0 && !earlier.contains(trim(raw))) ==> r == trim(raw)
    &&& !(trim(raw).len() > 0 && !earlier.contains(trim(raw))) ==> is_fresh_field_value(r, earlier)
}

/// A project with the given id and workspace key.
pub open spec fn with_identity(p: Project, id: String, key: String) -> Project {
    Project { id, workspace_dir_key: key, ..p }
}

/// The projects with unique ids and workspace keys (see `field_normalized`).
pub open spec fn identities_normalized(old: Seq<Project>, new: Seq<Project>) -> bool {
    &&& new.len() == old.len()
    &&& forall|i: int| 0 <= i < new.len() ==> #[trigger] new[i] == with_identity(old[i], new[i].id, new[i].workspace_dir_key)
    &&& forall|i: int| 0 <= i < new.len() ==> field_normalized(old[i].id@, project_id_views(new).take(i), #[trigger] new[i].id@)
    &&& forall|i: int| 0 <= i < new.len() ==> field_normalized(old[i].workspace_dir_key@, project_key_views(new).take(i), #[trigger] new[i].workspace_dir_key@)
}

/// Gives each project an id and a workspace key no earlier project has.
/// Returns whether any changed.
pub fn normalize_project_identities(projects: Vec<Project>, counter: &mut IdCounter) -> (r: (Vec<Project>, bool))
    ensures
        identities_normalized(projects@, r.0@),
        r.1 == exists|i: int| 0 <= i < projects@.len() && (r.0@[i].id@ != projects@[i].id@ || r.0@[i].workspace_dir_key@ != projects@[i].workspace_dir_key@),
{
    let ghost old_ps = projects@;
    let mut rest = projects;
    let total = rest.len();
    let mut out: Vec<Project> = Vec::new();
    let mut used_ids: Vec<String> = Vec::new();
    let mut used_keys: Vec<String> = Vec::new();
    let mut changed = false;
    let mut k: usize = 0;
    while rest.len() > 0
        invariant
            k + rest@.len() == old_ps.len(),
            old_ps.len() == total,
            rest@ == old_ps.skip(k as int),
            out@.len() == k,
            views(used_ids@) == project_id_views(out@),
            views(used_keys@) == project_key_views(out@),
            forall|i: int| 0 <= i < k ==> #[trigger] out@[i] == with_identity(old_ps[i], out@[i].id, out@[i].workspace_dir_key),
            forall|i: int| 0 <= i < k ==> field_normalized(old_ps[i].id@, project_id_views(out@).take(i), #[trigger] out@[i].id@),
            forall|i: int| 0 <= i < k ==> field_normalized(old_ps[i].workspace_dir_key@, project_key_views(out@).take(i), #[trigger] out@[i].workspace_dir_key@),
            changed == exists|i: int| 0 <= i < k && (out@[i].id@ != old_ps[i].id@ || out@[i].workspace_dir_key@ != old_ps[i].workspace_dir_key@),
        decreases rest@.len(),
    {
        let mut p = rest.remove(0);
        assert(p == old_ps[k as int]);
        let ghost before_ids = views(used_ids@);
        let ghost before_keys = views(used_keys@);
        let id = normalize_project_field(p.id.as_str(), &mut used_ids, counter);
        let key = normalize_project_field(p.workspace_dir_key.as_str(), &mut used_keys, counter);
        if !str_eq(p.id.as_str(), id.as_str()) || !str_eq(p.workspace_dir_key.as_str(), key.as_str()) {
            changed = true;
        }
        p.id = id;
        p.workspace_dir_key = key;
        let ghost before_out = out@;
        out.push(p);
        assert(project_id_views(out@) =~= project_id_views(before_out).push(p.id@));
        assert(project_key_views(out@) =~= project_key_views(before_out).push(p.workspace_dir_key@));
        assert(project_id_views(out@).take(k as int) =~= project_id_views(before_out));
        assert(project_key_views(out@).take(k as int) =~= project_key_views(before_out));
        assert forall|i: int| 0 <= i < k implies project_id_views(out@).take(i) =~= project_id_views(before_out).take(i) by {}
        assert forall|i: int| 0 <= i < k implies project_key_views(out@).take(i) =~= project_key_views(before_out).take(i) by {}
        k = k + 1;
        assert(rest@ =~= old_ps.skip(k as int));
    }
    (out, changed)
}


/// The id of the last project with this name (later projects win).
pub open spec fn id_for_name(ps: Seq<Project>, name: Seq<char>) -> Option<Seq<char>>
    decreases ps.len(),
{
    if ps.len() == 0 {
        None
    } else if ps.last().name@ == name {
        Some(ps.last().id@)
    } else {
        id_for_name(ps.drop_last(), name)
    }
}

pub open spec fn config_view(c: Option<TaskProjectConfig>) -> Option<(Seq<char>, Seq<char>)> {
    match c {
        Some(tp) => Some((tp.project_id@, tp.branch@)),
        None => None,
    }
}

/// A task's binding after normalization: the trimmed reference when it is a
/// project id, else the id of the project with that name; dropped when
/// empty or unknown. The branch is kept.
pub open spec fn rebound(c: Option<TaskProjectConfig>, ps: Seq<Project>) -> Option<(Seq<char>, Seq<char>)> {
    match c {
        None => None,
        Some(tp) => {
            let r = trim(tp.project_id@);
            if r.len() == 0 {
                None
            } else if project_id_views(ps).contains(r) {
                Some((r, tp.branch@))
            } else {
                match id_for_name(ps, r) {
                    Some(id) => Some((id, tp.branch@)),
                    None => None,
                }
            }
        },
    }
}

/// A task with the given binding.
pub open spec fn with_project(t: PackageTask, c: Option<TaskProjectConfig>) -> PackageTask {
    PackageTask { project: c, ..t }
}

fn id_for_name_exec(projects: &Vec<Project>, name: &str) -> (r: Option<String>)
    ensures
        match id_for_name(projects@, name@) {
            Some(id) => r matches Some(s) && s@ == id,
            None => r is None,
        },
{
    let mut i: usize = projects.len();
    assert(projects@.take(i as int) =~= projects@);
    while i > 0
        invariant
            i <= projects@.len(),
            id_for_name(projects@, name@) == id_for_name(projects@.take(i as int), name@),
        decreases i,
    {
        assert(projects@.take(i as int).drop_last() =~= projects@.take(i - 1));
        if str_eq(projects[i - 1].name.as_str(), name) {
            return Some(projects[i - 1].id.clone());
        }
        i = i - 1;
    }
    None
}

/// Resolves each task's project reference to a project id (see `rebound`).
/// Returns whether any binding changed.
pub fn normalize_task_projects(tasks: Vec<PackageTask>, projects: &Vec<Project>) -> (r: (Vec<PackageTask>, bool))
    ensures
        r.0@.len() == tasks@.len(),
        forall|i: int| 0 <= i < tasks@.len() ==> #[trigger] r.0@[i] == with_project(tasks@[i], r.0@[i].project),
        forall|i: int| 0 <= i < tasks@.len() ==> config_view(#[trigger] r.0@[i].project) == rebound(tasks@[i].project, projects@),
        r.1 == exists|i: int| 0 <= i < tasks@.len() && config_view(r.0@[i].project) != config_view(tasks@[i].project),
{
    let ghost all = tasks@;
    let mut rest = tasks;
    let total = rest.len();
    let mut out: Vec<PackageTask> = Vec::new();
    let mut changed = false;
    let mut k: usize = 0;
    while rest.len() > 0
        invariant
            k + rest@.len() == all.len(),
            all.len() == total,
            rest@ == all.skip(k as int),
            out@.len() == k,
            forall|i: int| 0 <= i < k ==> #[trigger] out@[i] == with_project(all[i], out@[i].project),
            forall|i: int| 0 <= i < k ==> config_view(#[trigger] out@[i].project) == rebound(all[i].project, projects@),
            changed == exists|i: int| 0 <= i < k && config_view(out@[i].project) != config_view(all[i].project),
        decreases rest@.len(),
    {
        let mut t = rest.remove(0);
        assert(t == all[k as int]);
        let new_project = match &t.project {
            None => None,
            Some(tp) => {
                let r = trim_str(tp.project_id.as_str());
                if r.as_str().is_empty() {
                    None
                } else if crate::params::has_project_id(projects, r.as_str()) {
                    assert(project_id_views(projects@).contains(r@)) by {
                        let j = choose|j: int| 0 <= j < projects@.len() && (#[trigger] projects@[j]).id@ == r@;
                        assert(project_id_views(projects@)[j] == r@);
                    }
                    Some(TaskProjectConfig { project_id: r, branch: tp.branch.clone() })
                } else {
                    assert(!project_id_views(projects@).contains(r@)) by {
                        if project_id_views(projects@).contains(r@) {
                            let j = choose|j: int| 0 <= j < projects@.len() && project_id_views(projects@)[j] == r@;
                            assert(projects@[j].id@ == r@);
                        }
                    }
                    match id_for_name_exec(projects, r.as_str()) {
                        Some(id) => Some(TaskProjectConfig { project_id: id, branch: tp.branch.clone() }),
                        None => None,
                    }
                }
            },
        };
        let differs = match (&new_project, &t.project) {
            (Some(a), Some(b)) => !str_eq(a.project_id.as_str(), b.project_id.as_str()) || !str_eq(a.branch.as_str(), b.branch.as_str()),
            (None, None) => false,
            _ => true,
        };
        if differs {
            changed = true;
        }
        t.project = new_project;
        out.push(t);
        k = k + 1;
        assert(rest@ =~= all.skip(k as int));
    }
    (out, changed)
}


/// The group name a task of the old shape moves to.
pub open spec fn group_name_of(t: PackageTask) -> Seq<char> {
    if is_blank(t.group@) { "未分组"@ } else { trim(t.group@) }
}

/// A task of the old shape: no task group, but a bound project.
pub open spec fn needs_group(t: PackageTask) -> bool {
    is_blank(t.task_group_id@) && t.project is Some
}

/// The group a task of the old shape belongs to: project, group name, branch.
pub open spec fn task_key(t: PackageTask) -> (Seq<char>, Seq<char>, Seq<char>) {
    (t.project->0.project_id@, group_name_of(t), trim(t.project->0.branch@))
}

pub open spec fn group_key(g: TaskGroup) -> (Seq<char>, Seq<char>, Seq<char>) {
    (g.project_id@, g.name@, g.branch@)
}

/// The last group with the key (later groups win).
pub open spec fn last_group_with_key(gs: Seq<TaskGroup>, key: (Seq<char>, Seq<char>, Seq<char>)) -> Option<int>
    decreases gs.len(),
{
    if gs.len() == 0 {
        None
    } else if group_key(gs.last()) == key {
        Some(gs.len() - 1)
    } else {
        last_group_with_key(gs.drop_last(), key)
    }
}

pub open spec fn max_order(gs: Seq<TaskGroup>) -> u32
    decreases gs.len(),
{
    if gs.len() == 0 {
        0
    } else {
        let m = max_order(gs.drop_last());
        if gs.last().order > m { gs.last().order } else { m }
    }
}

/// `a + b`, at most `u32::MAX`.
pub open spec fn sat_add(a: nat, b: nat) -> u32 {
    if a + b > u32::MAX { u32::MAX } else { (a + b) as u32 }
}

/// The order a new group gets: one past the highest order.
pub open spec fn first_new_order(gs: Seq<TaskGroup>) -> u32 {
    sat_add(max_order(gs) as nat, 1)
}

pub open spec fn group_id_views(gs: Seq<TaskGroup>) -> Seq<Seq<char>> {
    gs.map_values(|g: TaskGroup| g.id@)
}

pub open spec fn project_has_id(id: Seq<char>) -> spec_fn(Project) -> bool {
    |p: Project| p.id@ == id
}

/// The parameters a new group gets from its project.
pub open spec fn new_group_params(ps: Seq<Project>, g: TaskGroup) -> bool {
    match first_match(ps, project_has_id(g.project_id@)) {
        Some(pi) => legacy_params_of(ps[pi], g.params),
        None => g.params.entries@.len() == 0,
    }
}

/// Group `k` (one made by the migration) is as a new group is made.
pub open spec fn new_group_ok(old_gs: Seq<TaskGroup>, gs: Seq<TaskGroup>, ps: Seq<Project>, k: int) -> bool {
    let g = gs[k];
    &&& "group_"@.is_prefix_of(g.id@)
    &&& forall|j: int| 0 <= j < gs.len() && j != k ==> gs[j].id@ != g.id@
    &&& forall|j: int| 0 <= j < gs.len() && j != k ==> group_key(gs[j]) != group_key(g)
    &&& g.description@.len() == 0
    &&& g.presets@.len() == 0
    &&& g.hidden_params@.len() == 0
    &&& g.order == sat_add(first_new_order(old_gs) as nat, (k - old_gs.len()) as nat)
    &&& new_group_params(ps, g)
}

/// A task moved into a group: its group id and its position as order.
pub open spec fn with_assignment(t: PackageTask, group_id: String, order: u32) -> PackageTask {
    PackageTask { task_group_id: group_id, order, ..t }
}

/// Task `i` after the migration: unchanged unless it has the old shape; then
/// it belongs to the last existing group with its key, or to the new group
/// with its key, and its order is its position.
pub open spec fn task_migrated(old_gs: Seq<TaskGroup>, gs: Seq<TaskGroup>, t: PackageTask, i: int, r: PackageTask) -> bool {
    if !needs_group(t) {
        r == t
    } else {
        &&& r == with_assignment(t, r.task_group_id, i as u32)
        &&& match last_group_with_key(old_gs, task_key(t)) {
            Some(k) => r.task_group_id@ == old_gs[k].id@,
            None => exists|k: int| old_gs.len() <= k < gs.len() && group_key(#[trigger] gs[k]) == task_key(t) && gs[k].id@ == r.task_group_id@,
        }
    }
}

/// Groups and tasks after tasks of the old shape move into groups.
pub open spec fn groups_migrated(old_ts: Seq<PackageTask>, old_gs: Seq<TaskGroup>, ps: Seq<Project>, ts: Seq<PackageTask>, gs: Seq<TaskGroup>) -> bool {
    &&& ts.len() == old_ts.len()
    &&& gs.len() >= old_gs.len()
    &&& forall|k: int| 0 <= k < old_gs.len() ==> #[trigger] gs[k] == old_gs[k]
    &&& forall|k: int| old_gs.len() <= k < gs.len() ==> #[trigger] new_group_ok(old_gs, gs, ps, k)
    &&& forall|k: int| old_gs.len() <= k < gs.len() ==> last_group_with_key(old_gs, group_key(#[trigger] gs[k])) is None
        && has_witness(old_ts, old_ts.len() as int, group_key(gs[k]))
    &&& forall|i: int| 0 <= i < ts.len() ==> task_migrated(old_gs, gs, old_ts[i], i, #[trigger] ts[i])
}


proof fn lemma_last_group_with_key(gs: Seq<TaskGroup>, key: (Seq<char>, Seq<char>, Seq<char>))
    ensures
        last_group_with_key(gs, key) is None <==> forall|j: int| 0 <= j < gs.len() ==> group_key(#[trigger] gs[j]) != key,
        last_group_with_key(gs, key) matches Some(k) ==> 0 <= k < gs.len() && group_key(gs[k]) == key,
    decreases gs.len(),
{
    if gs.len() > 0 {
        lemma_last_group_with_key(gs.drop_last(), key);
        if group_key(gs.last()) != key {
            assert forall|j: int| 0 <= j < gs.len() - 1 implies gs.drop_last()[j] == gs[j] by {}
        }
    }
}

pub fn max_group_order(groups: &Vec<TaskGroup>) -> (m: u32)
    ensures
        m == max_order(groups@),
{
    let mut m: u32 = 0;
    let mut i: usize = 0;
    assert(groups@.take(0) =~= Seq::<TaskGroup>::empty());
    while i < groups.len()
        invariant
            i <= groups@.len(),
            m == max_order(groups@.take(i as int)),
        decreases groups.len() - i,
    {
        assert(groups@.take(i + 1).drop_last() =~= groups@.take(i as int));
        if groups[i].order > m {
            m = groups[i].order;
        }
        i = i + 1;
    }
    assert(groups@.take(groups@.len() as int) =~= groups@);
    m
}

/// Index of the last group among the first `n0` with the key.
fn find_old_group(groups: &Vec<TaskGroup>, n0: usize, pid: &str, name: &str, branch: &str) -> (r: Option<usize>)
    requires
        n0 <= groups@.len(),
    ensures
        match last_group_with_key(groups@.take(n0 as int), (pid@, name@, branch@)) {
            Some(k) => r == Some(k as usize),
            None => r is None,
        },
{
    let ghost key = (pid@, name@, branch@);
    let mut i: usize = n0;
    while i > 0
        invariant
            i <= n0 <= groups@.len(),
            key == (pid@, name@, branch@),
            last_group_with_key(groups@.take(n0 as int), key) == last_group_with_key(groups@.take(i as int), key),
        decreases i,
    {
        assert(groups@.take(i as int).drop_last() =~= groups@.take(i - 1));
        assert(groups@.take(i as int).last() == groups@[i - 1]);
        let g = &groups[i - 1];
        if str_eq(g.project_id.as_str(), pid) && str_eq(g.name.as_str(), name) && str_eq(g.branch.as_str(), branch) {
            assert(group_key(groups@[i - 1]) == key);
            return Some(i - 1);
        }
        assert(group_key(groups@[i - 1]) != key);
        i = i - 1;
    }
    None
}

/// Index of a group from `n0` on with the key.
fn find_new_group(groups: &Vec<TaskGroup>, n0: usize, pid: &str, name: &str, branch: &str) -> (r: Option<usize>)
    requires
        n0 <= groups@.len(),
    ensures
        r matches Some(k) ==> n0 <= k < groups@.len() && group_key(groups@[k as int]) == (pid@, name@, branch@),
        r is None ==> forall|k: int| n0 <= k < groups@.len() ==> group_key(#[trigger] groups@[k]) != (pid@, name@, branch@),
{
    let mut i: usize = n0;
    while i < groups.len()
        invariant
            n0 <= i <= groups@.len(),
            forall|k: int| n0 <= k < i ==> group_key(#[trigger] groups@[k]) != (pid@, name@, branch@),
        decreases groups.len() - i,
    {
        let g = &groups[i];
        if str_eq(g.project_id.as_str(), pid) && str_eq(g.name.as_str(), name) && str_eq(g.branch.as_str(), branch) {
            return Some(i);
        }
        i = i + 1;
    }
    None
}

/// Index of the first project with the id.
fn find_project_by_id(projects: &Vec<Project>, id: &str) -> (r: Option<usize>)
    ensures
        r matches Some(i) ==> i < projects@.len() && first_match(projects@, project_has_id(id@)) == Some(i as int),
        r is None ==> first_match(projects@, project_has_id(id@)) is None,
{
    let mut i: usize = 0;
    while i < projects.len()
        invariant
            i <= projects@.len(),
            forall|j: int| 0 <= j < i ==> !project_has_id(id@)(#[trigger] projects@[j]),
        decreases projects.len() - i,
    {
        if str_eq(projects[i].id.as_str(), id) {
            proof { lemma_first_match(projects@, project_has_id(id@), i as int); }
            return Some(i);
        }
        i = i + 1;
    }
    None
}

/// What holds of the groups while tasks move into them.
pub open spec fn groups_state_ok(old_gs: Seq<TaskGroup>, gs: Seq<TaskGroup>, ps: Seq<Project>, used: Seq<Seq<char>>, next_order: u32) -> bool {
    &&& gs.len() >= old_gs.len()
    &&& gs.take(old_gs.len() as int) == old_gs
    &&& used == group_id_views(gs)
    &&& next_order == sat_add(first_new_order(old_gs) as nat, (gs.len() - old_gs.len()) as nat)
    &&& forall|k: int| old_gs.len() <= k < gs.len() ==> #[trigger] new_group_ok(old_gs, gs, ps, k)
    &&& forall|k: int| old_gs.len() <= k < gs.len() ==> last_group_with_key(old_gs, group_key(#[trigger] gs[k])) is None
}

/// A new group id `group_<short id>` not in use: short identifiers are drawn
/// from the counter until one gives a free id. A loop must end, so after
/// `u64::MAX` taken draws the last one is made unique with a suffix.
fn draw_group_id(used: &Vec<String>, counter: &mut IdCounter) -> (id: String)
    ensures
        !views(used@).contains(id@),
        "group_"@.is_prefix_of(id@),
{
    proof { reveal_strlit("group_"); }
    let mut attempts: u64 = 0;
    loop
        decreases u64::MAX - attempts,
    {
        proof { reveal_strlit("group_"); }
        let short = counter.generate_short_internal_id();
        let candidate = crate::text::concat2("group_", short.as_str());
        assert(candidate@.subrange(0, 6) =~= "group_"@);
        if !crate::params::contains_string(used, candidate.as_str()) {
            return candidate;
        }
        if attempts == u64::MAX {
            let id = fresh_text(candidate, used);
            assert("group_"@.is_prefix_of(id@)) by {
                if !views(used@).contains(candidate@) {
                    assert(id@ == candidate@);
                } else {
                    let k = choose|k: nat| #![trigger with_suffix(candidate@, k)] k >= 1 && id@ == with_suffix(candidate@, k) && !views(used@).contains(id@) && (forall|j: nat| 1 <= j < k ==> views(used@).contains(#[trigger] with_suffix(candidate@, j)));
                    assert(id@.subrange(0, 6) =~= candidate@.subrange(0, 6));
                }
            }
            return id;
        }
        attempts = attempts + 1;
    }
}

/// The id of the group for a key: the last existing group with it, else a
/// group made earlier for it, else a new group (made and added here).
fn group_for_key(
    groups: &mut Vec<TaskGroup>,
    n0: usize,
    used: &mut Vec<String>,
    counter: &mut IdCounter,
    next_order: &mut u32,
    projects: &Vec<Project>,
    pid: &str,
    name: &str,
    branch: &str,
) -> (r: String)
    requires
        n0 <= old(groups)@.len(),
        groups_state_ok(old(groups)@.take(n0 as int), old(groups)@, projects@, views(old(used)@), *old(next_order)),
    ensures
        groups_state_ok(old(groups)@.take(n0 as int), final(groups)@, projects@, views(final(used)@), *final(next_order)),
        final(groups)@.take(old(groups)@.len() as int) == old(groups)@,
        final(groups)@.len() == old(groups)@.len() || final(groups)@.len() == old(groups)@.len() + 1,
        final(groups)@.len() == old(groups)@.len() + 1 ==> group_key(final(groups)@.last()) == (pid@, name@, branch@),
        match last_group_with_key(old(groups)@.take(n0 as int), (pid@, name@, branch@)) {
            Some(k) => r@ == old(groups)@[k].id@ && final(groups)@ == old(groups)@,
            None => exists|k: int| n0 <= k < final(groups)@.len() && group_key(#[trigger] final(groups)@[k]) == (pid@, name@, branch@) && final(groups)@[k].id@ == r@,
        },
{
    let ghost old_gs = groups@.take(n0 as int);
    let ghost key = (pid@, name@, branch@);
    proof { lemma_last_group_with_key(old_gs, key); }
    match find_old_group(groups, n0, pid, name, branch) {
        Some(k) => {
            assert(old_gs[k as int] == groups@[k as int]);
            return groups[k].id.clone();
        },
        None => {},
    }
    match find_new_group(groups, n0, pid, name, branch) {
        Some(k) => {
            return groups[k].id.clone();
        },
        None => {},
    }
    let id = draw_group_id(used, counter);
    let params = match find_project_by_id(projects, pid) {
        Some(pi) => {
            let m = legacy_project_params(&projects[pi]);
            assert(first_match(projects@, project_has_id(pid@)) == Some(pi as int));
            m
        },
        None => ParamMap::new(),
    };
    assert(match first_match(projects@, project_has_id(pid@)) {
        Some(pi) => legacy_params_of(projects@[pi], params),
        None => params.entries@.len() == 0,
    });
    let order = *next_order;
    let g = TaskGroup {
        id: copy_string(id.as_str()),
        project_id: copy_string(pid),
        name: copy_string(name),
        description: String::new(),
        branch: copy_string(branch),
        params,
        presets: Vec::new(),
        hidden_params: Vec::new(),
        order,
    };
    let ghost before = groups@;
    let ghost used_before = views(used@);
    groups.push(g);
    let ghost before_used = used@;
    used.push(copy_string(id.as_str()));
    *next_order = if order == u32::MAX { u32::MAX } else { order + 1 };
    proof {
        let gs = groups@;
        assert(views(used@) =~= views(before_used).push(id@));
        assert(group_id_views(gs) =~= group_id_views(before).push(gs[gs.len() - 1].id@));
        assert(views(used@) =~= group_id_views(gs));
        assert(gs[gs.len() - 1].order == order);
        assert(new_group_params(projects@, gs[gs.len() - 1]));
        assert(gs.take(n0 as int) =~= old_gs);
        assert(gs.take(before.len() as int) =~= before);
        assert forall|k: int| n0 <= k < gs.len() implies #[trigger] new_group_ok(old_gs, gs, projects@, k) by {
            if k < before.len() {
                assert(gs[k] == before[k]);
                assert(new_group_ok(old_gs, before, projects@, k));
                assert(gs[gs.len() - 1].id@ == id@);
                assert(group_id_views(before)[k] == before[k].id@);
                assert forall|j: int| 0 <= j < gs.len() && j != k implies gs[j].id@ != gs[k].id@ && group_key(gs[j]) != group_key(gs[k]) by {
                    if j < before.len() {
                        assert(gs[j] == before[j]);
                    }
                }
            } else {
                assert forall|j: int| 0 <= j < gs.len() && j != k implies gs[j].id@ != gs[k].id@ && group_key(gs[j]) != group_key(gs[k]) by {
                    assert(gs[j] == before[j]);
                    assert(group_id_views(before)[j] == before[j].id@);
                    if j < n0 {
                        assert(old_gs[j] == before[j]);
                    }
                }
            }
        }
        assert forall|k: int| n0 <= k < gs.len() implies last_group_with_key(old_gs, group_key(#[trigger] gs[k])) is None by {
            if k < before.len() {
                assert(gs[k] == before[k]);
            }
        }
        assert(group_key(gs[gs.len() - 1]) == key);
    }
    id
}


/// Some task before `upto` has the old shape and the key.
pub open spec fn has_witness(ts: Seq<PackageTask>, upto: int, key: (Seq<char>, Seq<char>, Seq<char>)) -> bool {
    exists|i: int| 0 <= i < upto && needs_group(ts[i]) && task_key(#[trigger] ts[i]) == key
}

/// Moves tasks of the old shape into task groups (see `groups_migrated`).
/// Returns whether any task moved.
pub fn migrate_legacy_groups(tasks: Vec<PackageTask>, groups: Vec<TaskGroup>, projects: &Vec<Project>, counter: &mut IdCounter) -> (r: (Vec<PackageTask>, Vec<TaskGroup>, bool))
    ensures
        groups_migrated(tasks@, groups@, projects@, r.0@, r.1@),
        r.2 == exists|i: int| 0 <= i < tasks@.len() && needs_group(#[trigger] tasks@[i]),
{
    proof { reveal_strlit("未分组"); }
    let ghost old_ts = tasks@;
    let ghost old_gs = groups@;
    let n0 = groups.len();
    let mut groups = groups;
    let mut used: Vec<String> = Vec::new();
    let mut j: usize = 0;
    while j < groups.len()
        invariant
            j <= groups@.len(),
            groups@ == old_gs,
            views(used@) == group_id_views(groups@.take(j as int)),
        decreases groups.len() - j,
    {
        let ghost before = used@;
        used.push(copy_string(groups[j].id.as_str()));
        assert(views(used@) =~= views(before).push(groups@[j as int].id@));
        assert(group_id_views(groups@.take(j + 1)) =~= group_id_views(groups@.take(j as int)).push(groups@[j as int].id@));
        j = j + 1;
    }
    assert(groups@.take(n0 as int) =~= groups@);
    let m = max_group_order(&groups);
    let mut next_order: u32 = if m == u32::MAX { u32::MAX } else { m + 1 };
    let mut rest = tasks;
    let total = rest.len();
    let mut out: Vec<PackageTask> = Vec::new();
    let mut changed = false;
    let mut k: usize = 0;
    while rest.len() > 0
        invariant
            k + rest@.len() == old_ts.len(),
            old_ts.len() == total,
            rest@ == old_ts.skip(k as int),
            out@.len() == k,
            n0 == old_gs.len(),
            groups_state_ok(old_gs, groups@, projects@, views(used@), next_order),
            forall|i: int| 0 <= i < k ==> task_migrated(old_gs, groups@, old_ts[i], i, #[trigger] out@[i]),
            forall|g: int| n0 <= g < groups@.len() ==> has_witness(old_ts, k as int, group_key(#[trigger] groups@[g])),
            changed == exists|i: int| 0 <= i < k && needs_group(#[trigger] old_ts[i]),
        decreases rest@.len(),
    {
        let mut t = rest.remove(0);
        assert(t == old_ts[k as int]);
        let ghost gs_before = groups@;
        let needs = crate::text::is_blank_str(t.task_group_id.as_str()) && t.project.is_some();
        if needs {
            let (pid, gname, branch) = match &t.project {
                Some(tp) => {
                    let name = if crate::text::is_blank_str(t.group.as_str()) { "未分组".to_string() } else { trim_str(t.group.as_str()) };
                    (copy_string(tp.project_id.as_str()), name, trim_str(tp.branch.as_str()))
                },
                None => (String::new(), String::new(), String::new()),
            };
            assert((pid@, gname@, branch@) == task_key(old_ts[k as int]));
            let gid = group_for_key(&mut groups, n0, &mut used, counter, &mut next_order, projects, pid.as_str(), gname.as_str(), branch.as_str());
            assert(gs_before.take(n0 as int) == old_gs);
            proof {
                let key = task_key(old_ts[k as int]);
                lemma_last_group_with_key(old_gs, key);
                if let Some(kk) = last_group_with_key(old_gs, key) {
                    assert(gs_before.take(n0 as int)[kk] == gs_before[kk]);
                    assert(gid@ == old_gs[kk].id@);
                }
            }
            t.task_group_id = gid;
            t.order = k as u32;
            changed = true;
            assert(t == with_assignment(old_ts[k as int], t.task_group_id, k as u32));
            assert(task_migrated(old_gs, groups@, old_ts[k as int], k as int, t));
        } else {
            assert(!needs_group(old_ts[k as int]));
            assert(task_migrated(old_gs, groups@, old_ts[k as int], k as int, t));
        }
        proof {
            let gs = groups@;
            assert(gs.take(gs_before.len() as int) == gs_before);
            assert forall|i: int| 0 <= i < k implies task_migrated(old_gs, gs, old_ts[i], i, #[trigger] out@[i]) by {
                assert(task_migrated(old_gs, gs_before, old_ts[i], i, out@[i]));
                if needs_group(old_ts[i]) && last_group_with_key(old_gs, task_key(old_ts[i])) is None {
                    let w = choose|w: int| old_gs.len() <= w < gs_before.len() && group_key(#[trigger] gs_before[w]) == task_key(old_ts[i]) && gs_before[w].id@ == out@[i].task_group_id@;
                    assert(gs[w] == gs_before[w]);
                }
            }
        }
        let ghost out_before = out@;
        out.push(t);
        proof {
            let gs = groups@;
            assert forall|i: int| 0 <= i < k + 1 implies task_migrated(old_gs, gs, old_ts[i], i, #[trigger] out@[i]) by {
                if i < k {
                    assert(out@[i] == out_before[i]);
                }
            }
            assert forall|g: int| n0 <= g < gs.len() implies has_witness(old_ts, k + 1, group_key(#[trigger] gs[g])) by {
                if g < gs_before.len() {
                    assert(gs[g] == gs_before[g]);
                    assert(has_witness(old_ts, k as int, group_key(gs_before[g])));
                    let i = choose|i: int| 0 <= i < k && needs_group(old_ts[i]) && task_key(#[trigger] old_ts[i]) == group_key(gs_before[g]);
                    assert(0 <= i < k + 1 && needs_group(old_ts[i]) && task_key(old_ts[i]) == group_key(gs[g]));
                } else {
                    assert(needs_group(old_ts[k as int]) && task_key(old_ts[k as int]) == group_key(gs[g]));
                }
            }
        }
        k = k + 1;
        assert(rest@ =~= old_ts.skip(k as int));
    }
    (out, groups, changed)
}


/// A group after its parameters are filled: a group without parameters
/// whose project exists takes the project's legacy build fields.
pub open spec fn group_filled(ps: Seq<Project>, g: TaskGroup, r: TaskGroup) -> bool {
    match first_match(ps, project_has_id(g.project_id@)) {
        Some(pi) => if g.params.entries@.len() == 0 {
            r == with_params(g, r.params) && legacy_params_of(ps[pi], r.params)
        } else {
            r == g
        },
        None => r == g,
    }
}

pub open spec fn with_params(g: TaskGroup, params: ParamMap) -> TaskGroup {
    TaskGroup { params, ..g }
}

pub open spec fn group_needs_params(ps: Seq<Project>, g: TaskGroup) -> bool {
    g.params.entries@.len() == 0 && first_match(ps, project_has_id(g.project_id@)) is Some
}

/// Gives each group without parameters its project's legacy build fields.
/// Returns whether any group changed.
pub fn fill_group_params(groups: Vec<TaskGroup>, projects: &Vec<Project>) -> (r: (Vec<TaskGroup>, bool))
    ensures
        r.0@.len() == groups@.len(),
        forall|k: int| 0 <= k < groups@.len() ==> group_filled(projects@, groups@[k], #[trigger] r.0@[k]),
        r.1 == exists|k: int| 0 <= k < groups@.len() && group_needs_params(projects@, #[trigger] groups@[k]),
{
    let ghost all = groups@;
    let mut rest = groups;
    let total = rest.len();
    let mut out: Vec<TaskGroup> = Vec::new();
    let mut changed = false;
    let mut k: usize = 0;
    while rest.len() > 0
        invariant
            k + rest@.len() == all.len(),
            all.len() == total,
            rest@ == all.skip(k as int),
            out@.len() == k,
            forall|i: int| 0 <= i < k ==> group_filled(projects@, all[i], #[trigger] out@[i]),
            changed == exists|i: int| 0 <= i < k && group_needs_params(projects@, #[trigger] all[i]),
        decreases rest@.len(),
    {
        let mut g = rest.remove(0);
        assert(g == all[k as int]);
        if g.params.entries.len() == 0 {
            match find_project_by_id(projects, g.project_id.as_str()) {
                Some(pi) => {
                    g.params = legacy_project_params(&projects[pi]);
                    changed = true;
                },
                None => {},
            }
        }
        out.push(g);
        k = k + 1;
        assert(rest@ =~= all.skip(k as int));
    }
    (out, changed)
}

/// The tasks after their project references are resolved (see `rebound`).
pub open spec fn projects_bound(old_ts: Seq<PackageTask>, ps: Seq<Project>, ts: Seq<PackageTask>) -> bool {
    &&& ts.len() == old_ts.len()
    &&& forall|i: int| 0 <= i < ts.len() ==> #[trigger] ts[i] == with_project(old_ts[i], ts[i].project)
    &&& forall|i: int| 0 <= i < ts.len() ==> config_view(#[trigger] ts[i].project) == rebound(old_ts[i].project, ps)
}

pub open spec fn groups_filled(ps: Seq<Project>, gs: Seq<TaskGroup>, r: Seq<TaskGroup>) -> bool {
    r.len() == gs.len() && forall|k: int| 0 <= k < gs.len() ==> group_filled(ps, gs[k], #[trigger] r[k])
}

/// Whether a project's id or workspace key changed.
pub open spec fn identities_changed(old: Seq<Project>, new: Seq<Project>) -> bool {
    exists|i: int| 0 <= i < old.len() && (new[i].id@ != old[i].id@ || new[i].workspace_dir_key@ != (#[trigger] old[i]).workspace_dir_key@)
}

/// `r` is what normalizing `s` gives: project identities settled, tasks
/// bound to projects and groups, legacy definitions made, group parameters
/// filled in; `r.1` says whether anything changed.
pub open spec fn settings_normalized(s: AppSettings, r: (AppSettings, bool)) -> bool {
    &&& r.0.engines == s.engines
    &&& r.0.git_config == s.git_config
    &&& r.0.feishu_bots == s.feishu_bots
    &&& identities_normalized(s.projects@, r.0.projects@)
    &&& s.param_definitions@.len() == 0 && s.package_tasks@.len() > 0 ==> legacy_definitions(r.0.param_definitions@)
    &&& !(s.param_definitions@.len() == 0 && s.package_tasks@.len() > 0) ==> r.0.param_definitions == s.param_definitions
    &&& exists|tb: Seq<PackageTask>, gd: Seq<TaskGroup>|
        #![trigger projects_bound(s.package_tasks@, r.0.projects@, tb), groups_filled(r.0.projects@, gd, r.0.task_groups@)]
        projects_bound(s.package_tasks@, r.0.projects@, tb)
        && groups_migrated(tb, s.task_groups@, r.0.projects@, r.0.package_tasks@, gd)
        && groups_filled(r.0.projects@, gd, r.0.task_groups@)
        && r.1 == (identities_changed(s.projects@, r.0.projects@)
            || (exists|i: int| 0 <= i < tb.len() && config_view(tb[i].project) != config_view(#[trigger] s.package_tasks@[i].project))
            || (s.param_definitions@.len() == 0 && s.package_tasks@.len() > 0)
            || (exists|i: int| 0 <= i < tb.len() && needs_group(#[trigger] tb[i]))
            || (exists|k: int| 0 <= k < gd.len() && group_needs_params(r.0.projects@, #[trigger] gd[k])))
}

/// Settings as they are loaded: projects get unique ids and workspace keys,
/// task bindings name project ids, the legacy parameter definitions are added
/// when there are tasks but no definitions, tasks of the old shape move into
/// groups, and groups without parameters take their project's build fields.
/// Returns whether anything changed.
pub fn normalize_settings(settings: AppSettings, counter: &mut IdCounter) -> (r: (AppSettings, bool))
    ensures
        settings_normalized(settings, r),
{
    let AppSettings { engines, projects, git_config, feishu_bots, package_tasks, task_groups, param_definitions } = settings;
    let (projects, c1) = normalize_project_identities(projects, counter);
    let (tasks, c2) = normalize_task_projects(package_tasks, &projects);
    let ghost tb = tasks@;
    let mut definitions = param_definitions;
    let mut c3 = false;
    if definitions.len() == 0 && tasks.len() > 0 {
        definitions = legacy_param_definitions();
        c3 = true;
    }
    let (tasks, groups, c4) = migrate_legacy_groups(tasks, task_groups, &projects, counter);
    let ghost gd = groups@;
    let (groups, c5) = fill_group_params(groups, &projects);
    let r = AppSettings {
        engines,
        projects,
        git_config,
        feishu_bots,
        package_tasks: tasks,
        task_groups: groups,
        param_definitions: definitions,
    };
    assert(projects_bound(settings.package_tasks@, r.projects@, tb));
    assert(groups_filled(r.projects@, gd, r.task_groups@));
    assert(groups_migrated(tb, settings.task_groups@, r.projects@, r.package_tasks@, gd));
    assert(c1 == identities_changed(settings.projects@, r.projects@)) by {
        if c1 {
            let i = choose|i: int| 0 <= i < settings.projects@.len() && (r.projects@[i].id@ != settings.projects@[i].id@ || r.projects@[i].workspace_dir_key@ != settings.projects@[i].workspace_dir_key@);
            assert(r.projects@[i].id@ != settings.projects@[i].id@ || r.projects@[i].workspace_dir_key@ != (settings.projects@[i]).workspace_dir_key@);
        }
    }
    assert(c2 == (exists|i: int| 0 <= i < tb.len() && config_view(tb[i].project) != config_view(#[trigger] settings.package_tasks@[i].project))) by {
        if c2 {
            let i = choose|i: int| 0 <= i < settings.package_tasks@.len() && config_view(tb[i].project) != config_view(settings.package_tasks@[i].project);
            assert(config_view(tb[i].project) != config_view(settings.package_tasks@[i].project));
        }
    }
    let changed = c1 || c2 || c3 || c4 || c5;
    assert(changed == (identities_changed(settings.projects@, r.projects@)
                || (exists|i: int| 0 <= i < tb.len() && config_view(tb[i].project) != config_view(#[trigger] settings.package_tasks@[i].project))
                || (settings.param_definitions@.len() == 0 && settings.package_tasks@.len() > 0)
                || (exists|i: int| 0 <= i < tb.len() && needs_group(#[trigger] tb[i]))
                || (exists|k: int| 0 <= k < gd.len() && group_needs_params(r.projects@, #[trigger] gd[k]))));
    let out = (r, changed);
    assert(projects_bound(settings.package_tasks@, out.0.projects@, tb)
            && groups_migrated(tb, settings.task_groups@, out.0.projects@, out.0.package_tasks@, gd)
            && groups_filled(out.0.projects@, gd, out.0.task_groups@)
            && out.1 == (identities_changed(settings.projects@, out.0.projects@)
                || (exists|i: int| 0 <= i < tb.len() && config_view(tb[i].project) != config_view(#[trigger] settings.package_tasks@[i].project))
                || (settings.param_definitions@.len() == 0 && settings.package_tasks@.len() > 0)
                || (exists|i: int| 0 <= i < tb.len() && needs_group(#[trigger] tb[i]))
                || (exists|k: int| 0 <= k < gd.len() && group_needs_params(out.0.projects@, #[trigger] gd[k]))));
    out
}


/// After normalization no two projects share an id or a workspace key, and
/// none is empty.
pub proof fn law_project_identities_unique(old: Seq<Project>, new: Seq<Project>)
    requires
        identities_normalized(old, new),
    ensures
        forall|i: int, j: int| 0 <= i < j < new.len() ==> new[i].id@ != new[j].id@ && new[i].workspace_dir_key@ != new[j].workspace_dir_key@,
        forall|i: int| 0 <= i < new.len() ==> new[i].id@.len() > 0 && new[i].workspace_dir_key@.len() > 0,
{
    assert forall|i: int, j: int| 0 <= i < j < new.len() implies new[i].id@ != new[j].id@ && new[i].workspace_dir_key@ != new[j].workspace_dir_key@ by {
        assert(field_normalized(old[j].id@, project_id_views(new).take(j), new[j].id@));
        assert(field_normalized(old[j].workspace_dir_key@, project_key_views(new).take(j), new[j].workspace_dir_key@));
        assert(project_id_views(new).take(j)[i] == new[i].id@);
        assert(project_key_views(new).take(j)[i] == new[i].workspace_dir_key@);
    }
    assert forall|i: int| 0 <= i < new.len() implies new[i].id@.len() > 0 && new[i].workspace_dir_key@.len() > 0 by {
        assert(field_normalized(old[i].id@, project_id_views(new).take(i), new[i].id@));
        assert(field_normalized(old[i].workspace_dir_key@, project_key_views(new).take(i), new[i].workspace_dir_key@));
    }
}

/// After the migration every task of the old shape belongs to a group that
/// exists and has the task's project, group name and branch.
pub proof fn law_migrated_tasks_have_groups(old_ts: Seq<PackageTask>, old_gs: Seq<TaskGroup>, ps: Seq<Project>, ts: Seq<PackageTask>, gs: Seq<TaskGroup>, i: int)
    requires
        groups_migrated(old_ts, old_gs, ps, ts, gs),
        0 <= i < old_ts.len(),
        needs_group(old_ts[i]),
    ensures
        exists|k: int| 0 <= k < gs.len() && gs[k].id@ == ts[i].task_group_id@ && group_key(#[trigger] gs[k]) == task_key(old_ts[i]),
{
    assert(task_migrated(old_gs, gs, old_ts[i], i, ts[i]));
    lemma_last_group_with_key(old_gs, task_key(old_ts[i]));
    match last_group_with_key(old_gs, task_key(old_ts[i])) {
        Some(k) => {
            assert(gs[k] == old_gs[k]);
        },
        None => {},
    }
}

proof fn lemma_id_for_name_is_id(ps: Seq<Project>, name: Seq<char>)
    ensures
        id_for_name(ps, name) matches Some(id) ==> project_id_views(ps).contains(id),
    decreases ps.len(),
{
    if ps.len() > 0 {
        lemma_id_for_name_is_id(ps.drop_last(), name);
        if ps.last().name@ == name {
            assert(project_id_views(ps)[ps.len() - 1] == ps.last().id@);
        } else if id_for_name(ps.drop_last(), name) is Some {
            let id = id_for_name(ps.drop_last(), name)->0;
            let j = choose|j: int| 0 <= j < project_id_views(ps.drop_last()).len() && project_id_views(ps.drop_last())[j] == id;
            assert(project_id_views(ps)[j] == id);
        }
    }
}

/// After normalization every task binding names a project of the result by
/// its id (a reference by name is rewritten to that project's id; a blank or
/// unknown one is dropped), and a task that had no group but a binding is
/// placed, with its own position as order (as a `u32`), in a group of the result with the
/// binding's project, the trimmed branch, and the task's trimmed group name
/// (`未分组` when blank). Other tasks keep their group and order.
pub proof fn law_task_bindings(s: AppSettings, r: (AppSettings, bool), i: int)
    requires
        settings_normalized(s, r),
        0 <= i < s.package_tasks@.len(),
    ensures
        r.0.package_tasks@.len() == s.package_tasks@.len(),
        config_view(r.0.package_tasks@[i].project) == rebound(s.package_tasks@[i].project, r.0.projects@),
        r.0.package_tasks@[i].project matches Some(c) ==> project_id_views(r.0.projects@).contains(c.project_id@),
        (is_blank(s.package_tasks@[i].task_group_id@) && r.0.package_tasks@[i].project is Some) ==> {
            let t = r.0.package_tasks@[i];
            let c = t.project->0;
            &&& t.order == i as u32
            &&& exists|k: int| 0 <= k < r.0.task_groups@.len()
                && (#[trigger] r.0.task_groups@[k]).id@ == t.task_group_id@
                && r.0.task_groups@[k].project_id@ == c.project_id@
                && r.0.task_groups@[k].branch@ == trim(c.branch@)
                && r.0.task_groups@[k].name@ == group_name_of(s.package_tasks@[i])
        },
        !(is_blank(s.package_tasks@[i].task_group_id@) && r.0.package_tasks@[i].project is Some) ==> {
            &&& r.0.package_tasks@[i].task_group_id == s.package_tasks@[i].task_group_id
            &&& r.0.package_tasks@[i].order == s.package_tasks@[i].order
        },
{
    let ps = r.0.projects@;
    let (tb, gd) = choose|tb: Seq<PackageTask>, gd: Seq<TaskGroup>|
        #![trigger projects_bound(s.package_tasks@, ps, tb), groups_filled(ps, gd, r.0.task_groups@)]
        projects_bound(s.package_tasks@, ps, tb)
        && groups_migrated(tb, s.task_groups@, ps, r.0.package_tasks@, gd)
        && groups_filled(ps, gd, r.0.task_groups@);
    let st = s.package_tasks@[i];
    assert(tb[i] == with_project(st, tb[i].project));
    assert(config_view(tb[i].project) == rebound(st.project, ps));
    assert(task_migrated(s.task_groups@, gd, tb[i], i, r.0.package_tasks@[i]));
    let t = r.0.package_tasks@[i];
    assert(t.project == tb[i].project);
    match t.project {
        Some(c) => {
            let tp = st.project->0;
            lemma_id_for_name_is_id(ps, trim(tp.project_id@));
        },
        None => {},
    }
    if needs_group(tb[i]) {
        law_migrated_tasks_have_groups(tb, s.task_groups@, ps, r.0.package_tasks@, gd, i);
        let k = choose|k: int| 0 <= k < gd.len() && gd[k].id@ == t.task_group_id@ && group_key(#[trigger] gd[k]) == task_key(tb[i]);
        assert(group_filled(ps, gd[k], r.0.task_groups@[k]));
        let g = r.0.task_groups@[k];
        assert(g.id == gd[k].id && g.project_id == gd[k].project_id && g.branch == gd[k].branch && g.name == gd[k].name);
        assert(group_name_of(tb[i]) == group_name_of(st));
        assert(t == with_assignment(tb[i], t.task_group_id, i as u32));
        assert(r.0.task_groups@[k].id@ == t.task_group_id@);
    }
}

/// Projects that are already normalized keep their ids and workspace keys.
proof fn lemma_identities_fixed(s0: Seq<Project>, p1: Seq<Project>, p2: Seq<Project>, n: int)
    requires
        identities_normalized(s0, p1),
        identities_normalized(p1, p2),
        0 <= n <= p1.len(),
    ensures
        forall|i: int| 0 <= i < n ==> (#[trigger] p2[i]).id@ == p1[i].id@ && p2[i].workspace_dir_key@ == p1[i].workspace_dir_key@,
    decreases n,
{
    if n > 0 {
        lemma_identities_fixed(s0, p1, p2, n - 1);
        law_project_identities_unique(s0, p1);
        let i = n - 1;
        assert(field_normalized(s0[i].id@, project_id_views(p1).take(i), p1[i].id@));
        assert(field_normalized(s0[i].workspace_dir_key@, project_key_views(p1).take(i), p1[i].workspace_dir_key@));
        assert(field_normalized(p1[i].id@, project_id_views(p2).take(i), p2[i].id@));
        assert(field_normalized(p1[i].workspace_dir_key@, project_key_views(p2).take(i), p2[i].workspace_dir_key@));
        assert(project_id_views(p2).take(i) =~= project_id_views(p1).take(i)) by {
            assert forall|j: int| 0 <= j < i implies project_id_views(p2).take(i)[j] == project_id_views(p1).take(i)[j] by {
                assert(p2[j].id@ == p1[j].id@);
            }
        }
        assert(project_key_views(p2).take(i) =~= project_key_views(p1).take(i)) by {
            assert forall|j: int| 0 <= j < i implies project_key_views(p2).take(i)[j] == project_key_views(p1).take(i)[j] by {
                assert(p2[j].workspace_dir_key@ == p1[j].workspace_dir_key@);
            }
        }
        assert(!project_id_views(p1).take(i).contains(p1[i].id@)) by {
            if project_id_views(p1).take(i).contains(p1[i].id@) {
                let j = choose|j: int| 0 <= j < i && project_id_views(p1).take(i)[j] == p1[i].id@;
                assert(p1[j].id@ == p1[i].id@);
            }
        }
        assert(!project_key_views(p1).take(i).contains(p1[i].workspace_dir_key@)) by {
            if project_key_views(p1).take(i).contains(p1[i].workspace_dir_key@) {
                let j = choose|j: int| 0 <= j < i && project_key_views(p1).take(i)[j] == p1[i].workspace_dir_key@;
                assert(p1[j].workspace_dir_key@ == p1[i].workspace_dir_key@);
            }
        }
    }
}

/// When every group given has a non-blank id, every task bound to a project
/// ends up in a group: no task of the result still needs one.
pub proof fn law_bound_tasks_placed(s: AppSettings, r1: (AppSettings, bool))
    requires
        settings_normalized(s, r1),
        forall|k: int| 0 <= k < s.task_groups@.len() ==> !is_blank(#[trigger] s.task_groups@[k].id@),
    ensures
        forall|i: int| 0 <= i < r1.0.package_tasks@.len() ==> !needs_group(#[trigger] r1.0.package_tasks@[i]),
{
    let ps1 = r1.0.projects@;
    let (tb1, gd1) = choose|tb: Seq<PackageTask>, gd: Seq<TaskGroup>|
        #![trigger projects_bound(s.package_tasks@, ps1, tb), groups_filled(ps1, gd, r1.0.task_groups@)]
        projects_bound(s.package_tasks@, ps1, tb)
        && groups_migrated(tb, s.task_groups@, ps1, r1.0.package_tasks@, gd)
        && groups_filled(ps1, gd, r1.0.task_groups@);
    let ts1 = r1.0.package_tasks@;
    let gs1 = r1.0.task_groups@;
    assert forall|k: int| 0 <= k < gd1.len() implies !is_blank(#[trigger] gd1[k].id@) by {
        if k < s.task_groups@.len() {
            assert(gd1[k] == s.task_groups@[k]);
        } else {
            assert(new_group_ok(s.task_groups@, gd1, ps1, k));
            reveal_strlit("group_");
            let id = gd1[k].id@;
            assert("group_"@.is_prefix_of(id));
            assert(id.subrange(0, 6)[0] == "group_"@[0]);
            assert(id[0] == 'g');
            assert(crate::text::trim_start(id) == id);
            crate::text::lemma_trim_end_empty(id);
        }
    }
    assert forall|k: int| 0 <= k < gs1.len() implies (#[trigger] gs1[k]).id == gd1[k].id by {
        assert(group_filled(ps1, gd1[k], gs1[k]));
    }
    assert forall|i: int| 0 <= i < ts1.len() implies !needs_group(#[trigger] ts1[i]) by {
        law_task_bindings(s, r1, i);
        match ts1[i].project {
            Some(c) => {
                if is_blank(s.package_tasks@[i].task_group_id@) {
                    let k = choose|k: int| 0 <= k < gs1.len()
                        && (#[trigger] gs1[k]).id@ == ts1[i].task_group_id@
                        && gs1[k].project_id@ == c.project_id@
                        && gs1[k].branch@ == trim(c.branch@)
                        && gs1[k].name@ == group_name_of(s.package_tasks@[i]);
                    assert(!is_blank(gd1[k].id@));
                }
            },
            None => {},
        }
    }
}

/// What normalizing `s` into `r` leaves of `s` when no task still needs a
/// group after it: the second pass in `law_normalize_settings_settled`.
proof fn lemma_second_pass(s0: Seq<Project>, s: AppSettings, r: (AppSettings, bool))
    requires
        settings_normalized(s, r),
        identities_normalized(s0, s.projects@),
        forall|i: int| 0 <= i < s.package_tasks@.len() ==> !needs_group(#[trigger] s.package_tasks@[i]),
        forall|i: int| 0 <= i < s.package_tasks@.len() ==> ((#[trigger] s.package_tasks@[i]).project matches Some(c) ==> project_id_views(s.projects@).contains(c.project_id@)),
        forall|k: int| 0 <= k < s.task_groups@.len() ==> !group_needs_params(s.projects@, #[trigger] s.task_groups@[k]),
        !(s.param_definitions@.len() == 0 && s.package_tasks@.len() > 0),
    ensures
        !r.1,
        r.0.engines == s.engines,
        r.0.git_config == s.git_config,
        r.0.feishu_bots == s.feishu_bots,
        r.0.param_definitions == s.param_definitions,
        r.0.task_groups@ == s.task_groups@,
        r.0.projects@.len() == s.projects@.len(),
        forall|i: int| 0 <= i < s.projects@.len() ==> {
            &&& (#[trigger] r.0.projects@[i]).id@ == s.projects@[i].id@
            &&& r.0.projects@[i].workspace_dir_key@ == s.projects@[i].workspace_dir_key@
            &&& r.0.projects@[i] == with_identity(s.projects@[i], r.0.projects@[i].id, r.0.projects@[i].workspace_dir_key)
        },
        r.0.package_tasks@.len() == s.package_tasks@.len(),
        forall|i: int| 0 <= i < s.package_tasks@.len() ==> {
            &&& #[trigger] r.0.package_tasks@[i] == with_project(s.package_tasks@[i], r.0.package_tasks@[i].project)
            &&& config_view(r.0.package_tasks@[i].project) == config_view(s.package_tasks@[i].project)
        },
{
    let ps1 = s.projects@;
    let ps2 = r.0.projects@;
    let (tb2, gd2) = choose|tb: Seq<PackageTask>, gd: Seq<TaskGroup>|
        #![trigger projects_bound(s.package_tasks@, ps2, tb), groups_filled(ps2, gd, r.0.task_groups@)]
        projects_bound(s.package_tasks@, ps2, tb)
        && groups_migrated(tb, s.task_groups@, ps2, r.0.package_tasks@, gd)
        && groups_filled(ps2, gd, r.0.task_groups@);
    let ts1 = s.package_tasks@;
    let gs1 = s.task_groups@;

    lemma_identities_fixed(s0, ps1, ps2, ps1.len() as int);
    law_project_identities_unique(s0, ps1);
    assert(!identities_changed(ps1, ps2));
    assert(project_id_views(ps2) =~= project_id_views(ps1));

    assert forall|i: int| 0 <= i < ts1.len() implies {
        &&& !needs_group(#[trigger] tb2[i])
        &&& config_view(tb2[i].project) == config_view(ts1[i].project)
    } by {
        assert(tb2[i] == with_project(ts1[i], tb2[i].project));
        assert(config_view(tb2[i].project) == rebound(ts1[i].project, ps2));
        assert(!needs_group(ts1[i]));
        match ts1[i].project {
            Some(c) => {
                let j = choose|j: int| 0 <= j < project_id_views(ps1).len() && project_id_views(ps1)[j] == c.project_id@;
                assert(ps1[j].id@ == c.project_id@);
                assert(field_normalized(s0[j].id@, project_id_views(ps1).take(j), ps1[j].id@));
                assert(project_id_views(ps2).contains(c.project_id@));
            },
            None => {},
        }
    }

    assert(gd2.len() == gs1.len()) by {
        if gd2.len() > gs1.len() {
            let k = gs1.len() as int;
            assert(has_witness(tb2, tb2.len() as int, group_key(gd2[k])));
            let i = choose|i: int| 0 <= i < tb2.len() && needs_group(tb2[i]) && task_key(#[trigger] tb2[i]) == group_key(gd2[k]);
            assert(!needs_group(tb2[i]));
        }
    }
    assert(gd2 =~= gs1) by {
        assert forall|k: int| 0 <= k < gs1.len() implies gd2[k] == gs1[k] by {}
    }
    assert forall|i: int| 0 <= i < ts1.len() implies #[trigger] r.0.package_tasks@[i] == tb2[i] by {
        assert(task_migrated(gs1, gd2, tb2[i], i, r.0.package_tasks@[i]));
    }
    assert forall|k: int| 0 <= k < gs1.len() implies !group_needs_params(ps2, #[trigger] gd2[k]) by {
        assert(!group_needs_params(ps1, gs1[k]));
        let f = project_has_id(gs1[k].project_id@);
        if first_match(ps2, f) is Some {
            let pj = first_match(ps2, f)->0;
            assert(ps2[pj].id@ == ps1[pj].id@);
            crate::state::lemma_first_match_some(ps1, f, pj);
        }
    }
    assert forall|k: int| 0 <= k < gs1.len() implies #[trigger] r.0.task_groups@[k] == gs1[k] by {
        assert(group_filled(ps2, gd2[k], r.0.task_groups@[k]));
        assert(!group_needs_params(ps2, gd2[k]));
    }
    assert(r.0.task_groups@ =~= gs1);
    assert(!(exists|i: int| 0 <= i < tb2.len() && config_view(tb2[i].project) != config_view(#[trigger] ts1[i].project)));
    assert(!(exists|i: int| 0 <= i < tb2.len() && needs_group(#[trigger] tb2[i])));
    assert(!(exists|k: int| 0 <= k < gd2.len() && group_needs_params(ps2, #[trigger] gd2[k])));
}

/// Normalizing settings that are already normalized reports no change and
/// keeps them: the same engines, credentials, bots, parameter definitions and
/// groups, projects with the same ids and workspace keys and nothing else
/// changed, and tasks with the same bindings and nothing else changed.
/// Left out: a first result in which a task bound to a project still has no
/// group (it was placed in a group whose id is blank), since the second pass
/// places it again and reports a change. `law_bound_tasks_placed` shows this
/// cannot happen when every group given has an id.
pub proof fn law_normalize_settings_settled(s: AppSettings, r1: (AppSettings, bool), r2: (AppSettings, bool))
    requires
        settings_normalized(s, r1),
        settings_normalized(r1.0, r2),
        forall|i: int| 0 <= i < r1.0.package_tasks@.len() ==> !needs_group(#[trigger] r1.0.package_tasks@[i]),
    ensures
        !r2.1,
        r2.0.engines == r1.0.engines,
        r2.0.git_config == r1.0.git_config,
        r2.0.feishu_bots == r1.0.feishu_bots,
        r2.0.param_definitions == r1.0.param_definitions,
        r2.0.task_groups@ == r1.0.task_groups@,
        r2.0.projects@.len() == r1.0.projects@.len(),
        forall|i: int| 0 <= i < r1.0.projects@.len() ==> {
            &&& (#[trigger] r2.0.projects@[i]).id@ == r1.0.projects@[i].id@
            &&& r2.0.projects@[i].workspace_dir_key@ == r1.0.projects@[i].workspace_dir_key@
            &&& r2.0.projects@[i] == with_identity(r1.0.projects@[i], r2.0.projects@[i].id, r2.0.projects@[i].workspace_dir_key)
        },
        r2.0.package_tasks@.len() == r1.0.package_tasks@.len(),
        forall|i: int| 0 <= i < r1.0.package_tasks@.len() ==> {
            &&& #[trigger] r2.0.package_tasks@[i] == with_project(r1.0.package_tasks@[i], r2.0.package_tasks@[i].project)
            &&& config_view(r2.0.package_tasks@[i].project) == config_view(r1.0.package_tasks@[i].project)
        },
{
    let ps1 = r1.0.projects@;
    let (tb1, gd1) = choose|tb: Seq<PackageTask>, gd: Seq<TaskGroup>|
        #![trigger projects_bound(s.package_tasks@, ps1, tb), groups_filled(ps1, gd, r1.0.task_groups@)]
        projects_bound(s.package_tasks@, ps1, tb)
        && groups_migrated(tb, s.task_groups@, ps1, r1.0.package_tasks@, gd)
        && groups_filled(ps1, gd, r1.0.task_groups@);
    let ts1 = r1.0.package_tasks@;
    let gs1 = r1.0.task_groups@;
    assert forall|i: int| 0 <= i < ts1.len() implies ((#[trigger] ts1[i]).project matches Some(c) ==> project_id_views(ps1).contains(c.project_id@)) by {
        law_task_bindings(s, r1, i);
    }
    assert forall|k: int| 0 <= k < gs1.len() implies !group_needs_params(ps1, #[trigger] gs1[k]) by {
        assert(group_filled(ps1, gd1[k], gs1[k]));
        let f1 = project_has_id(gd1[k].project_id@);
        match first_match(ps1, f1) {
            Some(pi) => {
                if gd1[k].params.entries@.len() == 0 {
                    assert(legacy_params_of(ps1[pi], gs1[k].params));
                    reveal_strlit("version");
                    assert(gs1[k].params.has_key("version"@));
                }
            },
            None => {},
        }
    }
    assert(!(r1.0.param_definitions@.len() == 0 && ts1.len() > 0));
    lemma_second_pass(s.projects@, r1.0, r2);
}

/// A normalization that reports no change keeps the settings: the same
/// engines, credentials, bots, parameter definitions and groups, projects
/// with the same ids and workspace keys and nothing else changed, and tasks
/// with the same bindings and nothing else changed.
pub proof fn law_normalize_unchanged_keeps(s: AppSettings, r: (AppSettings, bool))
    requires
        settings_normalized(s, r),
        !r.1,
    ensures
        r.0.engines == s.engines,
        r.0.git_config == s.git_config,
        r.0.feishu_bots == s.feishu_bots,
        r.0.param_definitions == s.param_definitions,
        r.0.task_groups@ == s.task_groups@,
        r.0.projects@.len() == s.projects@.len(),
        forall|i: int| 0 <= i < s.projects@.len() ==> {
            &&& (#[trigger] r.0.projects@[i]).id@ == s.projects@[i].id@
            &&& r.0.projects@[i].workspace_dir_key@ == s.projects@[i].workspace_dir_key@
            &&& r.0.projects@[i] == with_identity(s.projects@[i], r.0.projects@[i].id, r.0.projects@[i].workspace_dir_key)
        },
        r.0.package_tasks@.len() == s.package_tasks@.len(),
        forall|i: int| 0 <= i < s.package_tasks@.len() ==> {
            &&& #[trigger] r.0.package_tasks@[i] == with_project(s.package_tasks@[i], r.0.package_tasks@[i].project)
            &&& config_view(r.0.package_tasks@[i].project) == config_view(s.package_tasks@[i].project)
        },
{
    let ps = r.0.projects@;
    let (tb, gd) = choose|tb: Seq<PackageTask>, gd: Seq<TaskGroup>|
        #![trigger projects_bound(s.package_tasks@, ps, tb), groups_filled(ps, gd, r.0.task_groups@)]
        projects_bound(s.package_tasks@, ps, tb)
        && groups_migrated(tb, s.task_groups@, ps, r.0.package_tasks@, gd)
        && groups_filled(ps, gd, r.0.task_groups@);
    let ts = s.package_tasks@;
    let gs = s.task_groups@;
    assert forall|i: int| 0 <= i < s.projects@.len() implies (#[trigger] ps[i]).id@ == s.projects@[i].id@
        && ps[i].workspace_dir_key@ == s.projects@[i].workspace_dir_key@ by {
        assert(!identities_changed(s.projects@, ps));
    }
    assert forall|i: int| 0 <= i < ts.len() implies !needs_group(#[trigger] tb[i])
        && config_view(tb[i].project) == config_view(ts[i].project) by {
        assert(tb[i] == with_project(ts[i], tb[i].project));
    }
    assert(gd.len() == gs.len()) by {
        if gd.len() > gs.len() {
            let k = gs.len() as int;
            assert(has_witness(tb, tb.len() as int, group_key(gd[k])));
            let i = choose|i: int| 0 <= i < tb.len() && needs_group(tb[i]) && task_key(#[trigger] tb[i]) == group_key(gd[k]);
            assert(!needs_group(tb[i]));
        }
    }
    assert(gd =~= gs) by {
        assert forall|k: int| 0 <= k < gs.len() implies gd[k] == gs[k] by {}
    }
    assert forall|i: int| 0 <= i < ts.len() implies #[trigger] r.0.package_tasks@[i] == tb[i] by {
        assert(task_migrated(gs, gd, tb[i], i, r.0.package_tasks@[i]));
        assert(tb[i] == with_project(ts[i], tb[i].project));
    }
    assert forall|k: int| 0 <= k < gs.len() implies #[trigger] r.0.task_groups@[k] == gs[k] by {
        assert(group_filled(ps, gd[k], r.0.task_groups@[k]));
        assert(!group_needs_params(ps, gd[k]));
    }
    assert(r.0.task_groups@ =~= gs);
}

} // verus!
