//! Validation and normalization of task parameters, parameter definitions,
//! presets and the settings that the web page writes.

use vstd::prelude::*;
use crate::error::{AppError, ErrorKind, Problem, outcome};
use crate::json::{JsonValue, value_is_empty, normalize_integral_number, integral_replacement};
use crate::models::{AppSettings, Engine, FeishuBotConfig, GroupParamPreset, ParamDefinition, ParamKind, Project, PublicSettingsUpdate, TaskGroup};
use crate::param_map::{ParamEntry, ParamMap};
use crate::ids::{generated_id, is_generated_id};
use crate::text::{views, chars_of, concat2, concat3, is_blank, str_eq, spec_unicode_lowercase, unicode_lowercase, starts_with, trim, trim_str, is_blank_str};

verus! {

pub open spec fn is_ascii_alpha(c: char) -> bool {
    ('a' <= c && c <= 'z') || ('A' <= c && c <= 'Z')
}

pub open spec fn is_ascii_digit(c: char) -> bool {
    '0' <= c && c <= '9'
}

pub open spec fn is_ascii_alnum(c: char) -> bool {
    is_ascii_alpha(c) || is_ascii_digit(c)
}

/// An identifier: a letter or `_`, then letters, digits or `_`.
pub open spec fn valid_key(s: Seq<char>) -> bool {
    &&& s.len() > 0
    &&& (is_ascii_alpha(s[0]) || s[0] == '_')
    &&& forall|i: int| 1 <= i < s.len() ==> is_ascii_alnum(#[trigger] s[i]) || s[i] == '_'
}

pub fn valid_parameter_key(value: &str) -> (r: bool)
    ensures
        r == valid_key(value@),
{
    let cs = chars_of(value);
    if cs.len() == 0 {
        return false;
    }
    let first = cs[0];
    if !(('a' <= first && first <= 'z') || ('A' <= first && first <= 'Z') || first == '_') {
        return false;
    }
    let mut i: usize = 1;
    while i < cs.len()
        invariant
            1 <= i <= cs.len(),
            cs@ == value@,
            forall|j: int| 1 <= j < i ==> is_ascii_alnum(#[trigger] value@[j]) || value@[j] == '_',
        decreases cs.len() - i,
    {
        let c = cs[i];
        if !(('a' <= c && c <= 'z') || ('A' <= c && c <= 'Z') || ('0' <= c && c <= '9') || c == '_') {
            return false;
        }
        i = i + 1;
    }
    true
}

/// Whether a value has the JSON shape a parameter kind expects.
pub open spec fn matches_kind(v: JsonValue, k: ParamKind) -> bool {
    match k {
        ParamKind::Text | ParamKind::Select => v is Str,
        ParamKind::Number => v is Number,
        ParamKind::Switch => v is Bool,
    }
}

pub fn value_matches_kind(value: &JsonValue, kind: ParamKind) -> (r: bool)
    ensures
        r == matches_kind(*value, kind),
{
    match kind {
        ParamKind::Text | ParamKind::Select => value.is_string(),
        ParamKind::Number => value.is_number(),
        ParamKind::Switch => value.is_boolean(),
    }
}

pub open spec fn has_duplicate(s: Seq<Seq<char>>) -> bool {
    exists|i: int, j: int| 0 <= i < j < s.len() && s[i] == s[j]
}


/// Whether two entries of the list are equal.
pub fn has_duplicate_strings(v: &Vec<String>) -> (r: bool)
    ensures
        r == has_duplicate(views(v@)),
{
    let mut j: usize = 0;
    while j < v.len()
        invariant
            j <= v.len(),
            forall|a: int, b: int| 0 <= a < b < j ==> v@[a]@ != v@[b]@,
        decreases v.len() - j,
    {
        let mut i: usize = 0;
        while i < j
            invariant
                i <= j < v.len(),
                forall|a: int| 0 <= a < i ==> v@[a]@ != v@[j as int]@,
            decreases j - i,
        {
            if str_eq(v[i].as_str(), v[j].as_str()) {
                assert(views(v@)[i as int] == views(v@)[j as int]);
                return true;
            }
            i = i + 1;
        }
        j = j + 1;
    }
    assert forall|a: int, b: int| 0 <= a < b < views(v@).len() implies views(v@)[a] != views(v@)[b] by {
        assert(v@[a]@ != v@[b]@);
    }
    false
}

/// Whether the list holds the string.
pub fn contains_string(v: &Vec<String>, s: &str) -> (r: bool)
    ensures
        r == views(v@).contains(s@),
{
    let mut i: usize = 0;
    while i < v.len()
        invariant
            i <= v.len(),
            forall|a: int| 0 <= a < i ==> v@[a]@ != s@,
        decreases v.len() - i,
    {
        if str_eq(v[i].as_str(), s) {
            assert(views(v@)[i as int] == s@);
            return true;
        }
        i = i + 1;
    }
    assert forall|a: int| 0 <= a < views(v@).len() implies views(v@)[a] != s@ by {
        assert(v@[a]@ != s@);
    }
    false
}

/// What is wrong with a parameter definition, if anything (first failing check).
pub open spec fn definition_problem(d: ParamDefinition) -> Option<Problem> {
    if d.label@.len() == 0 || !valid_key(d.key@) {
        Some((ErrorKind::Validation, "任务参数显示名不能为空，key 必须是字母或下划线开头的标识符"@))
    } else if d.required && value_is_empty(d.default_value) {
        Some((ErrorKind::Validation, "必填参数 "@ + d.label@ + " 必须提供默认值"@))
    } else if !value_is_empty(d.default_value) && !matches_kind(d.default_value, d.kind) {
        Some((ErrorKind::Validation, "参数 "@ + d.label@ + " 的默认值类型不正确"@))
    } else if d.kind == ParamKind::Select {
        if d.options@.len() == 0 {
            Some((ErrorKind::Validation, "选择参数 "@ + d.label@ + " 至少需要一个选项"@))
        } else if has_duplicate(views(d.options@)) {
            Some((ErrorKind::Validation, "选择参数 "@ + d.label@ + " 的选项不能重复"@))
        } else if d.default_value matches JsonValue::Str(v) && !views(d.options@).contains(v@) {
            Some((ErrorKind::Validation, "参数 "@ + d.label@ + " 的默认值不在选项中"@))
        } else {
            None
        }
    } else {
        None
    }
}

fn verr(message: String) -> (e: AppError)
    ensures
        e.kind() == ErrorKind::Validation,
        e.spec_message() == message@,
{
    AppError::Validation(message)
}

fn cerr(message: String) -> (e: AppError)
    ensures
        e.kind() == ErrorKind::Conflict,
        e.spec_message() == message@,
{
    AppError::Conflict(message)
}

/// Checks one parameter definition.
pub fn validate_definition(definition: &ParamDefinition) -> (r: Result<(), AppError>)
    ensures
        outcome(r, definition_problem(*definition)),
{
    let label = definition.label.as_str();
    if definition.label.as_str().is_empty() || !valid_parameter_key(definition.key.as_str()) {
        return Err(verr("任务参数显示名不能为空，key 必须是字母或下划线开头的标识符".to_string()));
    }
    let empty = definition.default_value.is_empty_value();
    if definition.required && empty {
        return Err(verr(concat3("必填参数 ", label, " 必须提供默认值")));
    }
    if !empty && !value_matches_kind(&definition.default_value, definition.kind) {
        return Err(verr(concat3("参数 ", label, " 的默认值类型不正确")));
    }
    if definition.kind == ParamKind::Select {
        if definition.options.len() == 0 {
            return Err(verr(concat3("选择参数 ", label, " 至少需要一个选项")));
        }
        if has_duplicate_strings(&definition.options) {
            return Err(verr(concat3("选择参数 ", label, " 的选项不能重复")));
        }
        if let Some(value) = definition.default_value.as_str() {
            if !contains_string(&definition.options, value) {
                return Err(verr(concat3("参数 ", label, " 的默认值不在选项中")));
            }
        }
    }
    Ok(())
}

pub open spec fn lower(s: Seq<char>) -> Seq<char> {
    spec_unicode_lowercase(s)
}

/// First problem among engines: an empty name or path, or a name that an
/// earlier engine already has (ignoring case).
pub open spec fn engines_problem(es: Seq<Engine>) -> Option<Problem>
    decreases es.len(),
{
    if es.len() == 0 {
        None
    } else {
        let prefix = es.drop_last();
        let e = es.last();
        match engines_problem(prefix) {
            Some(p) => Some(p),
            None => if e.name@.len() == 0 || e.path@.len() == 0 {
                Some((ErrorKind::Validation, "引擎名称和路径不能为空"@))
            } else if exists|i: int| 0 <= i < prefix.len() && lower(#[trigger] prefix[i].name@) == lower(e.name@) {
                Some((ErrorKind::Conflict, "引擎名称不能重复"@))
            } else {
                None
            },
        }
    }
}

/// First problem among projects: a missing field, a repeated id or name, or
/// an engine that no engine entry names (names compared ignoring case).
pub open spec fn projects_problem(ps: Seq<Project>, es: Seq<Engine>) -> Option<Problem>
    decreases ps.len(),
{
    if ps.len() == 0 {
        None
    } else {
        let prefix = ps.drop_last();
        let p = ps.last();
        match projects_problem(prefix, es) {
            Some(q) => Some(q),
            None => if p.name@.len() == 0 || p.git_url@.len() == 0 || p.engine_name@.len() == 0 {
                Some((ErrorKind::Validation, "项目名称、Git 地址和关联引擎不能为空"@))
            } else if exists|i: int| 0 <= i < prefix.len() && (#[trigger] prefix[i]).id@ == p.id@ {
                Some((ErrorKind::Conflict, "项目 ID 不能重复"@))
            } else if exists|i: int| 0 <= i < prefix.len() && lower(#[trigger] prefix[i].name@) == lower(p.name@) {
                Some((ErrorKind::Conflict, "项目名称不能重复"@))
            } else if !(exists|j: int| 0 <= j < es.len() && lower(#[trigger] es[j].name@) == lower(p.engine_name@)) {
                Some((ErrorKind::Validation, "项目 "@ + p.name@ + " 引用了不存在的引擎 "@ + p.engine_name@))
            } else {
                None
            },
        }
    }
}

pub open spec fn webhook_prefix() -> Seq<char> {
    "https://open.feishu.cn/open-apis/bot/v2/hook/"@
}

/// First problem among Feishu bots.
pub open spec fn bots_problem(bs: Seq<FeishuBotConfig>) -> Option<Problem>
    decreases bs.len(),
{
    if bs.len() == 0 {
        None
    } else {
        let prefix = bs.drop_last();
        let b = bs.last();
        match bots_problem(prefix) {
            Some(q) => Some(q),
            None => if b.name@.len() == 0 || b.api_key@.len() == 0 {
                Some((ErrorKind::Validation, "飞书机器人名称和 webhook 不能为空"@))
            } else if !webhook_prefix().is_prefix_of(b.api_key@) {
                Some((ErrorKind::Validation, "飞书 webhook 地址格式无效"@))
            } else if (exists|i: int| 0 <= i < prefix.len() && (#[trigger] prefix[i]).id@ == b.id@)
                || (exists|i: int| 0 <= i < prefix.len() && lower(#[trigger] prefix[i].name@) == lower(b.name@)) {
                Some((ErrorKind::Conflict, "飞书机器人名称和 ID 不能重复"@))
            } else {
                None
            },
        }
    }
}

/// First problem among parameter definitions: an invalid definition or a
/// repeated key.
pub open spec fn definitions_problem(ds: Seq<ParamDefinition>) -> Option<Problem>
    decreases ds.len(),
{
    if ds.len() == 0 {
        None
    } else {
        let prefix = ds.drop_last();
        let d = ds.last();
        match definitions_problem(prefix) {
            Some(q) => Some(q),
            None => match definition_problem(d) {
                Some(q) => Some(q),
                None => if exists|i: int| 0 <= i < prefix.len() && (#[trigger] prefix[i]).key@ == d.key@ {
                    Some((ErrorKind::Conflict, "任务参数 key 不能重复"@))
                } else {
                    None
                },
            },
        }
    }
}

/// First problem in an update of the public settings, checked in the order
/// engines, projects, bots, parameter definitions.
pub open spec fn update_problem(u: PublicSettingsUpdate) -> Option<Problem> {
    match engines_problem(u.engines@) {
        Some(q) => Some(q),
        None => match projects_problem(u.projects@, u.engines@) {
            Some(q) => Some(q),
            None => match bots_problem(u.feishu_bots@) {
                Some(q) => Some(q),
                None => definitions_problem(u.param_definitions@),
            },
        },
    }
}

proof fn lemma_engines_stable(es: Seq<Engine>, n: int)
    requires
        0 <= n <= es.len(),
        engines_problem(es.take(n)) is Some,
    ensures
        engines_problem(es) == engines_problem(es.take(n)),
    decreases es.len(),
{
    if es.len() > n {
        assert(es.drop_last().take(n) =~= es.take(n));
        lemma_engines_stable(es.drop_last(), n);
    } else {
        assert(es.take(n) =~= es);
    }
}

proof fn lemma_projects_stable(ps: Seq<Project>, es: Seq<Engine>, n: int)
    requires
        0 <= n <= ps.len(),
        projects_problem(ps.take(n), es) is Some,
    ensures
        projects_problem(ps, es) == projects_problem(ps.take(n), es),
    decreases ps.len(),
{
    if ps.len() > n {
        assert(ps.drop_last().take(n) =~= ps.take(n));
        lemma_projects_stable(ps.drop_last(), es, n);
    } else {
        assert(ps.take(n) =~= ps);
    }
}

proof fn lemma_bots_stable(bs: Seq<FeishuBotConfig>, n: int)
    requires
        0 <= n <= bs.len(),
        bots_problem(bs.take(n)) is Some,
    ensures
        bots_problem(bs) == bots_problem(bs.take(n)),
    decreases bs.len(),
{
    if bs.len() > n {
        assert(bs.drop_last().take(n) =~= bs.take(n));
        lemma_bots_stable(bs.drop_last(), n);
    } else {
        assert(bs.take(n) =~= bs);
    }
}

proof fn lemma_definitions_stable(ds: Seq<ParamDefinition>, n: int)
    requires
        0 <= n <= ds.len(),
        definitions_problem(ds.take(n)) is Some,
    ensures
        definitions_problem(ds) == definitions_problem(ds.take(n)),
    decreases ds.len(),
{
    if ds.len() > n {
        assert(ds.drop_last().take(n) =~= ds.take(n));
        lemma_definitions_stable(ds.drop_last(), n);
    } else {
        assert(ds.take(n) =~= ds);
    }
}

/// Lower-cased names of the engines.
fn lowered_engine_names(es: &Vec<Engine>) -> (r: Vec<String>)
    ensures
        r@.len() == es@.len(),
        forall|i: int| 0 <= i < es@.len() ==> (#[trigger] r@[i])@ == lower(es@[i].name@),
{
    let mut out: Vec<String> = Vec::new();
    let mut i: usize = 0;
    while i < es.len()
        invariant
            i <= es@.len(),
            out@.len() == i,
            forall|j: int| 0 <= j < i ==> (#[trigger] out@[j])@ == lower(es@[j].name@),
        decreases es.len() - i,
    {
        out.push(unicode_lowercase(es[i].name.as_str()));
        i = i + 1;
    }
    out
}

/// Checks engines, projects, bots and parameter definitions of an update.
#[verifier::loop_isolation(false)]
pub fn validate_update(update: &PublicSettingsUpdate) -> (r: Result<(), AppError>)
    ensures
        outcome(r, update_problem(*update)),
{
    // engines
    let engine_names = lowered_engine_names(&update.engines);
    let mut i: usize = 0;
    while i < update.engines.len()
        invariant
            i <= update.engines@.len(),
            engine_names@.len() == update.engines@.len(),
            forall|j: int| 0 <= j < update.engines@.len() ==> (#[trigger] engine_names@[j])@ == lower(update.engines@[j].name@),
            engines_problem(update.engines@.take(i as int)) is None,
        decreases update.engines.len() - i,
    {
        let e = &update.engines[i];
        let ghost pre = update.engines@.take(i as int);
        assert(update.engines@.take(i + 1).drop_last() =~= pre);
        assert(update.engines@.take(i + 1).last() == update.engines@[i as int]);
        if e.name.as_str().is_empty() || e.path.as_str().is_empty() {
            proof { lemma_engines_stable(update.engines@, i + 1); }
            return Err(verr("引擎名称和路径不能为空".to_string()));
        }
        let mut k: usize = 0;
        while k < i
            invariant
                k <= i < update.engines@.len(),
                pre == update.engines@.take(i as int),
                engine_names@.len() == update.engines@.len(),
                forall|j: int| 0 <= j < update.engines@.len() ==> (#[trigger] engine_names@[j])@ == lower(update.engines@[j].name@),
                forall|j: int| 0 <= j < k ==> lower(update.engines@[j].name@) != lower(update.engines@[i as int].name@),
            decreases i - k,
        {
            if str_eq(engine_names[k].as_str(), engine_names[i].as_str()) {
                assert(pre[k as int] == update.engines@[k as int]);
                proof { lemma_engines_stable(update.engines@, i + 1); }
            return Err(cerr("引擎名称不能重复".to_string()));
            }
            k = k + 1;
        }
        proof {
            assert forall|j: int| 0 <= j < pre.len() implies lower(#[trigger] pre[j].name@) != lower(e.name@) by {
                assert(pre[j] == update.engines@[j]);
            }
        }
        i = i + 1;
    }
    assert(update.engines@.take(update.engines@.len() as int) =~= update.engines@);

    // projects
    let mut project_names: Vec<String> = Vec::new();
    let mut i: usize = 0;
    while i < update.projects.len()
        invariant
            i <= update.projects@.len(),
            engine_names@.len() == update.engines@.len(),
            forall|j: int| 0 <= j < update.engines@.len() ==> (#[trigger] engine_names@[j])@ == lower(update.engines@[j].name@),
            engines_problem(update.engines@) is None,
            project_names@.len() == i,
            forall|j: int| 0 <= j < i ==> (#[trigger] project_names@[j])@ == lower(update.projects@[j].name@),
            projects_problem(update.projects@.take(i as int), update.engines@) is None,
        decreases update.projects.len() - i,
    {
        let p = &update.projects[i];
        let ghost pre = update.projects@.take(i as int);
        assert(update.projects@.take(i + 1).drop_last() =~= pre);
        assert(update.projects@.take(i + 1).last() == update.projects@[i as int]);
        if p.name.as_str().is_empty() || p.git_url.as_str().is_empty() || p.engine_name.as_str().is_empty() {
            proof { lemma_projects_stable(update.projects@, update.engines@, i + 1); }
            return Err(verr("项目名称、Git 地址和关联引擎不能为空".to_string()));
        }
        let mut k: usize = 0;
        while k < i
            invariant
                k <= i < update.projects@.len(),
                pre == update.projects@.take(i as int),
                forall|j: int| 0 <= j < k ==> update.projects@[j].id@ != update.projects@[i as int].id@,
            decreases i - k,
        {
            if str_eq(update.projects[k].id.as_str(), p.id.as_str()) {
                assert(pre[k as int] == update.projects@[k as int]);
                proof { lemma_projects_stable(update.projects@, update.engines@, i + 1); }
            return Err(cerr("项目 ID 不能重复".to_string()));
            }
            k = k + 1;
        }
        let name_lower = unicode_lowercase(p.name.as_str());
        let mut k: usize = 0;
        while k < i
            invariant
                k <= i < update.projects@.len(),
                pre == update.projects@.take(i as int),
                project_names@.len() == i,
                name_lower@ == lower(update.projects@[i as int].name@),
                forall|j: int| 0 <= j < i ==> (#[trigger] project_names@[j])@ == lower(update.projects@[j].name@),
                forall|j: int| 0 <= j < k ==> lower(update.projects@[j].name@) != lower(update.projects@[i as int].name@),
            decreases i - k,
        {
            if str_eq(project_names[k].as_str(), name_lower.as_str()) {
                assert(pre[k as int] == update.projects@[k as int]);
                proof { lemma_projects_stable(update.projects@, update.engines@, i + 1); }
            return Err(cerr("项目名称不能重复".to_string()));
            }
            k = k + 1;
        }
        let engine_lower = unicode_lowercase(p.engine_name.as_str());
        if !contains_string(&engine_names, engine_lower.as_str()) {
            proof {
                if exists|j: int| 0 <= j < update.engines@.len() && lower(#[trigger] update.engines@[j].name@) == lower(p.engine_name@) {
                    let j = choose|j: int| 0 <= j < update.engines@.len() && lower(#[trigger] update.engines@[j].name@) == lower(p.engine_name@);
                    assert(views(engine_names@)[j] == engine_lower@);
                }
            }
            let mut msg = concat3("项目 ", p.name.as_str(), " 引用了不存在的引擎 ");
            crate::text::push_str(&mut msg, p.engine_name.as_str());
            proof { lemma_projects_stable(update.projects@, update.engines@, i + 1); }
            return Err(verr(msg));
        }
        proof {
            let j = choose|j: int| 0 <= j < views(engine_names@).len() && views(engine_names@)[j] == engine_lower@;
            assert(lower(update.engines@[j].name@) == lower(p.engine_name@));
            assert forall|j: int| 0 <= j < pre.len() implies (#[trigger] pre[j]).id@ != p.id@ by {
                assert(pre[j] == update.projects@[j]);
            }
            assert forall|j: int| 0 <= j < pre.len() implies lower(#[trigger] pre[j].name@) != lower(p.name@) by {
                assert(pre[j] == update.projects@[j]);
            }
        }
        project_names.push(name_lower);
        i = i + 1;
    }
    assert(update.projects@.take(update.projects@.len() as int) =~= update.projects@);

    // bots
    let mut bot_names: Vec<String> = Vec::new();
    let mut i: usize = 0;
    while i < update.feishu_bots.len()
        invariant
            i <= update.feishu_bots@.len(),
            engines_problem(update.engines@) is None,
            projects_problem(update.projects@, update.engines@) is None,
            bot_names@.len() == i,
            forall|j: int| 0 <= j < i ==> (#[trigger] bot_names@[j])@ == lower(update.feishu_bots@[j].name@),
            bots_problem(update.feishu_bots@.take(i as int)) is None,
        decreases update.feishu_bots.len() - i,
    {
        let b = &update.feishu_bots[i];
        let ghost pre = update.feishu_bots@.take(i as int);
        assert(update.feishu_bots@.take(i + 1).drop_last() =~= pre);
        assert(update.feishu_bots@.take(i + 1).last() == update.feishu_bots@[i as int]);
        if b.name.as_str().is_empty() || b.api_key.as_str().is_empty() {
            proof { lemma_bots_stable(update.feishu_bots@, i + 1); }
            return Err(verr("飞书机器人名称和 webhook 不能为空".to_string()));
        }
        if !starts_with(b.api_key.as_str(), "https://open.feishu.cn/open-apis/bot/v2/hook/") {
            proof { lemma_bots_stable(update.feishu_bots@, i + 1); }
            return Err(verr("飞书 webhook 地址格式无效".to_string()));
        }
        let mut k: usize = 0;
        while k < i
            invariant
                k <= i < update.feishu_bots@.len(),
                pre == update.feishu_bots@.take(i as int),
                forall|j: int| 0 <= j < k ==> update.feishu_bots@[j].id@ != update.feishu_bots@[i as int].id@,
            decreases i - k,
        {
            if str_eq(update.feishu_bots[k].id.as_str(), b.id.as_str()) {
                assert(pre[k as int] == update.feishu_bots@[k as int]);
                proof { lemma_bots_stable(update.feishu_bots@, i + 1); }
            return Err(cerr("飞书机器人名称和 ID 不能重复".to_string()));
            }
            k = k + 1;
        }
        let name_lower = unicode_lowercase(b.name.as_str());
        let mut k: usize = 0;
        while k < i
            invariant
                k <= i < update.feishu_bots@.len(),
                pre == update.feishu_bots@.take(i as int),
                bot_names@.len() == i,
                name_lower@ == lower(update.feishu_bots@[i as int].name@),
                forall|j: int| 0 <= j < i ==> (#[trigger] bot_names@[j])@ == lower(update.feishu_bots@[j].name@),
                forall|j: int| 0 <= j < k ==> lower(update.feishu_bots@[j].name@) != lower(update.feishu_bots@[i as int].name@),
            decreases i - k,
        {
            if str_eq(bot_names[k].as_str(), name_lower.as_str()) {
                assert(pre[k as int] == update.feishu_bots@[k as int]);
                proof { lemma_bots_stable(update.feishu_bots@, i + 1); }
            return Err(cerr("飞书机器人名称和 ID 不能重复".to_string()));
            }
            k = k + 1;
        }
        proof {
            assert forall|j: int| 0 <= j < pre.len() implies (#[trigger] pre[j]).id@ != b.id@ by {
                assert(pre[j] == update.feishu_bots@[j]);
            }
            assert forall|j: int| 0 <= j < pre.len() implies lower(#[trigger] pre[j].name@) != lower(b.name@) by {
                assert(pre[j] == update.feishu_bots@[j]);
            }
        }
        bot_names.push(name_lower);
        i = i + 1;
    }
    assert(update.feishu_bots@.take(update.feishu_bots@.len() as int) =~= update.feishu_bots@);

    // parameter definitions
    let mut i: usize = 0;
    while i < update.param_definitions.len()
        invariant
            i <= update.param_definitions@.len(),
            engines_problem(update.engines@) is None,
            projects_problem(update.projects@, update.engines@) is None,
            bots_problem(update.feishu_bots@) is None,
            definitions_problem(update.param_definitions@.take(i as int)) is None,
        decreases update.param_definitions.len() - i,
    {
        let d = &update.param_definitions[i];
        let ghost pre = update.param_definitions@.take(i as int);
        assert(update.param_definitions@.take(i + 1).drop_last() =~= pre);
        assert(update.param_definitions@.take(i + 1).last() == update.param_definitions@[i as int]);
        match validate_definition(d) {
            Err(e) => {
                proof { lemma_definitions_stable(update.param_definitions@, i + 1); }
                return Err(e);
            },
            Ok(()) => {},
        }
        let mut k: usize = 0;
        while k < i
            invariant
                k <= i < update.param_definitions@.len(),
                pre == update.param_definitions@.take(i as int),
                forall|j: int| 0 <= j < k ==> update.param_definitions@[j].key@ != update.param_definitions@[i as int].key@,
            decreases i - k,
        {
            if str_eq(update.param_definitions[k].key.as_str(), d.key.as_str()) {
                assert(pre[k as int] == update.param_definitions@[k as int]);
                proof { lemma_definitions_stable(update.param_definitions@, i + 1); }
            return Err(cerr("任务参数 key 不能重复".to_string()));
            }
            k = k + 1;
        }
        proof {
            assert forall|j: int| 0 <= j < pre.len() implies (#[trigger] pre[j]).key@ != d.key@ by {
                assert(pre[j] == update.param_definitions@[j]);
            }
        }
        i = i + 1;
    }
    assert(update.param_definitions@.take(update.param_definitions@.len() as int) =~= update.param_definitions@);
    Ok(())
}


/// A number after `normalize_integral_number`.
pub open spec fn normalized_number(v: JsonValue) -> JsonValue {
    match integral_replacement(v) {
        Some(r) => r,
        None => v,
    }
}

/// A value checked against its definition's kind: numbers normalized first,
/// then the shape checked, and select values checked against the options.
pub open spec fn kind_checked(d: ParamDefinition, v: JsonValue) -> (JsonValue, Option<Problem>) {
    let v1 = if d.kind == ParamKind::Number { normalized_number(v) } else { v };
    let p = if d.kind == ParamKind::Number && !(v1 is Number) {
        Some((ErrorKind::Validation, "参数 "@ + d.label@ + " 必须是数字"@))
    } else if d.kind == ParamKind::Select && !(v1 is Str) {
        Some((ErrorKind::Validation, "参数 "@ + d.label@ + " 必须是选项值"@))
    } else if d.kind == ParamKind::Select && !views(d.options@).contains(v1->Str_0@) {
        Some((ErrorKind::Validation, "参数 "@ + d.label@ + " 的选项无效"@))
    } else if d.kind == ParamKind::Switch && !(v1 is Bool) {
        Some((ErrorKind::Validation, "参数 "@ + d.label@ + " 必须是开关值"@))
    } else {
        None
    };
    (v1, p)
}

/// Checks a value against its definition, normalizing integral numbers in place.
pub fn check_param_kind(definition: &ParamDefinition, value: &mut JsonValue) -> (r: Result<(), AppError>)
    ensures
        *final(value) == kind_checked(*definition, *old(value)).0,
        outcome(r, kind_checked(*definition, *old(value)).1),
{
    let label = definition.label.as_str();
    if definition.kind == ParamKind::Number {
        normalize_integral_number(value);
        if !value.is_number() {
            return Err(verr(concat3("参数 ", label, " 必须是数字")));
        }
    }
    if definition.kind == ParamKind::Select {
        match value.as_str() {
            None => {
                return Err(verr(concat3("参数 ", label, " 必须是选项值")));
            },
            Some(text) => {
                if !contains_string(&definition.options, text) {
                    return Err(verr(concat3("参数 ", label, " 的选项无效")));
                }
            },
        }
    }
    if definition.kind == ParamKind::Switch && !value.is_boolean() {
        return Err(verr(concat3("参数 ", label, " 必须是开关值")));
    }
    Ok(())
}

/// Whether some definition has the key.
pub open spec fn defines(ds: Seq<ParamDefinition>, k: Seq<char>) -> bool {
    exists|i: int| 0 <= i < ds.len() && (#[trigger] ds[i]).key@ == k
}

/// The first key, in key order, that no definition has.
pub open spec fn first_unknown(es: Seq<ParamEntry>, ds: Seq<ParamDefinition>) -> Option<Seq<char>>
    decreases es.len(),
{
    if es.len() == 0 {
        None
    } else if !defines(ds, es[0].key@) {
        Some(es[0].key@)
    } else {
        first_unknown(es.drop_first(), ds)
    }
}

/// Position of the first definition with the key.
pub fn find_definition(ds: &Vec<ParamDefinition>, key: &str) -> (r: Option<usize>)
    ensures
        r is Some <==> defines(ds@, key@),
        r matches Some(i) ==> i < ds@.len() && ds@[i as int].key@ == key@
            && forall|j: int| 0 <= j < i ==> ds@[j].key@ != key@,
{
    let mut i: usize = 0;
    while i < ds.len()
        invariant
            i <= ds@.len(),
            forall|j: int| 0 <= j < i ==> ds@[j].key@ != key@,
        decreases ds.len() - i,
    {
        if str_eq(ds[i].key.as_str(), key) {
            return Some(i);
        }
        i = i + 1;
    }
    None
}

/// Finds the first entry whose key no definition has.
fn find_unknown_key(params: &ParamMap, ds: &Vec<ParamDefinition>) -> (r: Option<usize>)
    ensures
        first_unknown(params.entries@, ds@) is None <==> r is None,
        r matches Some(i) ==> i < params.entries@.len() && first_unknown(params.entries@, ds@) == Some(params.entries@[i as int].key@),
{
    let mut i: usize = 0;
    let ghost es = params.entries@;
    assert(es.subrange(0, es.len() as int) =~= es);
    while i < params.entries.len()
        invariant
            i <= es.len(),
            es == params.entries@,
            first_unknown(es, ds@) == first_unknown(es.subrange(i as int, es.len() as int), ds@),
        decreases params.entries.len() - i,
    {
        assert(es.subrange(i as int, es.len() as int).drop_first() =~= es.subrange(i + 1, es.len() as int));
        if find_definition(ds, params.entries[i].key.as_str()).is_none() {
            return Some(i);
        }
        i = i + 1;
    }
    None
}

/// The value a task group keeps for each definition, in definition order;
/// stops at the first problem.
pub open spec fn params_fold(ds: Seq<ParamDefinition>, given: Map<Seq<char>, JsonValue>) -> (Map<Seq<char>, JsonValue>, Option<Problem>)
    decreases ds.len(),
{
    if ds.len() == 0 {
        (Map::empty(), None)
    } else {
        let (m, p) = params_fold(ds.drop_last(), given);
        if p is Some {
            (m, p)
        } else {
            let d = ds.last();
            let v = if given.contains_key(d.key@) { given[d.key@] } else { d.default_value };
            if d.required && value_is_empty(v) {
                (m, Some((ErrorKind::Validation, "参数 "@ + d.label@ + " 不能为空"@)))
            } else {
                let (v2, q) = kind_checked(d, v);
                if q is Some { (m, q) } else { (m.insert(d.key@, v2), None) }
            }
        }
    }
}

/// What `normalize_params` reports: an unknown key first, else the first
/// problem of the fold.
pub open spec fn params_problem(ds: Seq<ParamDefinition>, given: ParamMap) -> Option<Problem> {
    match first_unknown(given.entries@, ds) {
        Some(k) => Some((ErrorKind::Validation, "未知任务参数 "@ + k)),
        None => params_fold(ds, given.map()).1,
    }
}

/// The parameters of a task group: each given key must be defined; each
/// definition gets the given value or its default, required values may not
/// be empty, and every value must fit its kind.
pub fn normalize_params(definitions: &Vec<ParamDefinition>, params: &ParamMap) -> (r: Result<ParamMap, AppError>)
    requires
        params.wf(),
    ensures
        outcome(r, params_problem(definitions@, *params)),
        r matches Ok(m) ==> m.wf() && m.map() == params_fold(definitions@, params.map()).0,
{
    if let Some(i) = find_unknown_key(params, definitions) {
        return Err(verr(concat2("未知任务参数 ", params.entries[i].key.as_str())));
    }
    let mut out = ParamMap::new();
    let mut i: usize = 0;
    assert(out.map() =~= Map::<Seq<char>, JsonValue>::empty());
    assert(definitions@.take(0) =~= Seq::<ParamDefinition>::empty());
    while i < definitions.len()
        invariant
            i <= definitions@.len(),
            params.wf(),
            out.wf(),
            params_fold(definitions@.take(i as int), params.map()) == (out.map(), None::<Problem>),
            first_unknown(params.entries@, definitions@) is None,
        decreases definitions.len() - i,
    {
        let d = &definitions[i];
        let ghost pre = definitions@.take(i as int);
        assert(definitions@.take(i + 1).drop_last() =~= pre);
        assert(definitions@.take(i + 1).last() == *d);
        let mut value = match params.get(d.key.as_str()) {
            Some(v) => v.dup(),
            None => d.default_value.dup(),
        };
        if d.required && value.is_empty_value() {
            proof { lemma_fold_stable(definitions@, params.map(), i + 1); }
            return Err(verr(concat3("参数 ", d.label.as_str(), " 不能为空")));
        }
        match check_param_kind(d, &mut value) {
            Err(e) => {
                proof { lemma_fold_stable(definitions@, params.map(), i + 1); }
                return Err(e);
            },
            Ok(()) => {},
        }
        out.insert(copy_key(&d.key), value);
        i = i + 1;
    }
    assert(definitions@.take(definitions@.len() as int) =~= definitions@);
    Ok(out)
}

fn copy_key(k: &String) -> (r: String)
    ensures
        r@ == k@,
{
    crate::text::copy_string(k.as_str())
}

proof fn lemma_fold_stable(ds: Seq<ParamDefinition>, given: Map<Seq<char>, JsonValue>, n: int)
    requires
        0 <= n <= ds.len(),
        params_fold(ds.take(n), given).1 is Some,
    ensures
        params_fold(ds, given).1 == params_fold(ds.take(n), given).1,
    decreases ds.len(),
{
    if ds.len() > n {
        assert(ds.drop_last().take(n) =~= ds.take(n));
        lemma_fold_stable(ds.drop_last(), given, n);
    } else {
        assert(ds.take(n) =~= ds);
    }
}

/// The first definition with a key.
pub open spec fn def_for(ds: Seq<ParamDefinition>, k: Seq<char>) -> Option<ParamDefinition>
    decreases ds.len(),
{
    if ds.len() == 0 {
        None
    } else if ds[0].key@ == k {
        Some(ds[0])
    } else {
        def_for(ds.drop_first(), k)
    }
}

proof fn lemma_def_for(ds: Seq<ParamDefinition>, k: Seq<char>, i: int)
    requires
        0 <= i < ds.len(),
        ds[i].key@ == k,
        forall|j: int| 0 <= j < i ==> ds[j].key@ != k,
    ensures
        def_for(ds, k) == Some(ds[i]),
    decreases i,
{
    if i > 0 {
        lemma_def_for(ds.drop_first(), k, i - 1);
    }
}

proof fn lemma_def_for_none(ds: Seq<ParamDefinition>, k: Seq<char>)
    requires
        !defines(ds, k),
    ensures
        def_for(ds, k) is None,
    decreases ds.len(),
{
    if ds.len() > 0 {
        assert(ds[0].key@ != k);
        assert forall|i: int| 0 <= i < ds.drop_first().len() implies (#[trigger] ds.drop_first()[i]).key@ != k by {
            assert(ds.drop_first()[i] == ds[i + 1]);
        }
        lemma_def_for_none(ds.drop_first(), k);
    }
}

/// A preset's parameters, checked entry by entry in key order.
pub open spec fn preset_params_fold(ds: Seq<ParamDefinition>, name: Seq<char>, es: Seq<ParamEntry>) -> (Map<Seq<char>, JsonValue>, Option<Problem>)
    decreases es.len(),
{
    if es.len() == 0 {
        (Map::empty(), None)
    } else {
        let (m, p) = preset_params_fold(ds, name, es.drop_last());
        if p is Some {
            (m, p)
        } else {
            let e = es.last();
            match def_for(ds, e.key@) {
                None => (m, Some((ErrorKind::Validation, "预设 "@ + name + " 引用了未知任务参数 "@ + e.key@))),
                Some(d) => {
                    let (v2, q) = kind_checked(d, e.value);
                    if q is Some { (m, q) } else { (m.insert(e.key@, v2), None) }
                },
            }
        }
    }
}

proof fn lemma_preset_fold_stable(ds: Seq<ParamDefinition>, name: Seq<char>, es: Seq<ParamEntry>, n: int)
    requires
        0 <= n <= es.len(),
        preset_params_fold(ds, name, es.take(n)).1 is Some,
    ensures
        preset_params_fold(ds, name, es).1 == preset_params_fold(ds, name, es.take(n)).1,
    decreases es.len(),
{
    if es.len() > n {
        assert(es.drop_last().take(n) =~= es.take(n));
        lemma_preset_fold_stable(ds, name, es.drop_last(), n);
    } else {
        assert(es.take(n) =~= es);
    }
}

/// Names of presets, lower-cased (ASCII), for the duplicate check.
pub open spec fn preset_names(ps: Seq<GroupParamPreset>) -> Seq<Seq<char>> {
    ps.map_values(|p: GroupParamPreset| crate::text::lower_seq(trim(p.name@)))
}

/// The first problem among presets: an empty name, a name used before
/// (ignoring ASCII case), or a parameter problem.
pub open spec fn presets_problem(ds: Seq<ParamDefinition>, ps: Seq<GroupParamPreset>) -> Option<Problem>
    decreases ps.len(),
{
    if ps.len() == 0 {
        None
    } else {
        match presets_problem(ds, ps.drop_last()) {
            Some(q) => Some(q),
            None => {
                let p = ps.last();
                let name = trim(p.name@);
                if name.len() == 0 {
                    Some((ErrorKind::Validation, "预设名称不能为空"@))
                } else if preset_names(ps.drop_last()).contains(crate::text::lower_seq(name)) {
                    Some((ErrorKind::Conflict, "预设名称不能重复："@ + name))
                } else {
                    preset_params_fold(ds, name, p.params.entries@).1
                }
            },
        }
    }
}

proof fn lemma_presets_stable(ds: Seq<ParamDefinition>, ps: Seq<GroupParamPreset>, n: int)
    requires
        0 <= n <= ps.len(),
        presets_problem(ds, ps.take(n)) is Some,
    ensures
        presets_problem(ds, ps) == presets_problem(ds, ps.take(n)),
    decreases ps.len(),
{
    if ps.len() > n {
        assert(ps.drop_last().take(n) =~= ps.take(n));
        lemma_presets_stable(ds, ps.drop_last(), n);
    } else {
        assert(ps.take(n) =~= ps);
    }
}

/// A normalized preset as it relates to its input.
pub open spec fn preset_normalized(ds: Seq<ParamDefinition>, input: GroupParamPreset, output: GroupParamPreset) -> bool {
    &&& output.name@ == trim(input.name@)
    &&& (if is_blank(input.id@) { is_generated_id(output.id@, "preset_"@) } else { output.id@ == trim(input.id@) })
    &&& output.params.wf()
    &&& output.params.map() == preset_params_fold(ds, trim(input.name@), input.params.entries@).0
}

/// Checks the parameters of one preset.
fn normalize_preset_params(definitions: &Vec<ParamDefinition>, name: &str, params: &ParamMap) -> (r: Result<ParamMap, AppError>)
    ensures
        outcome(r, preset_params_fold(definitions@, name@, params.entries@).1),
        r matches Ok(m) ==> m.wf() && m.map() == preset_params_fold(definitions@, name@, params.entries@).0,
{
    let mut out = ParamMap::new();
    let mut i: usize = 0;
    let ghost es = params.entries@;
    assert(out.map() =~= Map::<Seq<char>, JsonValue>::empty());
    assert(es.take(0) =~= Seq::<ParamEntry>::empty());
    while i < params.entries.len()
        invariant
            i <= es.len(),
            es == params.entries@,
            out.wf(),
            preset_params_fold(definitions@, name@, es.take(i as int)) == (out.map(), None::<Problem>),
        decreases params.entries.len() - i,
    {
        let e = &params.entries[i];
        assert(es.take(i + 1).drop_last() =~= es.take(i as int));
        assert(es.take(i + 1).last() == *e);
        match find_definition(definitions, e.key.as_str()) {
            None => {
                proof {
                    lemma_def_for_none(definitions@, e.key@);
                    lemma_preset_fold_stable(definitions@, name@, es, i + 1);
                }
                let mut msg = concat3("预设 ", name, " 引用了未知任务参数 ");
                crate::text::push_str(&mut msg, e.key.as_str());
                return Err(verr(msg));
            },
            Some(k) => {
                proof { lemma_def_for(definitions@, e.key@, k as int); }
                let mut value = e.value.dup();
                match check_param_kind(&definitions[k], &mut value) {
                    Err(err) => {
                        proof { lemma_preset_fold_stable(definitions@, name@, es, i + 1); }
                        return Err(err);
                    },
                    Ok(()) => {},
                }
                out.insert(copy_key(&e.key), value);
            },
        }
        i = i + 1;
    }
    assert(es.take(es.len() as int) =~= es);
    Ok(out)
}

/// Presets of a task group: names trimmed, non-empty and unique (ignoring
/// ASCII case), parameters defined and of the right kind, missing ids generated.
pub fn normalize_presets(definitions: &Vec<ParamDefinition>, presets: &Vec<GroupParamPreset>) -> (r: Result<Vec<GroupParamPreset>, AppError>)
    ensures
        outcome(r, presets_problem(definitions@, presets@)),
        r matches Ok(out) ==> out@.len() == presets@.len()
            && forall|i: int| 0 <= i < out@.len() ==> preset_normalized(definitions@, presets@[i], #[trigger] out@[i]),
{
    let mut out: Vec<GroupParamPreset> = Vec::new();
    let mut seen: Vec<String> = Vec::new();
    let mut i: usize = 0;
    assert(presets@.take(0) =~= Seq::<GroupParamPreset>::empty());
    while i < presets.len()
        invariant
            i <= presets@.len(),
            out@.len() == i,
            seen@.len() == i,
            forall|j: int| 0 <= j < i ==> (#[trigger] seen@[j])@ == preset_names(presets@)[j],
            forall|j: int| 0 <= j < i ==> preset_normalized(definitions@, presets@[j], #[trigger] out@[j]),
            presets_problem(definitions@, presets@.take(i as int)) is None,
        decreases presets.len() - i,
    {
        let p = &presets[i];
        let ghost pre = presets@.take(i as int);
        assert(presets@.take(i + 1).drop_last() =~= pre);
        assert(presets@.take(i + 1).last() == *p);
        let name = trim_str(p.name.as_str());
        if name.as_str().is_empty() {
            proof { lemma_presets_stable(definitions@, presets@, i + 1); }
            return Err(verr("预设名称不能为空".to_string()));
        }
        let lowered = crate::text::to_ascii_lowercase(name.as_str());
        if contains_string(&seen, lowered.as_str()) {
            proof {
                let j = choose|j: int| 0 <= j < views(seen@).len() && views(seen@)[j] == lowered@;
                assert(preset_names(pre)[j] == preset_names(presets@)[j]);
                assert(preset_names(pre).contains(lowered@));
                lemma_presets_stable(definitions@, presets@, i + 1);
            }
            return Err(cerr(concat2("预设名称不能重复：", name.as_str())));
        }
        proof {
            assert(!preset_names(pre).contains(lowered@)) by {
                if preset_names(pre).contains(lowered@) {
                    let j = choose|j: int| 0 <= j < preset_names(pre).len() && preset_names(pre)[j] == lowered@;
                    assert(views(seen@)[j] == lowered@);
                }
            }
        }
        let params = match normalize_preset_params(definitions, name.as_str(), &p.params) {
            Err(e) => {
                proof { lemma_presets_stable(definitions@, presets@, i + 1); }
                return Err(e);
            },
            Ok(m) => m,
        };
        let id = if is_blank_str(p.id.as_str()) {
            generated_id("preset_")
        } else {
            trim_str(p.id.as_str())
        };
        proof { reveal_strlit("preset_"); }
        seen.push(lowered);
        out.push(GroupParamPreset { id, name, params });
        i = i + 1;
    }
    assert(presets@.take(presets@.len() as int) =~= presets@);
    Ok(out)
}

/// Hidden keys: trimmed, blanks dropped, each must be defined, first occurrence kept.
pub open spec fn hidden_fold(ds: Seq<ParamDefinition>, hs: Seq<String>) -> (Seq<Seq<char>>, Option<Problem>)
    decreases hs.len(),
{
    if hs.len() == 0 {
        (Seq::empty(), None)
    } else {
        let (keep, p) = hidden_fold(ds, hs.drop_last());
        if p is Some {
            (keep, p)
        } else {
            let k = trim(hs.last()@);
            if k.len() == 0 {
                (keep, None)
            } else if !defines(ds, k) {
                (keep, Some((ErrorKind::Validation, "隐藏参数引用了未知任务参数 "@ + k)))
            } else if keep.contains(k) {
                (keep, None)
            } else {
                (keep.push(k), None)
            }
        }
    }
}

proof fn lemma_hidden_stable(ds: Seq<ParamDefinition>, hs: Seq<String>, n: int)
    requires
        0 <= n <= hs.len(),
        hidden_fold(ds, hs.take(n)).1 is Some,
    ensures
        hidden_fold(ds, hs).1 == hidden_fold(ds, hs.take(n)).1,
    decreases hs.len(),
{
    if hs.len() > n {
        assert(hs.drop_last().take(n) =~= hs.take(n));
        lemma_hidden_stable(ds, hs.drop_last(), n);
    } else {
        assert(hs.take(n) =~= hs);
    }
}

/// The keys a task group hides.
pub fn normalize_hidden_params(definitions: &Vec<ParamDefinition>, hidden: &Vec<String>) -> (r: Result<Vec<String>, AppError>)
    ensures
        outcome(r, hidden_fold(definitions@, hidden@).1),
        r matches Ok(out) ==> views(out@) == hidden_fold(definitions@, hidden@).0,
{
    let mut out: Vec<String> = Vec::new();
    let mut i: usize = 0;
    assert(hidden@.take(0) =~= Seq::<String>::empty());
    assert(views(out@) =~= Seq::<Seq<char>>::empty());
    while i < hidden.len()
        invariant
            i <= hidden@.len(),
            hidden_fold(definitions@, hidden@.take(i as int)) == (views(out@), None::<Problem>),
        decreases hidden.len() - i,
    {
        assert(hidden@.take(i + 1).drop_last() =~= hidden@.take(i as int));
        assert(hidden@.take(i + 1).last() == hidden@[i as int]);
        let key = trim_str(hidden[i].as_str());
        if key.as_str().is_empty() {
            i = i + 1;
            continue;
        }
        if find_definition(definitions, key.as_str()).is_none() {
            proof { lemma_hidden_stable(definitions@, hidden@, i + 1); }
            return Err(verr(concat2("隐藏参数引用了未知任务参数 ", key.as_str())));
        }
        if !contains_string(&out, key.as_str()) {
            out.push(key);
            assert(views(out@) =~= views(out@.drop_last()).push(out@.last()@));
        }
        i = i + 1;
    }
    assert(hidden@.take(hidden@.len() as int) =~= hidden@);
    Ok(out)
}


/// Options of a select definition: trimmed, blanks dropped.
pub open spec fn trimmed_options(opts: Seq<String>) -> Seq<Seq<char>>
    decreases opts.len(),
{
    if opts.len() == 0 {
        Seq::empty()
    } else {
        let rest = trimmed_options(opts.drop_last());
        let t = trim(opts.last()@);
        if t.len() == 0 { rest } else { rest.push(t) }
    }
}

pub open spec fn engine_normalized(a: Engine, b: Engine) -> bool {
    b.name@ == trim(a.name@) && b.path@ == trim(a.path@)
}

/// A trimmed identifier, or a generated one when it was blank.
pub open spec fn id_normalized(a: Seq<char>, b: Seq<char>, prefix: Seq<char>) -> bool {
    if is_blank(a) { is_generated_id(b, prefix) } else { b == trim(a) }
}

pub open spec fn project_normalized(a: Project, b: Project) -> bool {
    &&& id_normalized(a.id@, b.id@, "project_"@)
    &&& b.name@ == trim(a.name@)
    &&& b.workspace_dir_key@ == trim(a.workspace_dir_key@)
    &&& b.git_url@ == trim(a.git_url@)
    &&& b.engine_name@ == trim(a.engine_name@)
    &&& b.version == a.version
    &&& b.minor_version == a.minor_version
    &&& b.build_mode == a.build_mode
    &&& b.is_hot_update == a.is_hot_update
    &&& b.enable_pay == a.enable_pay
    &&& b.review_mode == a.review_mode
}

pub open spec fn bot_normalized(a: FeishuBotConfig, b: FeishuBotConfig) -> bool {
    &&& id_normalized(a.id@, b.id@, "bot_"@)
    &&& b.name@ == trim(a.name@)
    &&& b.api_key@ == trim(a.api_key@)
}

pub open spec fn definition_normalized(a: ParamDefinition, b: ParamDefinition, index: int) -> bool {
    &&& b.key@ == trim(a.key@)
    &&& b.label@ == trim(a.label@)
    &&& b.description@ == trim(a.description@)
    &&& b.kind == a.kind
    &&& b.required == a.required
    &&& b.order == index as u32
    &&& views(b.options@) == (if a.kind == ParamKind::Select { trimmed_options(a.options@) } else { Seq::empty() })
    &&& b.default_value == (if a.kind == ParamKind::Number { normalized_number(a.default_value) } else { a.default_value })
}

fn trim_options(opts: &Vec<String>) -> (r: Vec<String>)
    ensures
        views(r@) == trimmed_options(opts@),
{
    let mut out: Vec<String> = Vec::new();
    let mut i: usize = 0;
    assert(opts@.take(0) =~= Seq::<String>::empty());
    assert(views(out@) =~= Seq::<Seq<char>>::empty());
    while i < opts.len()
        invariant
            i <= opts@.len(),
            views(out@) == trimmed_options(opts@.take(i as int)),
        decreases opts.len() - i,
    {
        assert(opts@.take(i + 1).drop_last() =~= opts@.take(i as int));
        assert(opts@.take(i + 1).last() == opts@[i as int]);
        let t = trim_str(opts[i].as_str());
        if !t.as_str().is_empty() {
            out.push(t);
            assert(views(out@) =~= views(out@.drop_last()).push(out@.last()@));
        }
        i = i + 1;
    }
    assert(opts@.take(opts@.len() as int) =~= opts@);
    out
}

fn normalized_id(id: &str, prefix: &str) -> (r: String)
    ensures
        id_normalized(id@, r@, prefix@),
{
    if is_blank_str(id) {
        generated_id(prefix)
    } else {
        trim_str(id)
    }
}

/// Trims every text field of the update, generates missing project and bot
/// ids, keeps only non-blank options of select parameters (none for other
/// kinds), numbers definitions by position and normalizes integral number defaults.
pub fn normalize_update(update: &mut PublicSettingsUpdate)
    ensures
        final(update).engines@.len() == old(update).engines@.len(),
        forall|i: int| 0 <= i < old(update).engines@.len() ==> engine_normalized(old(update).engines@[i], #[trigger] final(update).engines@[i]),
        final(update).projects@.len() == old(update).projects@.len(),
        forall|i: int| 0 <= i < old(update).projects@.len() ==> project_normalized(old(update).projects@[i], #[trigger] final(update).projects@[i]),
        final(update).feishu_bots@.len() == old(update).feishu_bots@.len(),
        forall|i: int| 0 <= i < old(update).feishu_bots@.len() ==> bot_normalized(old(update).feishu_bots@[i], #[trigger] final(update).feishu_bots@[i]),
        final(update).param_definitions@.len() == old(update).param_definitions@.len(),
        forall|i: int| 0 <= i < old(update).param_definitions@.len() ==> definition_normalized(old(update).param_definitions@[i], #[trigger] final(update).param_definitions@[i], i),
{
    proof { reveal_strlit("project_"); reveal_strlit("bot_"); }
    let mut engines: Vec<Engine> = Vec::new();
    let mut i: usize = 0;
    while i < update.engines.len()
        invariant
            i <= update.engines@.len(),
            update.engines@ == old(update).engines@,
            engines@.len() == i,
            forall|j: int| 0 <= j < i ==> engine_normalized(old(update).engines@[j], #[trigger] engines@[j]),
        decreases update.engines.len() - i,
    {
        let e = &update.engines[i];
        engines.push(Engine { name: trim_str(e.name.as_str()), path: trim_str(e.path.as_str()) });
        i = i + 1;
    }
    let mut projects: Vec<Project> = Vec::new();
    let mut i: usize = 0;
    while i < update.projects.len()
        invariant
            i <= update.projects@.len(),
            update.projects@ == old(update).projects@,
            projects@.len() == i,
            forall|j: int| 0 <= j < i ==> project_normalized(old(update).projects@[j], #[trigger] projects@[j]),
        decreases update.projects.len() - i,
    {
        let p = &update.projects[i];
        projects.push(Project {
            id: normalized_id(p.id.as_str(), "project_"),
            name: trim_str(p.name.as_str()),
            workspace_dir_key: trim_str(p.workspace_dir_key.as_str()),
            git_url: trim_str(p.git_url.as_str()),
            engine_name: trim_str(p.engine_name.as_str()),
            version: p.version.clone(),
            minor_version: p.minor_version,
            build_mode: p.build_mode,
            is_hot_update: p.is_hot_update,
            enable_pay: p.enable_pay,
            review_mode: p.review_mode,
        });
        i = i + 1;
    }
    let mut bots: Vec<FeishuBotConfig> = Vec::new();
    let mut i: usize = 0;
    while i < update.feishu_bots.len()
        invariant
            i <= update.feishu_bots@.len(),
            update.feishu_bots@ == old(update).feishu_bots@,
            bots@.len() == i,
            forall|j: int| 0 <= j < i ==> bot_normalized(old(update).feishu_bots@[j], #[trigger] bots@[j]),
        decreases update.feishu_bots.len() - i,
    {
        let b = &update.feishu_bots[i];
        bots.push(FeishuBotConfig {
            id: normalized_id(b.id.as_str(), "bot_"),
            name: trim_str(b.name.as_str()),
            api_key: trim_str(b.api_key.as_str()),
        });
        i = i + 1;
    }
    let mut definitions: Vec<ParamDefinition> = Vec::new();
    let mut i: usize = 0;
    while i < update.param_definitions.len()
        invariant
            i <= update.param_definitions@.len(),
            update.param_definitions@ == old(update).param_definitions@,
            definitions@.len() == i,
            forall|j: int| 0 <= j < i ==> definition_normalized(old(update).param_definitions@[j], #[trigger] definitions@[j], j),
        decreases update.param_definitions.len() - i,
    {
        let d = &update.param_definitions[i];
        let options = if d.kind == ParamKind::Select { trim_options(&d.options) } else { Vec::new() };
        let mut default_value = d.default_value.dup();
        if d.kind == ParamKind::Number {
            normalize_integral_number(&mut default_value);
        }
        definitions.push(ParamDefinition {
            key: trim_str(d.key.as_str()),
            label: trim_str(d.label.as_str()),
            kind: d.kind,
            options,
            default_value,
            required: d.required,
            order: i as u32,
            description: trim_str(d.description.as_str()),
        });
        proof {
            assert(views(definitions@[i as int].options@) =~= (if d.kind == ParamKind::Select { trimmed_options(d.options@) } else { Seq::empty() }));
        }
        i = i + 1;
    }
    update.engines = engines;
    update.projects = projects;
    update.feishu_bots = bots;
    update.param_definitions = definitions;
}


/// First task group whose project the update no longer lists.
pub open spec fn references_problem(groups: Seq<TaskGroup>, projects: Seq<Project>) -> Option<Problem>
    decreases groups.len(),
{
    if groups.len() == 0 {
        None
    } else {
        match references_problem(groups.drop_last(), projects) {
            Some(q) => Some(q),
            None => {
                let g = groups.last();
                if exists|i: int| 0 <= i < projects.len() && (#[trigger] projects[i]).id@ == g.project_id@ {
                    None
                } else {
                    Some((ErrorKind::Conflict, "项目仍被任务组 "@ + g.name@ + " 使用，不能删除"@))
                }
            },
        }
    }
}

proof fn lemma_references_stable(gs: Seq<TaskGroup>, ps: Seq<Project>, n: int)
    requires
        0 <= n <= gs.len(),
        references_problem(gs.take(n), ps) is Some,
    ensures
        references_problem(gs, ps) == references_problem(gs.take(n), ps),
    decreases gs.len(),
{
    if gs.len() > n {
        assert(gs.drop_last().take(n) =~= gs.take(n));
        lemma_references_stable(gs.drop_last(), ps, n);
    } else {
        assert(gs.take(n) =~= gs);
    }
}

/// Whether some project has the id.
pub fn has_project_id(projects: &Vec<Project>, id: &str) -> (r: bool)
    ensures
        r == exists|i: int| 0 <= i < projects@.len() && (#[trigger] projects@[i]).id@ == id@,
{
    let mut i: usize = 0;
    while i < projects.len()
        invariant
            i <= projects@.len(),
            forall|j: int| 0 <= j < i ==> projects@[j].id@ != id@,
        decreases projects.len() - i,
    {
        if str_eq(projects[i].id.as_str(), id) {
            return true;
        }
        i = i + 1;
    }
    false
}

/// A project may not be removed while a task group uses it.
pub fn validate_references(settings: &AppSettings, update: &PublicSettingsUpdate) -> (r: Result<(), AppError>)
    ensures
        outcome(r, references_problem(settings.task_groups@, update.projects@)),
{
    let mut i: usize = 0;
    assert(settings.task_groups@.take(0) =~= Seq::<TaskGroup>::empty());
    while i < settings.task_groups.len()
        invariant
            i <= settings.task_groups@.len(),
            references_problem(settings.task_groups@.take(i as int), update.projects@) is None,
        decreases settings.task_groups.len() - i,
    {
        let g = &settings.task_groups[i];
        assert(settings.task_groups@.take(i + 1).drop_last() =~= settings.task_groups@.take(i as int));
        assert(settings.task_groups@.take(i + 1).last() == *g);
        if !has_project_id(&update.projects, g.project_id.as_str()) {
            proof { lemma_references_stable(settings.task_groups@, update.projects@, i + 1); }
            return Err(cerr(concat3("项目仍被任务组 ", g.name.as_str(), " 使用，不能删除")));
        }
        i = i + 1;
    }
    assert(settings.task_groups@.take(settings.task_groups@.len() as int) =~= settings.task_groups@);
    Ok(())
}

/// Parameters a group keeps when the definitions change: a stored value that
/// is empty or of the right kind, else the default; numbers normalized.
pub open spec fn group_params_fold(ds: Seq<ParamDefinition>, given: Map<Seq<char>, JsonValue>, group: Seq<char>) -> (Map<Seq<char>, JsonValue>, Option<Problem>)
    decreases ds.len(),
{
    if ds.len() == 0 {
        (Map::empty(), None)
    } else {
        let (m, p) = group_params_fold(ds.drop_last(), given, group);
        if p is Some {
            (m, p)
        } else {
            let d = ds.last();
            let v0 = if given.contains_key(d.key@) && (value_is_empty(given[d.key@]) || matches_kind(given[d.key@], d.kind)) {
                given[d.key@]
            } else {
                d.default_value
            };
            let v = if d.kind == ParamKind::Number { normalized_number(v0) } else { v0 };
            if d.required && value_is_empty(v) {
                (m, Some((ErrorKind::Validation, "任务组 "@ + group + " 的参数 "@ + d.label@ + " 缺少有效值"@)))
            } else {
                (m.insert(d.key@, v), None)
            }
        }
    }
}

proof fn lemma_group_fold_stable(ds: Seq<ParamDefinition>, given: Map<Seq<char>, JsonValue>, g: Seq<char>, n: int)
    requires
        0 <= n <= ds.len(),
        group_params_fold(ds.take(n), given, g).1 is Some,
    ensures
        group_params_fold(ds, given, g).1 == group_params_fold(ds.take(n), given, g).1,
    decreases ds.len(),
{
    if ds.len() > n {
        assert(ds.drop_last().take(n) =~= ds.take(n));
        lemma_group_fold_stable(ds.drop_last(), given, g, n);
    } else {
        assert(ds.take(n) =~= ds);
    }
}

/// Re-derives one group's parameters from the definitions.
pub fn regroup_params(definitions: &Vec<ParamDefinition>, group: &TaskGroup) -> (r: Result<ParamMap, AppError>)
    requires
        group.params.wf(),
    ensures
        outcome(r, group_params_fold(definitions@, group.params.map(), group.name@).1),
        r matches Ok(m) ==> m.wf() && m.map() == group_params_fold(definitions@, group.params.map(), group.name@).0,
{
    let mut out = ParamMap::new();
    let mut i: usize = 0;
    assert(out.map() =~= Map::<Seq<char>, JsonValue>::empty());
    assert(definitions@.take(0) =~= Seq::<ParamDefinition>::empty());
    while i < definitions.len()
        invariant
            i <= definitions@.len(),
            group.params.wf(),
            out.wf(),
            group_params_fold(definitions@.take(i as int), group.params.map(), group.name@) == (out.map(), None::<Problem>),
        decreases definitions.len() - i,
    {
        let d = &definitions[i];
        assert(definitions@.take(i + 1).drop_last() =~= definitions@.take(i as int));
        assert(definitions@.take(i + 1).last() == *d);
        let mut value = match group.params.get(d.key.as_str()) {
            Some(v) => if v.is_empty_value() || value_matches_kind(v, d.kind) { v.dup() } else { d.default_value.dup() },
            None => d.default_value.dup(),
        };
        if d.kind == ParamKind::Number {
            normalize_integral_number(&mut value);
        }
        if d.required && value.is_empty_value() {
            proof { lemma_group_fold_stable(definitions@, group.params.map(), group.name@, i + 1); }
            let mut msg = concat3("任务组 ", group.name.as_str(), " 的参数 ");
            crate::text::push_str(&mut msg, d.label.as_str());
            crate::text::push_str(&mut msg, " 缺少有效值");
            return Err(verr(msg));
        }
        out.insert(copy_key(&d.key), value);
        i = i + 1;
    }
    assert(definitions@.take(definitions@.len() as int) =~= definitions@);
    Ok(out)
}

/// First group whose parameters cannot be re-derived.
pub open spec fn groups_problem(ds: Seq<ParamDefinition>, gs: Seq<TaskGroup>) -> Option<Problem>
    decreases gs.len(),
{
    if gs.len() == 0 {
        None
    } else {
        match groups_problem(ds, gs.drop_last()) {
            Some(q) => Some(q),
            None => group_params_fold(ds, gs.last().params.map(), gs.last().name@).1,
        }
    }
}

proof fn lemma_groups_stable(ds: Seq<ParamDefinition>, gs: Seq<TaskGroup>, n: int)
    requires
        0 <= n <= gs.len(),
        groups_problem(ds, gs.take(n)) is Some,
    ensures
        groups_problem(ds, gs) == groups_problem(ds, gs.take(n)),
    decreases gs.len(),
{
    if gs.len() > n {
        assert(gs.drop_last().take(n) =~= gs.take(n));
        lemma_groups_stable(ds, gs.drop_last(), n);
    } else {
        assert(gs.take(n) =~= gs);
    }
}

/// A group that only had its parameters re-derived.
pub open spec fn group_reparamed(ds: Seq<ParamDefinition>, a: TaskGroup, b: TaskGroup) -> bool {
    &&& b.id == a.id
    &&& b.project_id == a.project_id
    &&& b.name == a.name
    &&& b.description == a.description
    &&& b.branch == a.branch
    &&& b.presets == a.presets
    &&& b.hidden_params == a.hidden_params
    &&& b.order == a.order
    &&& b.params.wf()
    &&& b.params.map() == group_params_fold(ds, a.params.map(), a.name@).0
}

/// All groups' parameters stored in well-formed maps.
pub open spec fn groups_wf(gs: Seq<TaskGroup>) -> bool {
    forall|i: int| 0 <= i < gs.len() ==> (#[trigger] gs[i]).params.wf()
}

/// Re-derives every group's parameters from the settings' definitions; on
/// failure the settings are left as they were.
pub fn normalize_group_params(settings: &mut AppSettings) -> (r: Result<(), AppError>)
    requires
        groups_wf(old(settings).task_groups@),
    ensures
        outcome(r, groups_problem(old(settings).param_definitions@, old(settings).task_groups@)),
        r is Err ==> *final(settings) == *old(settings),
        r is Ok ==> {
            &&& final(settings).engines == old(settings).engines
            &&& final(settings).projects == old(settings).projects
            &&& final(settings).git_config == old(settings).git_config
            &&& final(settings).feishu_bots == old(settings).feishu_bots
            &&& final(settings).package_tasks == old(settings).package_tasks
            &&& final(settings).param_definitions == old(settings).param_definitions
            &&& final(settings).task_groups@.len() == old(settings).task_groups@.len()
            &&& forall|i: int| 0 <= i < old(settings).task_groups@.len() ==> group_reparamed(
                old(settings).param_definitions@, old(settings).task_groups@[i], #[trigger] final(settings).task_groups@[i])
        },
{
    let ghost gs = settings.task_groups@;
    let mut maps: Vec<ParamMap> = Vec::new();
    let mut i: usize = 0;
    assert(gs.take(0) =~= Seq::<TaskGroup>::empty());
    while i < settings.task_groups.len()
        invariant
            i <= gs.len(),
            gs == settings.task_groups@,
            groups_wf(gs),
            maps@.len() == i,
            forall|j: int| 0 <= j < i ==> (#[trigger] maps@[j]).wf() && maps@[j].map() == group_params_fold(settings.param_definitions@, gs[j].params.map(), gs[j].name@).0,
            groups_problem(settings.param_definitions@, gs.take(i as int)) is None,
        decreases settings.task_groups.len() - i,
    {
        let g = &settings.task_groups[i];
        assert(gs.take(i + 1).drop_last() =~= gs.take(i as int));
        assert(gs.take(i + 1).last() == *g);
        match regroup_params(&settings.param_definitions, g) {
            Err(e) => {
                proof { lemma_groups_stable(settings.param_definitions@, gs, i + 1); }
                return Err(e);
            },
            Ok(m) => {
                maps.push(m);
            },
        }
        i = i + 1;
    }
    assert(gs.take(gs.len() as int) =~= gs);
    let mut rest: Vec<TaskGroup> = Vec::new();
    std::mem::swap(&mut rest, &mut settings.task_groups);
    let mut groups: Vec<TaskGroup> = Vec::new();
    let mut i: usize = 0;
    let n = maps.len();
    while i < n
        invariant
            n == gs.len(),
            i <= gs.len(),
            rest@ == gs.subrange(i as int, gs.len() as int),
            maps@.len() == gs.len(),
            forall|j: int| 0 <= j < gs.len() ==> (#[trigger] maps@[j]).wf() && maps@[j].map() == group_params_fold(settings.param_definitions@, gs[j].params.map(), gs[j].name@).0,
            groups@.len() == i,
            forall|j: int| 0 <= j < i ==> group_reparamed(settings.param_definitions@, gs[j], #[trigger] groups@[j]),
            settings.param_definitions == old(settings).param_definitions,
            gs == old(settings).task_groups@,
        decreases n - i,
    {
        let g = rest.remove(0);
        assert(g == gs[i as int]);
        assert(rest@ =~= gs.subrange(i + 1, gs.len() as int));
        let params = maps[i].clone_map();
        assert(params.map() =~= maps@[i as int].map());
        let TaskGroup { id, project_id, name, description, branch, params: _, presets, hidden_params, order } = g;
        groups.push(TaskGroup { id, project_id, name, description, branch, params, presets, hidden_params, order });
        i = i + 1;
    }
    settings.task_groups = groups;
    Ok(())
}


/// Whether `n` is `update` after `normalize_update`.
pub open spec fn update_normalized(u: PublicSettingsUpdate, n: PublicSettingsUpdate) -> bool {
    &&& n.engines@.len() == u.engines@.len()
    &&& forall|i: int| 0 <= i < u.engines@.len() ==> engine_normalized(u.engines@[i], #[trigger] n.engines@[i])
    &&& n.projects@.len() == u.projects@.len()
    &&& forall|i: int| 0 <= i < u.projects@.len() ==> project_normalized(u.projects@[i], #[trigger] n.projects@[i])
    &&& n.feishu_bots@.len() == u.feishu_bots@.len()
    &&& forall|i: int| 0 <= i < u.feishu_bots@.len() ==> bot_normalized(u.feishu_bots@[i], #[trigger] n.feishu_bots@[i])
    &&& n.param_definitions@.len() == u.param_definitions@.len()
    &&& forall|i: int| 0 <= i < u.param_definitions@.len() ==> definition_normalized(u.param_definitions@[i], #[trigger] n.param_definitions@[i], i)
}

/// What a save of the public settings checks, in order, once the update is normalized.
pub open spec fn public_update_problem(current: AppSettings, n: PublicSettingsUpdate) -> Option<Problem> {
    match update_problem(n) {
        Some(q) => Some(q),
        None => match references_problem(current.task_groups@, n.projects@) {
            Some(q) => Some(q),
            None => groups_problem(n.param_definitions@, current.task_groups@),
        },
    }
}

/// `r` is what applying `update` to `current` gives: the update is
/// normalized and checked, and on success the settings take its engines,
/// projects, robots and definitions, keep their tasks and credentials, and
/// their groups' parameters are derived again from the new definitions.
pub open spec fn public_update_applied(current: AppSettings, update: PublicSettingsUpdate, r: Result<AppSettings, AppError>) -> bool {
    &&& exists|n: PublicSettingsUpdate| update_normalized(update, n) && outcome(r, public_update_problem(current, n)) && (r matches Ok(s) ==> {
        &&& s.engines == n.engines
        &&& s.projects == n.projects
        &&& s.feishu_bots == n.feishu_bots
        &&& s.param_definitions == n.param_definitions
    })
    &&& r matches Ok(s) ==> {
        &&& s.git_config == current.git_config
        &&& s.package_tasks == current.package_tasks
        &&& s.task_groups@.len() == current.task_groups@.len()
        &&& forall|i: int| 0 <= i < current.task_groups@.len() ==> group_reparamed(
            s.param_definitions@, current.task_groups@[i], #[trigger] s.task_groups@[i])
    }
}

/// The settings after the web page saves an update: the update is
/// normalized and checked, projects still used by task groups may not go,
/// the four lists are replaced and every group's parameters are re-derived.
/// Tasks, task groups' other fields and credentials are kept.
pub fn apply_public_settings(current: AppSettings, update: PublicSettingsUpdate) -> (r: Result<AppSettings, AppError>)
    requires
        groups_wf(current.task_groups@),
    ensures
        public_update_applied(current, update, r),
{
    let ghost u0 = update;
    let mut update = update;
    normalize_update(&mut update);
    let ghost n = update;
    let r = match validate_update(&update) {
        Err(e) => Err(e),
        Ok(()) => match validate_references(&current, &update) {
            Err(e) => Err(e),
            Ok(()) => {
                let mut settings = current;
                let PublicSettingsUpdate { engines, projects, feishu_bots, param_definitions } = update;
                settings.engines = engines;
                settings.projects = projects;
                settings.feishu_bots = feishu_bots;
                settings.param_definitions = param_definitions;
                match normalize_group_params(&mut settings) {
                    Err(e) => Err(e),
                    Ok(()) => Ok(settings),
                }
            },
        },
    };
    assert(update_normalized(u0, n) && outcome(r, public_update_problem(current, n)) && (r matches Ok(s) ==> {
            &&& s.engines == n.engines
            &&& s.projects == n.projects
            &&& s.feishu_bots == n.feishu_bots
            &&& s.param_definitions == n.param_definitions
        }));
    r
}

/// Whether credentials are configured: a user name or a password that is not blank.
pub open spec fn credentials_configured(username: Seq<char>, password: Seq<char>) -> bool {
    !is_blank(username) || !is_blank(password)
}

/// The settings the web page sees: everything but the credentials, which
/// are only reported as configured or not.
pub fn public_settings_of(settings: AppSettings) -> (p: crate::models::PublicSettings)
    ensures
        p.engines == settings.engines,
        p.projects == settings.projects,
        p.feishu_bots == settings.feishu_bots,
        p.package_tasks == settings.package_tasks,
        p.task_groups == settings.task_groups,
        p.param_definitions == settings.param_definitions,
        p.git_credentials_configured == credentials_configured(settings.git_config.username@, settings.git_config.password@),
{
    let configured = !is_blank_str(settings.git_config.username.as_str()) || !is_blank_str(settings.git_config.password.as_str());
    let AppSettings { engines, projects, git_config: _, feishu_bots, package_tasks, task_groups, param_definitions } = settings;
    crate::models::PublicSettings {
        engines,
        projects,
        feishu_bots,
        package_tasks,
        task_groups,
        param_definitions,
        git_credentials_configured: configured,
    }
}


/// Two projects whose names are equal ignoring case make a settings update
/// fail; when nothing before the later one is wrong (the engines, the earlier
/// projects, its own fields and id), the error is the name conflict.
pub proof fn law_duplicate_project_names_refused(u: PublicSettingsUpdate, i: int, j: int)
    requires
        0 <= i < j < u.projects@.len(),
        lower(u.projects@[i].name@) == lower(u.projects@[j].name@),
    ensures
        update_problem(u) is Some,
        (engines_problem(u.engines@) is None
            && projects_problem(u.projects@.take(j), u.engines@) is None
            && u.projects@[j].name@.len() > 0 && u.projects@[j].git_url@.len() > 0 && u.projects@[j].engine_name@.len() > 0
            && forall|k: int| 0 <= k < j ==> (#[trigger] u.projects@[k]).id@ != u.projects@[j].id@)
            ==> update_problem(u) == Some((ErrorKind::Conflict, "项目名称不能重复"@)),
{
    let ps = u.projects@;
    let es = u.engines@;
    let t = ps.take(j + 1);
    assert(t.drop_last() =~= ps.take(j));
    assert(t.last() == ps[j]);
    let prefix = ps.take(j);
    assert(prefix[i] == ps[i]);
    assert(projects_problem(t, es) is Some);
    lemma_projects_stable(ps, es, j + 1);
    if projects_problem(prefix, es) is None && ps[j].name@.len() > 0 && ps[j].git_url@.len() > 0 && ps[j].engine_name@.len() > 0
        && forall|k: int| 0 <= k < j ==> (#[trigger] ps[k]).id@ != ps[j].id@ {
        assert(!(exists|k: int| 0 <= k < prefix.len() && (#[trigger] prefix[k]).id@ == ps[j].id@)) by {
            if exists|k: int| 0 <= k < prefix.len() && (#[trigger] prefix[k]).id@ == ps[j].id@ {
                let k = choose|k: int| 0 <= k < prefix.len() && (#[trigger] prefix[k]).id@ == ps[j].id@;
                assert(prefix[k] == ps[k]);
            }
        }
        assert(projects_problem(t, es) == Some((ErrorKind::Conflict, "项目名称不能重复"@)));
    }
}

} // verus!
