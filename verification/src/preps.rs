//! Preparation projects: validation and normalization of their parameters,
//! the command line a run is given, import checks and the Python templates.

use vstd::prelude::*;
use crate::json::{JsonValue, JsonNumber, json_text};
use crate::models::{PrepParam, PrepParamOption, PrepParamType, PrepParamValueSource};
use crate::text::{chars_of, concat2, concat3, copy_string, dec, from_chars, lower_seq, push_char, push_str, str_eq, to_ascii_lower_char, trim, trim_str, u64_to_string, parse_i64, parse_i64_spec};
use crate::params::{is_ascii_alnum, contains_string};
use crate::error::{AppError, ErrorKind, Problem, outcome};
use crate::param_map::ParamMap;
use crate::placeholders::{PlaceholderContext, spec_replace_text};
use crate::json::rendered;
use crate::paths::{components, is_normal, path_components};
use crate::text::{lemma_dec_injective, views, joined, join_strings, is_blank, is_blank_str, dec_int, i64_to_string};
use crate::models::{PrepProjectExportMeta, PrepProject, PrepProjectExportFile, PrepProjectExportPayload, PrepProjectRunResponse, PrepProjectTaskRunItem, PrepProjectRunForTasksResponse};

verus! {

/// `r` is `Ok` exactly when there is no problem, and otherwise carries its message.
pub open spec fn text_outcome<T>(r: Result<T, String>, p: Option<Seq<char>>) -> bool {
    match p {
        None => r is Ok,
        Some(m) => r matches Err(e) && e@ == m,
    }
}

/// The text a value is checked by: a string trimmed, anything else as JSON text.
pub open spec fn checked_text(v: JsonValue) -> Seq<char> {
    match v {
        JsonValue::Str(t) => trim(t@),
        other => json_text(other),
    }
}

pub open spec fn option_values(os: Seq<PrepParamOption>) -> Seq<Seq<char>> {
    os.map_values(|o: PrepParamOption| o.value@)
}

/// What is wrong with a value given to a preparation parameter, if anything.
pub open spec fn prep_value_problem(p: PrepParam, v: JsonValue) -> Option<Seq<char>> {
    match p.param_type {
        PrepParamType::Str => {
            if checked_text(v).len() == 0 {
                Some("参数 "@ + p.name@ + " 必须填写有效值"@)
            } else {
                None
            }
        },
        PrepParamType::Select => {
            let t = checked_text(v);
            if t.len() == 0 {
                Some("参数 "@ + p.name@ + " 必须填写有效值"@)
            } else if !option_values(p.options@).contains(t) {
                Some("参数 "@ + p.name@ + " 的选项值不合法: "@ + t)
            } else {
                None
            }
        },
        PrepParamType::Int => match v {
            JsonValue::Number(_) => None,
            JsonValue::Str(t) => if parse_i64_spec(trim(t@)) is Some {
                None
            } else {
                Some("参数 "@ + p.name@ + " 必须为数字"@)
            },
            _ => Some("参数 "@ + p.name@ + " 必须为数字"@),
        },
        PrepParamType::Bool => match v {
            JsonValue::Bool(_) => None,
            JsonValue::Str(t) => if trim(t@) == "true"@ || trim(t@) == "false"@ {
                None
            } else {
                Some("参数 "@ + p.name@ + " 必须为布尔值"@)
            },
            _ => Some("参数 "@ + p.name@ + " 必须为布尔值"@),
        },
    }
}

/// The text a value is checked by (see `checked_text`).
pub fn value_check_text(value: &JsonValue) -> (r: String)
    ensures
        r@ == checked_text(*value),
{
    match value {
        JsonValue::Str(t) => trim_str(t.as_str()),
        other => other.render(),
    }
}

/// Whether one of the options has exactly this value.
pub fn has_option_value(options: &Vec<PrepParamOption>, value: &str) -> (r: bool)
    ensures
        r == option_values(options@).contains(value@),
{
    let mut i: usize = 0;
    while i < options.len()
        invariant
            i <= options.len(),
            forall|j: int| 0 <= j < i ==> options@[j].value@ != value@,
        decreases options.len() - i,
    {
        if str_eq(options[i].value.as_str(), value) {
            assert(option_values(options@)[i as int] == value@);
            return true;
        }
        i = i + 1;
    }
    assert forall|j: int| 0 <= j < option_values(options@).len() implies option_values(options@)[j] != value@ by {
        assert(options@[j].value@ != value@);
    }
    false
}

/// Checks a value against the parameter's type (and, for a select, its options).
pub fn validate_prep_param_value(param: &PrepParam, value: &JsonValue) -> (r: Result<(), String>)
    ensures
        text_outcome(r, prep_value_problem(*param, *value)),
{
    let name = param.name.as_str();
    match param.param_type {
        PrepParamType::Str => {
            let t = value_check_text(value);
            if t.as_str().is_empty() {
                return Err(concat3("参数 ", name, " 必须填写有效值"));
            }
            Ok(())
        },
        PrepParamType::Select => {
            let t = value_check_text(value);
            if t.as_str().is_empty() {
                return Err(concat3("参数 ", name, " 必须填写有效值"));
            }
            if !has_option_value(&param.options, t.as_str()) {
                let head = concat3("参数 ", name, " 的选项值不合法: ");
                return Err(concat2(head.as_str(), t.as_str()));
            }
            Ok(())
        },
        PrepParamType::Int => match value {
            JsonValue::Number(_) => Ok(()),
            JsonValue::Str(t) => {
                let tt = trim_str(t.as_str());
                if parse_i64(tt.as_str()).is_some() {
                    Ok(())
                } else {
                    Err(concat3("参数 ", name, " 必须为数字"))
                }
            },
            _ => Err(concat3("参数 ", name, " 必须为数字")),
        },
        PrepParamType::Bool => match value {
            JsonValue::Bool(_) => Ok(()),
            JsonValue::Str(t) => {
                let tt = trim_str(t.as_str());
                if str_eq(tt.as_str(), "true") || str_eq(tt.as_str(), "false") {
                    Ok(())
                } else {
                    Err(concat3("参数 ", name, " 必须为布尔值"))
                }
            },
            _ => Err(concat3("参数 ", name, " 必须为布尔值")),
        },
    }
}


pub open spec fn opt_label(o: PrepParamOption) -> Seq<char> {
    trim(o.label@)
}

pub open spec fn opt_value(o: PrepParamOption) -> Seq<char> {
    trim(o.value@)
}

/// Whether an option before `k` has the same trimmed label as option `k`.
pub open spec fn label_seen(os: Seq<PrepParamOption>, k: int) -> bool {
    exists|j: int| 0 <= j < k && opt_label(#[trigger] os[j]) == opt_label(os[k])
}

/// Whether an option before `k` has the same trimmed value as option `k`.
pub open spec fn value_seen(os: Seq<PrepParamOption>, k: int) -> bool {
    exists|j: int| 0 <= j < k && opt_value(#[trigger] os[j]) == opt_value(os[k])
}

/// What is wrong with option `k` of a select parameter, given that the
/// options before it passed.
pub open spec fn option_problem(name: Seq<char>, os: Seq<PrepParamOption>, k: int) -> Option<Seq<char>> {
    if opt_label(os[k]).len() == 0 {
        Some("参数 "@ + name + " 的选项显示文案不能为空"@)
    } else if label_seen(os, k) {
        Some("参数 "@ + name + " 的选项显示文案不能重复"@)
    } else if opt_value(os[k]).len() == 0 {
        Some("参数 "@ + name + " 的选项值不能为空"@)
    } else if value_seen(os, k) {
        Some("参数 "@ + name + " 的选项值不能重复"@)
    } else {
        None
    }
}

/// The first problem among the options, in order.
pub open spec fn options_problem(name: Seq<char>, os: Seq<PrepParamOption>) -> Option<Seq<char>>
    decreases os.len(),
{
    if os.len() == 0 {
        None
    } else {
        let prev = options_problem(name, os.drop_last());
        if prev is Some {
            prev
        } else {
            option_problem(name, os, os.len() - 1)
        }
    }
}

/// What is wrong with a parameter of a preparation project, if anything.
pub open spec fn prep_param_problem(p: PrepParam) -> Option<Seq<char>> {
    let n = trim(p.name@);
    if n.len() == 0 {
        Some("准备项目参数名不能为空"@)
    } else if n == "project_path"@ {
        Some("project_path 为系统保留参数，不需要手动配置"@)
    } else if p.param_type == PrepParamType::Select && p.options@.len() == 0 {
        Some("参数 "@ + n + " 至少需要配置一个选项"@)
    } else if p.param_type == PrepParamType::Select && options_problem(n, p.options@) is Some {
        options_problem(n, p.options@)
    } else if p.value_source == PrepParamValueSource::Fixed {
        match p.fixed_value {
            None => Some("参数 "@ + n + " 必须填写固定值"@),
            Some(v) => prep_value_problem(p, v),
        }
    } else {
        None
    }
}

/// The first problem among the parameters, in order.
pub open spec fn prep_params_problem(ps: Seq<PrepParam>) -> Option<Seq<char>>
    decreases ps.len(),
{
    if ps.len() == 0 {
        None
    } else {
        let prev = prep_params_problem(ps.drop_last());
        if prev is Some {
            prev
        } else {
            prep_param_problem(ps.last())
        }
    }
}

/// The options before `k` passing means that options_problem of the prefix is None.
proof fn lemma_options_prefix(name: Seq<char>, os: Seq<PrepParamOption>, k: int)
    requires
        0 <= k < os.len(),
        options_problem(name, os.take(k)) is None,
    ensures
        option_problem(name, os.take(k + 1), k) == option_problem(name, os, k),
        options_problem(name, os.take(k + 1)) == option_problem(name, os, k),
{
    let t = os.take(k + 1);
    assert(t.drop_last() =~= os.take(k));
    assert forall|j: int| 0 <= j <= k implies t[j] == os[j] by {}
    assert(label_seen(t, k) == label_seen(os, k)) by {
        if label_seen(os, k) {
            let j = choose|j: int| 0 <= j < k && opt_label(#[trigger] os[j]) == opt_label(os[k]);
            assert(opt_label(t[j]) == opt_label(t[k]));
        }
        if label_seen(t, k) {
            let j = choose|j: int| 0 <= j < k && opt_label(#[trigger] t[j]) == opt_label(t[k]);
            assert(opt_label(os[j]) == opt_label(os[k]));
        }
    }
    assert(value_seen(t, k) == value_seen(os, k)) by {
        if value_seen(os, k) {
            let j = choose|j: int| 0 <= j < k && opt_value(#[trigger] os[j]) == opt_value(os[k]);
            assert(opt_value(t[j]) == opt_value(t[k]));
        }
        if value_seen(t, k) {
            let j = choose|j: int| 0 <= j < k && opt_value(#[trigger] t[j]) == opt_value(t[k]);
            assert(opt_value(os[j]) == opt_value(os[k]));
        }
    }
}

/// Checks the options of a select parameter named `name`, in order.
fn validate_select_options(name: &str, options: &Vec<PrepParamOption>) -> (r: Result<(), String>)
    ensures
        text_outcome(r, options_problem(name@, options@)),
{
    let mut labels: Vec<String> = Vec::new();
    let mut values: Vec<String> = Vec::new();
    let mut i: usize = 0;
    assert(options@.take(0) =~= Seq::<PrepParamOption>::empty());
    while i < options.len()
        invariant
            i <= options.len(),
            options_problem(name@, options@.take(i as int)) is None,
            labels@.len() == i,
            values@.len() == i,
            forall|j: int| 0 <= j < i ==> (#[trigger] labels@[j])@ == opt_label(options@[j]),
            forall|j: int| 0 <= j < i ==> (#[trigger] values@[j])@ == opt_value(options@[j]),
        decreases options.len() - i,
    {
        proof { lemma_options_prefix(name@, options@, i as int); }
        let label = trim_str(options[i].label.as_str());
        if label.as_str().is_empty() {
            assert(options@.take(i + 1) =~= options@.take(i + 1));
            proof { lemma_first_problem_stays(name@, options@, i + 1); }
            return Err(concat3("参数 ", name, " 的选项显示文案不能为空"));
        }
        let mut seen = false;
        let mut j: usize = 0;
        while j < i
            invariant
                j <= i < options.len(),
                labels@.len() == i,
                forall|k: int| 0 <= k < i ==> (#[trigger] labels@[k])@ == opt_label(options@[k]),
                label@ == opt_label(options@[i as int]),
                seen <==> exists|k: int| 0 <= k < j && opt_label(#[trigger] options@[k]) == opt_label(options@[i as int]),
            decreases i - j,
        {
            if str_eq(labels[j].as_str(), label.as_str()) {
                seen = true;
            }
            j = j + 1;
        }
        if seen {
            proof { lemma_first_problem_stays(name@, options@, i + 1); }
            return Err(concat3("参数 ", name, " 的选项显示文案不能重复"));
        }
        let value = trim_str(options[i].value.as_str());
        if value.as_str().is_empty() {
            proof { lemma_first_problem_stays(name@, options@, i + 1); }
            return Err(concat3("参数 ", name, " 的选项值不能为空"));
        }
        let mut vseen = false;
        let mut j: usize = 0;
        while j < i
            invariant
                j <= i < options.len(),
                values@.len() == i,
                forall|k: int| 0 <= k < i ==> (#[trigger] values@[k])@ == opt_value(options@[k]),
                value@ == opt_value(options@[i as int]),
                vseen <==> exists|k: int| 0 <= k < j && opt_value(#[trigger] options@[k]) == opt_value(options@[i as int]),
            decreases i - j,
        {
            if str_eq(values[j].as_str(), value.as_str()) {
                vseen = true;
            }
            j = j + 1;
        }
        if vseen {
            proof { lemma_first_problem_stays(name@, options@, i + 1); }
            return Err(concat3("参数 ", name, " 的选项值不能重复"));
        }
        labels.push(label);
        values.push(value);
        i = i + 1;
    }
    assert(options@.take(options@.len() as int) =~= options@);
    Ok(())
}

/// Once a prefix of the options has a problem, every longer prefix has the same one.
proof fn lemma_first_problem_stays(name: Seq<char>, os: Seq<PrepParamOption>, k: int)
    requires
        0 <= k <= os.len(),
    ensures
        options_problem(name, os.take(k)) is Some ==> options_problem(name, os) == options_problem(name, os.take(k)),
    decreases os.len() - k,
{
    if k < os.len() {
        lemma_first_problem_stays(name, os, k + 1);
        assert(os.take(k + 1).drop_last() =~= os.take(k));
    } else {
        assert(os.take(k) =~= os);
    }
}

/// Checks one parameter of a preparation project.
pub fn validate_prep_param(param: &PrepParam) -> (r: Result<(), String>)
    ensures
        text_outcome(r, prep_param_problem(*param)),
{
    proof { reveal_strlit("project_path"); }
    let name = trim_str(param.name.as_str());
    if name.as_str().is_empty() {
        return Err("准备项目参数名不能为空".to_string());
    }
    if str_eq(name.as_str(), "project_path") {
        return Err("project_path 为系统保留参数，不需要手动配置".to_string());
    }
    if param.param_type == PrepParamType::Select {
        if param.options.len() == 0 {
            return Err(concat3("参数 ", name.as_str(), " 至少需要配置一个选项"));
        }
        validate_select_options(name.as_str(), &param.options)?;
    }
    if param.value_source == PrepParamValueSource::Fixed {
        match &param.fixed_value {
            None => {
                return Err(concat3("参数 ", name.as_str(), " 必须填写固定值"));
            },
            Some(v) => {
                return validate_prep_param_value(param, v);
            },
        }
    }
    Ok(())
}

/// Checks the parameters of a preparation project; the first problem found,
/// in order, is the error.
pub fn validate_prep_params(params: &[PrepParam]) -> (r: Result<(), String>)
    ensures
        text_outcome(r, prep_params_problem(params@)),
{
    let mut i: usize = 0;
    assert(params@.take(0) =~= Seq::<PrepParam>::empty());
    while i < params.len()
        invariant
            i <= params@.len(),
            prep_params_problem(params@.take(i as int)) is None,
        decreases params.len() - i,
    {
        assert(params@.take(i + 1).drop_last() =~= params@.take(i as int));
        let r = validate_prep_param(&params[i]);
        if r.is_err() {
            proof { lemma_params_problem_stays(params@, i + 1); }
            return r;
        }
        i = i + 1;
    }
    assert(params@.take(params@.len() as int) =~= params@);
    Ok(())
}

/// Once a prefix of the parameters has a problem, every longer prefix has the same one.
proof fn lemma_params_problem_stays(ps: Seq<PrepParam>, k: int)
    requires
        0 <= k <= ps.len(),
    ensures
        prep_params_problem(ps.take(k)) is Some ==> prep_params_problem(ps) == prep_params_problem(ps.take(k)),
    decreases ps.len() - k,
{
    if k < ps.len() {
        lemma_params_problem_stays(ps, k + 1);
        assert(ps.take(k + 1).drop_last() =~= ps.take(k));
    } else {
        assert(ps.take(k) =~= ps);
    }
}


/// `_` for every character that is not an ASCII letter or digit.
pub open spec fn ident_char(c: char) -> char {
    if is_ascii_alnum(c) { c } else { '_' }
}

/// `s` without its leading `_`.
pub open spec fn strip_lead_us(s: Seq<char>) -> Seq<char>
    decreases s.len(),
{
    if s.len() > 0 && s[0] == '_' { strip_lead_us(s.drop_first()) } else { s }
}

/// `s` without its trailing `_`.
pub open spec fn strip_trail_us(s: Seq<char>) -> Seq<char>
    decreases s.len(),
{
    if s.len() > 0 && s.last() == '_' { strip_trail_us(s.drop_last()) } else { s }
}

/// An identifier made from free text: other characters become `_`, `_` is
/// trimmed from both ends, letters are lower-cased; `value` when nothing is left.
pub open spec fn sanitized(s: Seq<char>) -> Seq<char> {
    let t = lower_seq(strip_trail_us(strip_lead_us(s.map_values(|c: char| ident_char(c)))));
    if t.len() == 0 { "value"@ } else { t }
}

fn first_non_us(s: &Vec<char>) -> (i: usize)
    ensures
        i <= s.len(),
        strip_lead_us(s@) == s@.subrange(i as int, s.len() as int),
{
    let mut i: usize = 0;
    assert(s@.subrange(0, s.len() as int) =~= s@);
    while i < s.len() && s[i] == '_'
        invariant
            i <= s.len(),
            strip_lead_us(s@) == strip_lead_us(s@.subrange(i as int, s.len() as int)),
        decreases s.len() - i,
    {
        let ghost t = s@.subrange(i as int, s.len() as int);
        assert(t.drop_first() =~= s@.subrange(i + 1, s.len() as int));
        i = i + 1;
    }
    i
}

fn last_non_us(s: &Vec<char>, from: usize) -> (j: usize)
    requires
        from <= s.len(),
    ensures
        from <= j <= s.len(),
        strip_trail_us(s@.subrange(from as int, s.len() as int)) == s@.subrange(from as int, j as int),
{
    let mut j: usize = s.len();
    while j > from && s[j - 1] == '_'
        invariant
            from <= j <= s.len(),
            strip_trail_us(s@.subrange(from as int, s.len() as int)) == strip_trail_us(
                s@.subrange(from as int, j as int),
            ),
        decreases j,
    {
        let ghost t = s@.subrange(from as int, j as int);
        assert(t.drop_last() =~= s@.subrange(from as int, j - 1));
        j = j - 1;
    }
    j
}

/// `v` with `_` trimmed from both ends (`str::trim_matches('_')`).
pub fn trim_underscores(v: &Vec<char>) -> (r: Vec<char>)
    ensures
        r@ == strip_trail_us(strip_lead_us(v@)),
{
    let i = first_non_us(v);
    let j = last_non_us(v, i);
    crate::text::slice_chars(v, i, j)
}

/// An identifier made from free text (see `sanitized`).
pub fn sanitize_identifier(input: &str) -> (r: String)
    ensures
        r@ == sanitized(input@),
{
    let cs = chars_of(input);
    let mut mapped: Vec<char> = Vec::new();
    let mut k: usize = 0;
    while k < cs.len()
        invariant
            k <= cs.len(),
            cs@ == input@,
            mapped@ == input@.take(k as int).map_values(|c: char| ident_char(c)),
        decreases cs.len() - k,
    {
        let c = cs[k];
        let m = if ('a' <= c && c <= 'z') || ('A' <= c && c <= 'Z') || ('0' <= c && c <= '9') { c } else { '_' };
        mapped.push(m);
        k = k + 1;
        assert(input@.take(k as int).map_values(|c: char| ident_char(c)) =~= input@.take(k - 1).map_values(|c: char| ident_char(c)).push(m));
    }
    assert(input@.take(cs.len() as int) =~= input@);
    let i = first_non_us(&mapped);
    let j = last_non_us(&mapped, i);
    let ghost core = mapped@.subrange(i as int, j as int);
    let mut out = String::new();
    let mut k: usize = i;
    while k < j
        invariant
            i <= k <= j <= mapped.len(),
            core == mapped@.subrange(i as int, j as int),
            out@ == lower_seq(core.take(k - i)),
        decreases j - k,
    {
        let c = to_ascii_lower_char(mapped[k]);
        push_char(&mut out, c);
        k = k + 1;
        assert(lower_seq(core.take(k - i)) =~= lower_seq(core.take(k - i - 1)).push(c));
    }
    assert(core.take(j - i) =~= core);
    if out.as_str().is_empty() {
        proof { reveal_strlit("value"); }
        "value".to_string()
    } else {
        out
    }
}

/// The id an option gets when it has none.
pub open spec fn option_id_for(name: Seq<char>, index: nat, value: Seq<char>) -> Seq<char> {
    "option_"@ + sanitized(name) + "_"@ + dec(index) + "_"@ + sanitized(value)
}

/// The id an option of parameter `param_name` at `index` gets when it has none.
pub fn build_prep_option_id(param_name: &str, index: usize, value: &str) -> (r: String)
    ensures
        r@ == option_id_for(param_name@, index as nat, value@),
{
    let mut out = "option_".to_string();
    let a = sanitize_identifier(param_name);
    push_str(&mut out, a.as_str());
    push_str(&mut out, "_");
    let d = u64_to_string(index as u64);
    push_str(&mut out, d.as_str());
    push_str(&mut out, "_");
    let b = sanitize_identifier(value);
    push_str(&mut out, b.as_str());
    out
}

/// An option as it is stored: label and value trimmed, and an id (its own,
/// trimmed, or one made from the parameter name, position and value).
pub open spec fn normalized_option(name: Seq<char>, index: nat, o: PrepParamOption, r: PrepParamOption) -> bool {
    &&& r.label@ == trim(o.label@)
    &&& r.value@ == trim(o.value@)
    &&& r.id@ == (if trim(o.id@).len() == 0 { option_id_for(name, index, trim(o.value@)) } else { trim(o.id@) })
}

pub fn normalize_prep_param_option(param_name: &str, index: usize, option: &PrepParamOption) -> (r: PrepParamOption)
    ensures
        normalized_option(param_name@, index as nat, *option, r),
{
    let label = trim_str(option.label.as_str());
    let value = trim_str(option.value.as_str());
    let tid = trim_str(option.id.as_str());
    let id = if tid.as_str().is_empty() {
        build_prep_option_id(param_name, index, value.as_str())
    } else {
        tid
    };
    PrepParamOption { id, label, value }
}

/// The JSON value of an integer, as `serde_json` holds it.
pub open spec fn int_json(n: int) -> JsonValue {
    if n >= 0 {
        JsonValue::Number(JsonNumber::PosInt(n as u64))
    } else {
        JsonValue::Number(JsonNumber::NegInt(n as i64))
    }
}

pub fn json_from_i64(n: i64) -> (r: JsonValue)
    ensures
        r == int_json(n as int),
{
    if n >= 0 {
        JsonValue::Number(JsonNumber::PosInt(n as u64))
    } else {
        JsonValue::Number(JsonNumber::NegInt(n))
    }
}

/// How a fixed value is stored: a string is trimmed, and for an integer or
/// boolean parameter becomes a number or boolean when it reads as one.
pub open spec fn fixed_form(t: PrepParamType, v: JsonValue, r: JsonValue) -> bool {
    match v {
        JsonValue::Str(text) => {
            let tt = trim(text@);
            match t {
                PrepParamType::Int => match parse_i64_spec(tt) {
                    Some(n) => r == int_json(n),
                    None => r matches JsonValue::Str(u) && u@ == tt,
                },
                PrepParamType::Bool => if tt == "true"@ {
                    r == JsonValue::Bool(true)
                } else if tt == "false"@ {
                    r == JsonValue::Bool(false)
                } else {
                    r matches JsonValue::Str(u) && u@ == tt
                },
                _ => r matches JsonValue::Str(u) && u@ == tt,
            }
        },
        _ => r == v,
    }
}

/// The fixed value kept for a parameter: none unless its source is fixed.
pub open spec fn normalized_fixed(p: PrepParam, source: PrepParamValueSource, r: Option<JsonValue>) -> bool {
    if source != PrepParamValueSource::Fixed {
        r is None
    } else {
        match p.fixed_value {
            None => r is None,
            Some(v) => r matches Some(w) && fixed_form(p.param_type, v, w),
        }
    }
}

pub fn normalize_fixed_value(param: &PrepParam, value_source: PrepParamValueSource) -> (r: Option<JsonValue>)
    ensures
        normalized_fixed(*param, value_source, r),
{
    if value_source != PrepParamValueSource::Fixed {
        return None;
    }
    let value = match &param.fixed_value {
        Some(v) => v,
        None => {
            return None;
        },
    };
    proof { reveal_strlit("true"); reveal_strlit("false"); }
    match value {
        JsonValue::Str(text) => {
            let tt = trim_str(text.as_str());
            match param.param_type {
                PrepParamType::Int => match parse_i64(tt.as_str()) {
                    Some(n) => Some(json_from_i64(n)),
                    None => Some(JsonValue::Str(tt)),
                },
                PrepParamType::Bool => {
                    if str_eq(tt.as_str(), "true") {
                        Some(JsonValue::Bool(true))
                    } else if str_eq(tt.as_str(), "false") {
                        Some(JsonValue::Bool(false))
                    } else {
                        Some(JsonValue::Str(tt))
                    }
                },
                _ => Some(JsonValue::Str(tt)),
            }
        },
        other => Some(other.dup()),
    }
}

/// A parameter as it is stored: name trimmed, options kept (normalized) only
/// for a select, fixed value kept (normalized) only for a fixed source.
pub open spec fn normalized_param(p: PrepParam, r: PrepParam) -> bool {
    let n = trim(p.name@);
    &&& r.name@ == n
    &&& r.param_type == p.param_type
    &&& r.value_source == p.value_source
    &&& r.optional == p.optional
    &&& r.options@.len() == (if p.param_type == PrepParamType::Select { p.options@.len() } else { 0 })
    &&& forall|i: int| 0 <= i < r.options@.len() ==> normalized_option(n, i as nat, p.options@[i], #[trigger] r.options@[i])
    &&& normalized_fixed(p, p.value_source, r.fixed_value)
}

pub fn normalize_prep_param(param: &PrepParam) -> (r: PrepParam)
    ensures
        normalized_param(*param, r),
{
    let name = trim_str(param.name.as_str());
    let mut options: Vec<PrepParamOption> = Vec::new();
    if param.param_type == PrepParamType::Select {
        let mut i: usize = 0;
        while i < param.options.len()
            invariant
                i <= param.options@.len(),
                options@.len() == i,
                name@ == trim(param.name@),
                forall|j: int| 0 <= j < i ==> normalized_option(name@, j as nat, param.options@[j], #[trigger] options@[j]),
            decreases param.options.len() - i,
        {
            let o = normalize_prep_param_option(name.as_str(), i, &param.options[i]);
            options.push(o);
            i = i + 1;
        }
    }
    let fixed_value = normalize_fixed_value(param, param.value_source);
    PrepParam {
        name,
        param_type: param.param_type,
        value_source: param.value_source,
        optional: param.optional,
        options,
        fixed_value,
    }
}

/// The parameter every preparation project has: the project's path.
pub open spec fn is_project_path_param(p: PrepParam) -> bool {
    &&& p.name@ == "project_path"@
    &&& p.param_type == PrepParamType::Str
    &&& p.value_source == PrepParamValueSource::Runtime
    &&& !p.optional
    &&& p.options@.len() == 0
    &&& p.fixed_value is None
}

/// The parameters kept from a request: all but those named `project_path`.
pub open spec fn kept_params(ps: Seq<PrepParam>) -> Seq<PrepParam>
    decreases ps.len(),
{
    if ps.len() == 0 {
        Seq::empty()
    } else {
        let prev = kept_params(ps.drop_last());
        if trim(ps.last().name@) != "project_path"@ { prev.push(ps.last()) } else { prev }
    }
}

/// The parameters a preparation project stores: `project_path` first, then
/// each other parameter normalized, in order.
pub fn normalized_prep_params(params: &[PrepParam]) -> (r: Vec<PrepParam>)
    ensures
        r@.len() == kept_params(params@).len() + 1,
        is_project_path_param(r@[0]),
        forall|i: int| 0 <= i < kept_params(params@).len() ==> normalized_param(kept_params(params@)[i], #[trigger] r@[i + 1]),
{
    proof { reveal_strlit("project_path"); }
    let mut out: Vec<PrepParam> = Vec::new();
    out.push(PrepParam {
        name: "project_path".to_string(),
        param_type: PrepParamType::Str,
        value_source: PrepParamValueSource::Runtime,
        optional: false,
        options: Vec::new(),
        fixed_value: None,
    });
    let mut i: usize = 0;
    assert(params@.take(0) =~= Seq::<PrepParam>::empty());
    while i < params.len()
        invariant
            i <= params@.len(),
            out@.len() == kept_params(params@.take(i as int)).len() + 1,
            is_project_path_param(out@[0]),
            forall|j: int| 0 <= j < kept_params(params@.take(i as int)).len() ==> normalized_param(kept_params(params@.take(i as int))[j], #[trigger] out@[j + 1]),
        decreases params.len() - i,
    {
        assert(params@.take(i + 1).drop_last() =~= params@.take(i as int));
        let name = trim_str(params[i].name.as_str());
        if !str_eq(name.as_str(), "project_path") {
            let n = normalize_prep_param(&params[i]);
            out.push(n);
        }
        i = i + 1;
    }
    assert(params@.take(params@.len() as int) =~= params@);
    out
}


/// The value a run uses for a parameter: its fixed value, or what the caller gave.
pub open spec fn effective_value(p: PrepParam, m: ParamMap) -> Option<JsonValue> {
    if p.value_source == PrepParamValueSource::Fixed {
        p.fixed_value
    } else {
        m.spec_get(p.name@)
    }
}

pub fn resolve_effective_param_value(param: &PrepParam, params: &ParamMap) -> (r: Option<JsonValue>)
    requires
        params.wf(),
    ensures
        r == effective_value(*param, *params),
{
    if param.value_source == PrepParamValueSource::Fixed {
        return match &param.fixed_value {
            Some(v) => Some(v.dup()),
            None => None,
        };
    }
    match params.get(param.name.as_str()) {
        Some(v) => Some(v.dup()),
        None => None,
    }
}

/// What is wrong with the value a run would give one parameter, if anything.
pub open spec fn target_param_problem(p: PrepParam, m: ParamMap) -> Option<Seq<char>> {
    match effective_value(p, m) {
        None => if p.value_source == PrepParamValueSource::Fixed || !p.optional {
            Some("缺少必填参数 "@ + p.name@)
        } else {
            None
        },
        Some(v) => prep_value_problem(p, v),
    }
}

/// The first problem, in order, among the parameters other than `project_path`.
pub open spec fn target_problem(ps: Seq<PrepParam>, m: ParamMap) -> Option<Seq<char>>
    decreases ps.len(),
{
    if ps.len() == 0 {
        None
    } else {
        let prev = target_problem(ps.drop_last(), m);
        if prev is Some {
            prev
        } else if ps.last().name@ == "project_path"@ {
            None
        } else {
            target_param_problem(ps.last(), m)
        }
    }
}

proof fn lemma_target_problem_stays(ps: Seq<PrepParam>, m: ParamMap, k: int)
    requires
        0 <= k <= ps.len(),
    ensures
        target_problem(ps.take(k), m) is Some ==> target_problem(ps, m) == target_problem(ps.take(k), m),
    decreases ps.len() - k,
{
    if k < ps.len() {
        lemma_target_problem_stays(ps, m, k + 1);
        assert(ps.take(k + 1).drop_last() =~= ps.take(k));
    } else {
        assert(ps.take(k) =~= ps);
    }
}

/// Checks the values a run would give; the first problem found, in order,
/// is the error.
pub fn check_target_params(params_def: &Vec<PrepParam>, params: &ParamMap) -> (r: Result<(), String>)
    requires
        params.wf(),
    ensures
        text_outcome(r, target_problem(params_def@, *params)),
{
    proof { reveal_strlit("project_path"); }
    let mut i: usize = 0;
    assert(params_def@.take(0) =~= Seq::<PrepParam>::empty());
    while i < params_def.len()
        invariant
            i <= params_def@.len(),
            params.wf(),
            target_problem(params_def@.take(i as int), *params) is None,
        decreases params_def.len() - i,
    {
        assert(params_def@.take(i + 1).drop_last() =~= params_def@.take(i as int));
        let param = &params_def[i];
        if !str_eq(param.name.as_str(), "project_path") {
            match resolve_effective_param_value(param, params) {
                None => {
                    if param.value_source == PrepParamValueSource::Fixed || !param.optional {
                        proof { lemma_target_problem_stays(params_def@, *params, i + 1); }
                        return Err(concat2("缺少必填参数 ", param.name.as_str()));
                    }
                },
                Some(v) => {
                    let c = validate_prep_param_value(param, &v);
                    if c.is_err() {
                        proof { lemma_target_problem_stays(params_def@, *params, i + 1); }
                        return c;
                    }
                },
            }
        }
        i = i + 1;
    }
    assert(params_def@.take(params_def@.len() as int) =~= params_def@);
    Ok(())
}

/// Checks the values a run of the preparation project would give.
pub fn validate_prep_target_params(prep_project: &PrepProject, params: &ParamMap) -> (r: Result<(), AppError>)
    requires
        params.wf(),
    ensures
        outcome(r, match target_problem(prep_project.params@, *params) {
            Some(m) => Some((ErrorKind::Validation, m)),
            None => None,
        }),
{
    match check_target_params(&prep_project.params, params) {
        Ok(()) => Ok(()),
        Err(m) => Err(AppError::Validation(m)),
    }
}

/// The command-line text a parameter's value becomes: a string or select
/// value has its placeholders replaced; others are given as they read.
pub open spec fn arg_text(p: PrepParam, v: JsonValue, c: PlaceholderContext) -> Seq<char> {
    match p.param_type {
        PrepParamType::Str | PrepParamType::Select => spec_replace_text(c, rendered(v)),
        _ => rendered(v),
    }
}

/// The `--name value` pairs a run passes after `--project_path`, in order.
pub open spec fn args_tail(ps: Seq<PrepParam>, m: ParamMap, c: PlaceholderContext) -> Seq<Seq<char>>
    decreases ps.len(),
{
    if ps.len() == 0 {
        Seq::empty()
    } else {
        let prev = args_tail(ps.drop_last(), m, c);
        let p = ps.last();
        if p.name@ == "project_path"@ {
            prev
        } else {
            match effective_value(p, m) {
                None => prev,
                Some(v) => prev.push("--"@ + p.name@).push(arg_text(p, v, c)),
            }
        }
    }
}

/// The arguments of `main.py` for a run: the values are checked first (the
/// first problem is the error), then `--project_path` and each parameter
/// that has a value.
pub fn build_prep_args(prep_project: &PrepProject, params: &ParamMap, context: &PlaceholderContext) -> (r: Result<Vec<String>, String>)
    requires
        params.wf(),
    ensures
        match target_problem(prep_project.params@, *params) {
            Some(m) => r matches Err(e) && e@ == m,
            None => r matches Ok(a) && views(a@) == seq!["--project_path"@, context.project_path@] + args_tail(prep_project.params@, *params, *context),
        },
{
    check_target_params(&prep_project.params, params)?;
    proof { reveal_strlit("project_path"); reveal_strlit("--project_path"); reveal_strlit("--"); }
    let ghost ps = prep_project.params@;
    let ghost head = seq!["--project_path"@, context.project_path@];
    let mut args: Vec<String> = Vec::new();
    args.push("--project_path".to_string());
    args.push(copy_string(context.project_path.as_str()));
    assert(ps.take(0) =~= Seq::<PrepParam>::empty());
    assert(views(args@) =~= head + args_tail(ps.take(0), *params, *context));
    let mut i: usize = 0;
    while i < prep_project.params.len()
        invariant
            i <= ps.len(),
            ps == prep_project.params@,
            params.wf(),
            head == seq!["--project_path"@, context.project_path@],
            views(args@) == head + args_tail(ps.take(i as int), *params, *context),
        decreases ps.len() - i,
    {
        assert(ps.take(i + 1).drop_last() =~= ps.take(i as int));
        let param = &prep_project.params[i];
        if !str_eq(param.name.as_str(), "project_path") {
            match resolve_effective_param_value(param, params) {
                None => {},
                Some(v) => {
                    let flag = concat2("--", param.name.as_str());
                    let text = v.render();
                    let arg = match param.param_type {
                        PrepParamType::Str | PrepParamType::Select => context.replace_text(text.as_str()),
                        _ => text,
                    };
                    let ghost before = args@;
                    args.push(flag);
                    args.push(arg);
                    assert(views(args@) =~= views(before).push(("--"@ + param.name@)).push(arg_text(*param, v, *context)));
                },
            }
        }
        i = i + 1;
    }
    assert(ps.take(ps.len() as int) =~= ps);
    Ok(args)
}

/// The command line a run shows.
pub open spec fn command_text(args: Seq<Seq<char>>) -> Seq<char> {
    "uv run --python 3.14 main.py "@ + joined(args, " "@)
}

pub fn render_prep_command(args: &Vec<String>) -> (r: String)
    ensures
        r@ == command_text(views(args@)),
{
    let joined_args = join_strings(args, " ");
    concat2("uv run --python 3.14 main.py ", joined_args.as_str())
}


/// What is wrong with the path of an imported file, if anything: it must be
/// given, relative, and made of names only.
pub open spec fn import_path_problem(path: Seq<char>) -> Option<Seq<char>> {
    let cs = components(path);
    if is_blank(path) {
        Some("导入文件路径不能为空"@)
    } else if path[0] == '/' {
        Some("导入文件路径必须为相对路径"@)
    } else if exists|i: int| 0 <= i < cs.len() && !is_normal(#[trigger] cs[i]) {
        Some("导入文件路径不合法: "@ + path)
    } else {
        None
    }
}

pub fn validate_import_file_path(path: &str) -> (r: Result<(), String>)
    ensures
        text_outcome(r, import_path_problem(path@)),
{
    proof { reveal_strlit("/"); reveal_strlit("."); reveal_strlit(".."); }
    if is_blank_str(path) {
        return Err("导入文件路径不能为空".to_string());
    }
    let cs = chars_of(path);
    if cs[0] == '/' {
        return Err("导入文件路径必须为相对路径".to_string());
    }
    let comps = path_components(path);
    let mut i: usize = 0;
    while i < comps.len()
        invariant
            i <= comps@.len(),
            comps@.len() == components(path@).len(),
            forall|j: int| 0 <= j < comps@.len() ==> (#[trigger] comps@[j])@ == components(path@)[j],
            forall|j: int| 0 <= j < i ==> is_normal(#[trigger] components(path@)[j]),
            !is_blank(path@),
            path@[0] != '/',
        decreases comps.len() - i,
    {
        let c = comps[i].as_str();
        if str_eq(c, "/") || str_eq(c, ".") || str_eq(c, "..") {
            assert(!is_normal(components(path@)[i as int]));
            return Err(concat2("导入文件路径不合法: ", path));
        }
        i = i + 1;
    }
    Ok(())
}

/// Whether an import that brings `files` leaves out the managed file at
/// `relative`, so that an update which replaces the project removes it.
pub open spec fn dropped_by_import(relative: Seq<char>, files: Seq<PrepProjectExportFile>) -> bool {
    forall|k: int| 0 <= k < files.len() ==> #[trigger] files[k].path@ != relative
}

pub fn is_dropped_by_import(relative: &str, files: &Vec<PrepProjectExportFile>) -> (r: bool)
    ensures
        r == dropped_by_import(relative@, files@),
{
    let mut k: usize = 0;
    while k < files.len()
        invariant
            k <= files.len(),
            forall|j: int| 0 <= j < k ==> #[trigger] files@[j].path@ != relative@,
        decreases files.len() - k,
    {
        if str_eq(files[k].path.as_str(), relative) {
            return false;
        }
        k = k + 1;
    }
    true
}

/// Directories whose files a preparation project does not export.
pub open spec fn is_runtime_dir(c: Seq<char>) -> bool {
    c == ".venv"@ || c == "__pycache__"@ || c == ".git"@ || c == "data"@
}

/// Whether a file of a preparation project, by its relative path, is exported
/// and restored: a non-empty path of names only, not `uv.lock`, and outside
/// `.venv`, `__pycache__`, `.git` and `data`.
pub open spec fn managed_export(path: Seq<char>) -> bool {
    let cs = components(path);
    &&& path.len() > 0
    &&& !(cs.len() > 0 && cs.last() == "uv.lock"@)
    &&& forall|i: int| 0 <= i < cs.len() ==> is_normal(#[trigger] cs[i]) && !is_runtime_dir(cs[i])
}

pub fn should_manage_export_file(relative: &str) -> (r: bool)
    ensures
        r == managed_export(relative@),
{
    proof {
        reveal_strlit("/"); reveal_strlit("."); reveal_strlit(".."); reveal_strlit("uv.lock");
        reveal_strlit(".venv"); reveal_strlit("__pycache__"); reveal_strlit(".git"); reveal_strlit("data");
    }
    if relative.is_empty() {
        return false;
    }
    let comps = path_components(relative);
    let n = comps.len();
    if n > 0 && str_eq(comps[n - 1].as_str(), "uv.lock") {
        return false;
    }
    let mut i: usize = 0;
    while i < n
        invariant
            i <= n,
            n == comps@.len(),
            comps@.len() == components(relative@).len(),
            forall|j: int| 0 <= j < comps@.len() ==> (#[trigger] comps@[j])@ == components(relative@)[j],
            forall|j: int| 0 <= j < i ==> is_normal(#[trigger] components(relative@)[j]) && !is_runtime_dir(components(relative@)[j]),
        decreases n - i,
    {
        let c = comps[i].as_str();
        if str_eq(c, "/") || str_eq(c, ".") || str_eq(c, "..") || str_eq(c, ".venv") || str_eq(c, "__pycache__")
            || str_eq(c, ".git") || str_eq(c, "data") {
            assert(!(is_normal(components(relative@)[i as int]) && !is_runtime_dir(components(relative@)[i as int])));
            return false;
        }
        i = i + 1;
    }
    true
}

/// The first problem, in order, among the paths of imported files.
pub open spec fn files_problem(fs: Seq<PrepProjectExportFile>) -> Option<Seq<char>>
    decreases fs.len(),
{
    if fs.len() == 0 {
        None
    } else {
        let prev = files_problem(fs.drop_last());
        if prev is Some { prev } else { import_path_problem(fs.last().path@) }
    }
}

proof fn lemma_files_problem_stays(fs: Seq<PrepProjectExportFile>, k: int)
    requires
        0 <= k <= fs.len(),
    ensures
        files_problem(fs.take(k)) is Some ==> files_problem(fs) == files_problem(fs.take(k)),
    decreases fs.len() - k,
{
    if k < fs.len() {
        lemma_files_problem_stays(fs, k + 1);
        assert(fs.take(k + 1).drop_last() =~= fs.take(k));
    } else {
        assert(fs.take(k) =~= fs);
    }
}

/// The only format version of an export that is read back.
pub const EXPORT_SCHEMA_VERSION: u32 = 1;

/// What is wrong with an import, if anything: its version, its name, its
/// parameters, then the path of each file, in that order.
pub open spec fn import_payload_problem(p: PrepProjectExportPayload) -> Option<Seq<char>> {
    if p.schema_version != 1 {
        Some("不支持的导入版本 "@ + dec(p.schema_version as nat) + ", 当前仅支持 1"@)
    } else if is_blank(p.prep.name@) {
        Some("导入内容缺少准备项目名称"@)
    } else if prep_params_problem(p.prep.params@) is Some {
        prep_params_problem(p.prep.params@)
    } else {
        files_problem(p.files@)
    }
}

pub fn validate_import_payload(payload: &PrepProjectExportPayload) -> (r: Result<(), String>)
    ensures
        text_outcome(r, import_payload_problem(*payload)),
{
    if payload.schema_version != EXPORT_SCHEMA_VERSION {
        let mut m = "不支持的导入版本 ".to_string();
        let v = u64_to_string(payload.schema_version as u64);
        push_str(&mut m, v.as_str());
        push_str(&mut m, ", 当前仅支持 1");
        return Err(m);
    }
    if is_blank_str(payload.prep.name.as_str()) {
        return Err("导入内容缺少准备项目名称".to_string());
    }
    validate_prep_params(payload.prep.params.as_slice())?;
    let mut i: usize = 0;
    assert(payload.files@.take(0) =~= Seq::<PrepProjectExportFile>::empty());
    while i < payload.files.len()
        invariant
            i <= payload.files@.len(),
            files_problem(payload.files@.take(i as int)) is None,
            payload.schema_version == 1,
            !is_blank(payload.prep.name@),
            prep_params_problem(payload.prep.params@) is None,
        decreases payload.files.len() - i,
    {
        assert(payload.files@.take(i + 1).drop_last() =~= payload.files@.take(i as int));
        let c = validate_import_file_path(payload.files[i].path.as_str());
        if c.is_err() {
            proof { lemma_files_problem_stays(payload.files@, i + 1); }
            return c;
        }
        i = i + 1;
    }
    assert(payload.files@.take(payload.files@.len() as int) =~= payload.files@);
    Ok(())
}


/// The entry of a batch run for a task whose run could not be made.
pub fn failed_task_run_item(task_id: &str, task_name: &str, project_name: &str, project_path: &str, error_message: &str) -> (r: PrepProjectTaskRunItem)
    ensures
        r.task_id@ == task_id@,
        r.task_name@ == task_name@,
        r.project_name@ == project_name@,
        !r.success,
        r.exit_code == -1,
        r.command@.len() == 0,
        r.project_path@ == project_path@,
        r.stdout@.len() == 0,
        r.stderr@.len() == 0,
        r.error_message matches Some(m) && m@ == error_message@,
{
    PrepProjectTaskRunItem {
        task_id: copy_string(task_id),
        task_name: copy_string(task_name),
        project_name: copy_string(project_name),
        success: false,
        exit_code: -1,
        command: String::new(),
        project_path: copy_string(project_path),
        stdout: String::new(),
        stderr: String::new(),
        error_message: Some(copy_string(error_message)),
    }
}

/// The message of a run that exited with a failure code.
pub open spec fn exit_failure_message(code: i32) -> Seq<char> {
    "准备项目执行失败，退出码 "@ + dec_int(code as int)
}

/// The entry of a batch run for a task whose run was made.
pub fn task_run_item_from_result(task_id: &str, task_name: &str, project_name: &str, result: PrepProjectRunResponse) -> (r: PrepProjectTaskRunItem)
    ensures
        r.task_id@ == task_id@,
        r.task_name@ == task_name@,
        r.project_name@ == project_name@,
        r.success == result.success,
        r.exit_code == result.exit_code,
        r.command == result.command,
        r.project_path == result.project_path,
        r.stdout == result.stdout,
        r.stderr == result.stderr,
        result.success ==> r.error_message is None,
        !result.success ==> (r.error_message matches Some(m) && m@ == exit_failure_message(result.exit_code)),
{
    let error_message = if result.success {
        None
    } else {
        let code = i64_to_string(result.exit_code as i64);
        Some(concat2("准备项目执行失败，退出码 ", code.as_str()))
    };
    PrepProjectTaskRunItem {
        task_id: copy_string(task_id),
        task_name: copy_string(task_name),
        project_name: copy_string(project_name),
        success: result.success,
        exit_code: result.exit_code,
        command: result.command,
        project_path: result.project_path,
        stdout: result.stdout,
        stderr: result.stderr,
        error_message,
    }
}

/// What came of one task of a batch run.
pub enum TaskRunOutcome {
    /// The prep project ran (and succeeded or exited with a failure code).
    Ran { task_name: String, project_name: String, result: PrepProjectRunResponse },
    /// The run could not be made, or the task could not be readied for it.
    NotRun { task_name: String, project_name: String, project_path: String, message: String },
}

/// The entry of a batch run for a task and what came of it.
pub open spec fn batch_item_of(task_id: Seq<char>, o: TaskRunOutcome, r: PrepProjectTaskRunItem) -> bool {
    &&& r.task_id@ == task_id
    &&& match o {
        TaskRunOutcome::Ran { task_name, project_name, result } => {
            &&& r.task_name@ == task_name@
            &&& r.project_name@ == project_name@
            &&& r.success == result.success
            &&& r.exit_code == result.exit_code
            &&& r.command == result.command
            &&& r.project_path == result.project_path
            &&& r.stdout == result.stdout
            &&& r.stderr == result.stderr
            &&& result.success ==> r.error_message is None
            &&& !result.success ==> (r.error_message matches Some(m) && m@ == exit_failure_message(result.exit_code))
        },
        TaskRunOutcome::NotRun { task_name, project_name, project_path, message } => {
            &&& r.task_name@ == task_name@
            &&& r.project_name@ == project_name@
            &&& r.project_path@ == project_path@
            &&& !r.success
            &&& r.exit_code == -1
            &&& r.command@.len() == 0
            &&& r.stdout@.len() == 0
            &&& r.stderr@.len() == 0
            &&& r.error_message matches Some(m) && m@ == message@
        },
    }
}

pub fn batch_item(task_id: &str, outcome: TaskRunOutcome) -> (r: PrepProjectTaskRunItem)
    ensures
        batch_item_of(task_id@, outcome, r),
{
    match outcome {
        TaskRunOutcome::Ran { task_name, project_name, result } => task_run_item_from_result(task_id, task_name.as_str(), project_name.as_str(), result),
        TaskRunOutcome::NotRun { task_name, project_name, project_path, message } =>
            failed_task_run_item(task_id, task_name.as_str(), project_name.as_str(), project_path.as_str(), message.as_str()),
    }
}

/// The answer to a batch run over `task_ids`, given what came of each task
/// in turn: one entry per task id, in the order given, each for its task
/// (a task that could not run is a failed entry, not an error), and how
/// many succeeded and failed.
pub fn summarize_batch(task_ids: &Vec<String>, outcomes: Vec<TaskRunOutcome>) -> (r: PrepProjectRunForTasksResponse)
    requires
        outcomes@.len() == task_ids@.len(),
    ensures
        r.results@.len() == task_ids@.len(),
        r.total_count == task_ids@.len(),
        forall|i: int| 0 <= i < task_ids@.len() ==> batch_item_of(task_ids@[i]@, outcomes@[i], #[trigger] r.results@[i]),
        r.success_count == success_count(r.results@),
        r.failed_count == r.total_count - r.success_count,
{
    let ghost all = outcomes@;
    let mut rest = outcomes;
    let mut items: Vec<PrepProjectTaskRunItem> = Vec::new();
    let mut k: usize = 0;
    while rest.len() > 0
        invariant
            k + rest@.len() == all.len(),
            all.len() == task_ids@.len(),
            rest@ == all.skip(k as int),
            items@.len() == k,
            forall|i: int| 0 <= i < k ==> batch_item_of(task_ids@[i]@, all[i], #[trigger] items@[i]),
        decreases rest@.len(),
    {
        let o = rest.remove(0);
        assert(o == all[k as int]);
        assert(k < task_ids.len());
        let item = batch_item(task_ids[k].as_str(), o);
        items.push(item);
        k = k + 1;
        assert(rest@ =~= all.skip(k as int));
    }
    summarize_task_runs(items)
}

/// How many entries succeeded.
pub open spec fn success_count(items: Seq<PrepProjectTaskRunItem>) -> nat
    decreases items.len(),
{
    if items.len() == 0 {
        0
    } else {
        success_count(items.drop_last()) + if items.last().success { 1nat } else { 0nat }
    }
}

proof fn lemma_success_count_le(items: Seq<PrepProjectTaskRunItem>)
    ensures
        success_count(items) <= items.len(),
    decreases items.len(),
{
    if items.len() > 0 {
        lemma_success_count_le(items.drop_last());
    }
}

/// A batch run must name at least one task.
pub fn check_task_ids(task_ids: &Vec<String>) -> (r: Result<(), AppError>)
    ensures
        outcome(r, if task_ids@.len() == 0 { Some((ErrorKind::Validation, "请至少选择一个任务"@)) } else { None }),
{
    if task_ids.len() == 0 {
        return Err(AppError::Validation("请至少选择一个任务".to_string()));
    }
    Ok(())
}

/// The answer to a batch run: the entries in task order and how many
/// succeeded and failed.
pub fn summarize_task_runs(results: Vec<PrepProjectTaskRunItem>) -> (r: PrepProjectRunForTasksResponse)
    ensures
        r.results@ == results@,
        r.total_count == results@.len(),
        r.success_count == success_count(results@),
        r.failed_count == results@.len() - success_count(results@),
{
    let mut n: usize = 0;
    let mut i: usize = 0;
    assert(results@.take(0) =~= Seq::<PrepProjectTaskRunItem>::empty());
    while i < results.len()
        invariant
            i <= results@.len(),
            n == success_count(results@.take(i as int)),
            n <= i,
        decreases results.len() - i,
    {
        assert(results@.take(i + 1).drop_last() =~= results@.take(i as int));
        if results[i].success {
            n = n + 1;
        }
        i = i + 1;
    }
    assert(results@.take(results@.len() as int) =~= results@);
    let total = results.len();
    PrepProjectRunForTasksResponse { total_count: total, success_count: n, failed_count: total - n, results }
}

/// A new preparation project: name and description trimmed, parameters
/// normalized.
pub fn build_prep_project(id: String, path: String, create_time: String, name: &str, description: &str, params: &[PrepParam]) -> (r: PrepProject)
    ensures
        r.id == id,
        r.path == path,
        r.create_time == create_time,
        r.name@ == trim(name@),
        r.description@ == trim(description@),
        r.params@.len() == kept_params(params@).len() + 1,
        is_project_path_param(r.params@[0]),
        forall|i: int| 0 <= i < kept_params(params@).len() ==> normalized_param(kept_params(params@)[i], #[trigger] r.params@[i + 1]),
{
    PrepProject {
        id,
        name: trim_str(name),
        path,
        description: trim_str(description),
        create_time,
        params: normalized_prep_params(params),
    }
}

/// A preparation project after an update: name and description trimmed,
/// parameters normalized; id, path and creation time kept.
pub fn apply_prep_update(existing: PrepProject, name: &str, description: &str, params: &[PrepParam]) -> (r: PrepProject)
    ensures
        r.id == existing.id,
        r.path == existing.path,
        r.create_time == existing.create_time,
        r.name@ == trim(name@),
        r.description@ == trim(description@),
        r.params@.len() == kept_params(params@).len() + 1,
        is_project_path_param(r.params@[0]),
        forall|i: int| 0 <= i < kept_params(params@).len() ==> normalized_param(kept_params(params@)[i], #[trigger] r.params@[i + 1]),
{
    build_prep_project(existing.id, existing.path, existing.create_time, name, description, params)
}

/// The parameters an export carries: all but `project_path`.
pub open spec fn exported_params(ps: Seq<PrepParam>) -> Seq<PrepParam>
    decreases ps.len(),
{
    if ps.len() == 0 {
        Seq::empty()
    } else {
        let prev = exported_params(ps.drop_last());
        if ps.last().name@ != "project_path"@ { prev.push(ps.last()) } else { prev }
    }
}

/// What an export of a preparation project holds: the current version, its
/// name, description and parameters other than `project_path`, and its files.
pub fn build_export_payload(project: &PrepProject, files: Vec<PrepProjectExportFile>) -> (r: PrepProjectExportPayload)
    ensures
        r.schema_version == 1,
        r.prep.name == project.name,
        r.prep.description == project.description,
        r.prep.params@.len() == exported_params(project.params@).len(),
        forall|i: int| 0 <= i < r.prep.params@.len() ==> (#[trigger] r.prep.params@[i]).same_as(exported_params(project.params@)[i]),
        r.files@ == files@,
{
    proof { reveal_strlit("project_path"); }
    let ghost ps = project.params@;
    let mut params: Vec<PrepParam> = Vec::new();
    let mut i: usize = 0;
    assert(ps.take(0) =~= Seq::<PrepParam>::empty());
    while i < project.params.len()
        invariant
            i <= ps.len(),
            ps == project.params@,
            params@.len() == exported_params(ps.take(i as int)).len(),
            forall|j: int| 0 <= j < params@.len() ==> (#[trigger] params@[j]).same_as(exported_params(ps.take(i as int))[j]),
        decreases ps.len() - i,
    {
        assert(ps.take(i + 1).drop_last() =~= ps.take(i as int));
        if !str_eq(project.params[i].name.as_str(), "project_path") {
            params.push(project.params[i].dup());
        }
        i = i + 1;
    }
    assert(ps.take(ps.len() as int) =~= ps);
    PrepProjectExportPayload {
        schema_version: EXPORT_SCHEMA_VERSION,
        prep: PrepProjectExportMeta {
            name: project.name.clone(),
            description: project.description.clone(),
            params,
        },
        files,
    }
}

/// The file name of a preparation project's metadata.
pub fn prep_meta_file_name(id: &str) -> (r: String)
    ensures
        r@ == "prep_"@ + id@ + ".json"@,
{
    concat3("prep_", id, ".json")
}

/// The directory name of a preparation project.
pub fn prep_dir_name(id: &str) -> (r: String)
    ensures
        r@ == "prep_"@ + id@,
{
    concat2("prep_", id)
}

/// Whether a file name is that of a preparation project's metadata.
pub fn is_prep_meta_file_name(name: &str) -> (r: bool)
    ensures
        r == ("prep_"@.is_prefix_of(name@) && crate::text::is_suffix(".json"@, name@)),
{
    crate::text::starts_with(name, "prep_") && crate::text::ends_with(name, ".json")
}


/// The Python type a parameter is given.
pub open spec fn py_type(t: PrepParamType) -> Seq<char> {
    match t {
        PrepParamType::Str | PrepParamType::Select => "str"@,
        PrepParamType::Int => "int"@,
        PrepParamType::Bool => "bool"@,
    }
}

fn py_type_name(t: PrepParamType) -> (r: &'static str)
    ensures
        r@ == py_type(t),
{
    match t {
        PrepParamType::Str | PrepParamType::Select => "str",
        PrepParamType::Int => "int",
        PrepParamType::Bool => "bool",
    }
}

/// The field of the `Person` dataclass for a parameter.
pub open spec fn model_field(p: PrepParam) -> Seq<char> {
    "    "@ + p.name@ + ": "@ + py_type(p.param_type) + (if p.optional { " = None\n"@ } else { "\n"@ })
}

pub open spec fn model_fields(ps: Seq<PrepParam>) -> Seq<char>
    decreases ps.len(),
{
    if ps.len() == 0 { Seq::empty() } else { model_fields(ps.drop_last()) + model_field(ps.last()) }
}

/// `models.py`: a `Person` dataclass with a field per parameter.
pub open spec fn models_py(ps: Seq<PrepParam>) -> Seq<char> {
    "from dataclasses import dataclass\n\n@dataclass\nclass Person:\n"@ + model_fields(ps)
}

pub fn generate_models_py(params: &[PrepParam]) -> (r: String)
    ensures
        r@ == models_py(params@),
{
    let mut fields = String::new();
    let mut i: usize = 0;
    assert(params@.take(0) =~= Seq::<PrepParam>::empty());
    while i < params.len()
        invariant
            i <= params@.len(),
            fields@ == model_fields(params@.take(i as int)),
        decreases params.len() - i,
    {
        assert(params@.take(i + 1).drop_last() =~= params@.take(i as int));
        let p = &params[i];
        push_str(&mut fields, "    ");
        push_str(&mut fields, p.name.as_str());
        push_str(&mut fields, ": ");
        push_str(&mut fields, py_type_name(p.param_type));
        if p.optional {
            push_str(&mut fields, " = None\n");
        } else {
            push_str(&mut fields, "\n");
        }
        i = i + 1;
    }
    assert(params@.take(params@.len() as int) =~= params@);
    concat2("from dataclasses import dataclass\n\n@dataclass\nclass Person:\n", fields.as_str())
}

/// The `argparse` line of `main.py` for a parameter.
pub open spec fn arg_line(p: PrepParam) -> Seq<char> {
    "    parser.add_argument(\"--"@ + p.name@ + "\", type="@ + py_type(p.param_type) + ", required="@
        + (if p.optional { "False"@ } else { "True"@ }) + ", help=\"请输入"@ + p.name@ + "\")\n"@
}

pub open spec fn arg_lines(ps: Seq<PrepParam>) -> Seq<char>
    decreases ps.len(),
{
    if ps.len() == 0 { Seq::empty() } else { arg_lines(ps.drop_last()) + arg_line(ps.last()) }
}

/// `name=args.name`, how `main.py` hands a parameter to `Person`.
pub open spec fn init_arg(p: PrepParam) -> Seq<char> {
    p.name@ + "=args."@ + p.name@
}

pub open spec fn init_args(ps: Seq<PrepParam>) -> Seq<Seq<char>> {
    ps.map_values(|p: PrepParam| init_arg(p))
}

/// `main.py`: reads each parameter from the command line and hands a
/// `Person` to `process_person`.
pub open spec fn main_py(ps: Seq<PrepParam>) -> Seq<char> {
    "##不要动main.py里的代码\nimport argparse\nimport sys\nimport io\nfrom lib import process_person\nfrom models import Person\n\nif sys.stdout.encoding != 'utf-8':\n    sys.stdout = io.TextIOWrapper(sys.stdout.buffer, encoding='utf-8')\n\ndef main():\n    parser = argparse.ArgumentParser(description=\"请输入参数\")\n"@
        + arg_lines(ps) + "\n    args = parser.parse_args()\n    person = Person("@ + joined(init_args(ps), ", "@)
        + ")\n    process_person(person)\n\nif __name__ == \"__main__\":\n    main()\n"@
}

pub fn generate_main_py(params: &[PrepParam]) -> (r: String)
    ensures
        r@ == main_py(params@),
{
    let mut args_code = String::new();
    let mut inits: Vec<String> = Vec::new();
    let mut i: usize = 0;
    assert(params@.take(0) =~= Seq::<PrepParam>::empty());
    while i < params.len()
        invariant
            i <= params@.len(),
            args_code@ == arg_lines(params@.take(i as int)),
            views(inits@) == init_args(params@.take(i as int)),
        decreases params.len() - i,
    {
        assert(params@.take(i + 1).drop_last() =~= params@.take(i as int));
        let p = &params[i];
        push_str(&mut args_code, "    parser.add_argument(\"--");
        push_str(&mut args_code, p.name.as_str());
        push_str(&mut args_code, "\", type=");
        push_str(&mut args_code, py_type_name(p.param_type));
        push_str(&mut args_code, ", required=");
        if p.optional {
            push_str(&mut args_code, "False");
        } else {
            push_str(&mut args_code, "True");
        }
        push_str(&mut args_code, ", help=\"请输入");
        push_str(&mut args_code, p.name.as_str());
        push_str(&mut args_code, "\")\n");
        let init = concat3(p.name.as_str(), "=args.", p.name.as_str());
        let ghost before = inits@;
        inits.push(init);
        assert(views(inits@) =~= views(before).push(init_arg(*p)));
        assert(init_args(params@.take(i + 1)) =~= init_args(params@.take(i as int)).push(init_arg(*p)));
        i = i + 1;
    }
    assert(params@.take(params@.len() as int) =~= params@);
    let mut out = "##不要动main.py里的代码\nimport argparse\nimport sys\nimport io\nfrom lib import process_person\nfrom models import Person\n\nif sys.stdout.encoding != 'utf-8':\n    sys.stdout = io.TextIOWrapper(sys.stdout.buffer, encoding='utf-8')\n\ndef main():\n    parser = argparse.ArgumentParser(description=\"请输入参数\")\n".to_string();
    push_str(&mut out, args_code.as_str());
    push_str(&mut out, "\n    args = parser.parse_args()\n    person = Person(");
    let joined_inits = join_strings(&inits, ", ");
    push_str(&mut out, joined_inits.as_str());
    push_str(&mut out, ")\n    process_person(person)\n\nif __name__ == \"__main__\":\n    main()\n");
    out
}

/// `lib.py` as a new preparation project gets it.
pub open spec fn default_lib_text() -> Seq<char> {
    "## 你的逻辑写在这里，不要动 main.py 里的代码\n## data 目录是数据目录，动态生成的资源请放到 data/ 下面\n## 退出码说明：0 表示成功，非 0 表示失败，系统会记录对应退出码\nimport sys\nfrom models import Person\n\ndef process_person(person: Person):\n    print(person)\n    sys.exit(0)\n"@
}

pub fn default_lib_py() -> (r: &'static str)
    ensures
        r@ == default_lib_text(),
{
    "## 你的逻辑写在这里，不要动 main.py 里的代码\n## data 目录是数据目录，动态生成的资源请放到 data/ 下面\n## 退出码说明：0 表示成功，非 0 表示失败，系统会记录对应退出码\nimport sys\nfrom models import Person\n\ndef process_person(person: Person):\n    print(person)\n    sys.exit(0)\n"
}


/// The name an import starts from: the given name trimmed, or a default.
pub open spec fn import_base(base: Seq<char>) -> Seq<char> {
    if trim(base).len() == 0 { "导入准备项目"@ } else { trim(base) }
}

/// The `k`-th numbered name of an import.
pub open spec fn numbered_import_name(c: Seq<char>, k: nat) -> Seq<char> {
    crate::text::numbered(c + "（导入"@, k, "）"@)
}

/// The name an import takes among existing names: the base if free, then
/// the base marked as imported, then the first free numbered name from 2 on.
pub open spec fn import_name_chosen(base: Seq<char>, names: Seq<Seq<char>>, r: Seq<char>) -> bool {
    let c = import_base(base);
    if !names.contains(c) {
        r == c
    } else if !names.contains(c + "（导入）"@) {
        r == c + "（导入）"@
    } else {
        exists|k: nat|
            #![trigger numbered_import_name(c, k)]
            k >= 2 && r == numbered_import_name(c, k) && !names.contains(r) && (forall|j: nat|
                2 <= j < k ==> names.contains(#[trigger] numbered_import_name(c, j)))
    }
}

/// The name an imported preparation project takes, given the names in use.
pub fn unique_import_name(base_name: &str, existing_names: &Vec<String>) -> (r: String)
    ensures
        import_name_chosen(base_name@, views(existing_names@), r@),
{
    proof { reveal_strlit("导入准备项目"); }
    let ghost names = views(existing_names@);
    let t = trim_str(base_name);
    let candidate = if t.as_str().is_empty() { "导入准备项目".to_string() } else { t };
    assert(candidate@ == import_base(base_name@));
    if !contains_string(existing_names, candidate.as_str()) {
        return candidate;
    }
    let imported = concat2(candidate.as_str(), "（导入）");
    if !contains_string(existing_names, imported.as_str()) {
        return imported;
    }
    let ghost c = candidate@;
    let count = existing_names.len();
    assert(existing_names@.len() == count);
    let mut index: u128 = 2;
    loop
        invariant
            2 <= index <= existing_names@.len() + 2,
            existing_names@.len() <= usize::MAX,
            names == views(existing_names@),
            c == candidate@,
            c == import_base(base_name@),
            names.contains(c),
            names.contains(c + "（导入）"@),
            forall|j: nat| 2 <= j < index ==> names.contains(#[trigger] numbered_import_name(c, j)),
        decreases existing_names@.len() + 2 - index,
    {
        let mut next = concat2(candidate.as_str(), "（导入");
        let d = crate::text::u128_to_string(index);
        push_str(&mut next, d.as_str());
        push_str(&mut next, "）");
        assert(next@ == numbered_import_name(c, index as nat));
        if !contains_string(existing_names, next.as_str()) {
            assert(import_name_chosen(base_name@, names, next@));
            return next;
        }
        proof {
            assert(forall|j: nat| 2 <= j < index + 1 ==> names.contains(#[trigger] numbered_import_name(c, j)));
            assert forall|j: nat| 2 <= j < 2 + (index - 1) as nat implies names.contains(#[trigger] crate::text::numbered(c + "（导入"@, j, "）"@)) by {
                assert(names.contains(numbered_import_name(c, j)));
            }
            crate::text::lemma_numbered_all_taken(c + "（导入"@, "）"@, names, 2, (index - 1) as nat);
        }
        index = index + 1;
    }
}

/// The error for a project whose workspace is not initialized, when a prep
/// project is run for it by hand.
pub fn project_uninitialized_error(project_name: &str) -> (e: AppError)
    ensures
        e.kind() == ErrorKind::Validation,
        e.spec_message() == "项目 "@ + project_name@ + " 未初始化，请先到引擎与项目页初始化"@,
{
    AppError::Validation(concat3("项目 ", project_name, " 未初始化，请先到引擎与项目页初始化"))
}

/// The error for a task whose project's workspace is not initialized, when
/// a prep project is run for it.
pub fn task_project_uninitialized_error(task_name: &str, project_name: &str) -> (e: AppError)
    ensures
        e.kind() == ErrorKind::Validation,
        e.spec_message() == "任务 "@ + task_name@ + " 关联项目 "@ + project_name@ + " 未初始化，请先到引擎与项目页初始化"@,
{
    let mut m = concat3("任务 ", task_name, " 关联项目 ");
    push_str(&mut m, project_name);
    push_str(&mut m, " 未初始化，请先到引擎与项目页初始化");
    AppError::Validation(m)
}

/// The error for a prep project whose directory is gone.
pub fn prep_dir_missing_error(dir: &str) -> (e: AppError)
    ensures
        e.kind() == ErrorKind::NotFound,
        e.spec_message() == "准备项目目录不存在: "@ + dir@,
{
    AppError::NotFound(concat2("准备项目目录不存在: ", dir))
}

/// The arguments of `uv` that run a prep project's `main.py` with its
/// parameters.
pub open spec fn uv_args_spec(args: Seq<Seq<char>>) -> Seq<Seq<char>> {
    seq!["run"@, "--python"@, "3.14"@, "main.py"@] + args
}

pub fn uv_args(command_args: &Vec<String>) -> (r: Vec<String>)
    ensures
        views(r@) == uv_args_spec(views(command_args@)),
{
    let mut v: Vec<String> = Vec::new();
    v.push("run".to_string());
    v.push("--python".to_string());
    v.push("3.14".to_string());
    v.push("main.py".to_string());
    let mut i: usize = 0;
    while i < command_args.len()
        invariant
            i <= command_args@.len(),
            views(v@) == seq!["run"@, "--python"@, "3.14"@, "main.py"@] + views(command_args@).take(i as int),
        decreases command_args.len() - i,
    {
        let ghost before = views(v@);
        v.push(copy_string(command_args[i].as_str()));
        assert(views(v@) =~= before.push(command_args@[i as int]@));
        assert(views(command_args@).take(i + 1) =~= views(command_args@).take(i as int).push(command_args@[i as int]@));
        i = i + 1;
    }
    assert(views(command_args@).take(command_args@.len() as int) =~= views(command_args@));
    v
}

/// The branch a prep project sees for a task: the main repository's current
/// branch when it could be read, else the group's branch.
pub fn task_project_branch(current_branch: Option<String>, group_branch: &str) -> (r: String)
    ensures
        match current_branch {
            Some(b) => r == b,
            None => r@ == group_branch@,
        },
{
    match current_branch {
        Some(b) => b,
        None => copy_string(group_branch),
    }
}


/// Every parameter other than `project_path` that has a value (given, or
/// fixed) is passed as `--<name>` followed by its value, optional or not.
pub proof fn law_valued_params_are_passed(ps: Seq<PrepParam>, m: ParamMap, c: PlaceholderContext, i: int, v: JsonValue)
    requires
        0 <= i < ps.len(),
        ps[i].name@ != "project_path"@,
        effective_value(ps[i], m) == Some(v),
    ensures
        exists|k: int| 0 <= k && k + 1 < args_tail(ps, m, c).len()
            && #[trigger] args_tail(ps, m, c)[k] == "--"@ + ps[i].name@
            && args_tail(ps, m, c)[k + 1] == arg_text(ps[i], v, c),
    decreases ps.len(),
{
    let prev = args_tail(ps.drop_last(), m, c);
    if i == ps.len() - 1 {
        let k = prev.len() as int;
        assert(args_tail(ps, m, c)[k] == "--"@ + ps[i].name@);
    } else {
        assert(ps.drop_last()[i] == ps[i]);
        law_valued_params_are_passed(ps.drop_last(), m, c, i, v);
        let k = choose|k: int| 0 <= k && k + 1 < prev.len()
            && #[trigger] prev[k] == "--"@ + ps[i].name@
            && prev[k + 1] == arg_text(ps[i], v, c);
        let t = args_tail(ps, m, c);
        assert(t.len() >= prev.len() && t.take(prev.len() as int) == prev) by {
            let p = ps.last();
            if p.name@ != "project_path"@ {
                match effective_value(p, m) {
                    Some(w) => { assert(t.take(prev.len() as int) =~= prev); },
                    None => { assert(t.take(prev.len() as int) =~= prev); },
                }
            } else {
                assert(t.take(prev.len() as int) =~= prev);
            }
        }
        assert(t[k] == t.take(prev.len() as int)[k]);
        assert(t[k + 1] == t.take(prev.len() as int)[k + 1]);
    }
}

} // verus!
