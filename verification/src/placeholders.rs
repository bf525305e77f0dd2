//! `${...}` placeholders in build arguments and preparation parameters.

use vstd::prelude::*;
use crate::json::{JsonValue, rendered};
use crate::models::{build_mode_text, Engine, Project};
use crate::param_map::{ParamEntry, ParamMap};
use crate::text::{chars_of, copy_string, dec, push_char, push_str, replace_all, replace_all_str, replace_char, replace_char_str, to_ascii_uppercase, u64_to_string, upper_seq};

verus! {

/// A rendered dynamic parameter.
#[derive(Debug, Clone, PartialEq)]
pub struct PlaceholderParam {
    pub key: String,
    pub value: String,
}

/// The values that placeholders are replaced with.
#[derive(Debug, Clone, PartialEq)]
pub struct PlaceholderContext {
    pub version: String,
    pub version_prefix: String,
    pub minor_version: String,
    pub build_mode: String,
    pub build_mode_uppercase: String,
    pub is_hot_update: String,
    pub enable_pay: String,
    pub review_mode: String,
    pub project_branch: String,
    pub project_path: String,
    pub engine_path: String,
    pub code_package_path: String,
    pub remote_package_path: String,
    /// Dynamic parameters, in key order.
    pub params: Vec<PlaceholderParam>,
}

/// Keeps `s` up to (not including) its `n`-th dot.
pub open spec fn cut_at_dot(s: Seq<char>, n: nat) -> Seq<char>
    decreases s.len(),
{
    if s.len() == 0 {
        s
    } else if s[0] == '.' {
        if n <= 1 {
            Seq::empty()
        } else {
            seq!['.'] + cut_at_dot(s.drop_first(), (n - 1) as nat)
        }
    } else {
        seq![s[0]] + cut_at_dot(s.drop_first(), n)
    }
}

/// The first three dot-separated fields of a version (`split('.').take(3).join(".")`).
pub open spec fn version_prefix(v: Seq<char>) -> Seq<char> {
    cut_at_dot(v, 3)
}

pub open spec fn bool_text(b: bool) -> Seq<char> {
    if b { "true"@ } else { "false"@ }
}

/// Windows separators turned into forward slashes.
pub open spec fn slash_path(p: Seq<char>) -> Seq<char> {
    replace_char(p, '\\', '/')
}

/// A path with its Windows separators turned into forward slashes.
pub fn normalize_placeholder_path(path: &str) -> (r: String)
    ensures
        r@ == slash_path(path@),
{
    replace_char_str(path, '\\', '/')
}

/// `version_prefix` of a string.
pub fn version_prefix_of(v: &str) -> (r: String)
    ensures
        r@ == version_prefix(v@),
{
    let cs = chars_of(v);
    let mut out = String::new();
    let mut i: usize = 0;
    let mut n: u64 = 3;
    assert(cs@.subrange(0, cs.len() as int) =~= cs@);
    while i < cs.len()
        invariant
            i <= cs.len(),
            cs@ == v@,
            1 <= n <= 3,
            version_prefix(v@) == out@ + cut_at_dot(cs@.subrange(i as int, cs.len() as int), n as nat),
        decreases cs.len() - i,
    {
        let ghost t = cs@.subrange(i as int, cs.len() as int);
        assert(t.drop_first() =~= cs@.subrange(i + 1, cs.len() as int));
        let c = cs[i];
        if c == '.' {
            if n <= 1 {
                assert(out@ + Seq::<char>::empty() =~= out@);
                return out;
            }
            push_char(&mut out, '.');
            n = n - 1;
            assert(out@ + cut_at_dot(t.drop_first(), n as nat) =~= old_out_plus(out@, cut_at_dot(t.drop_first(), n as nat)));
        } else {
            push_char(&mut out, c);
        }
        proof {
            assert(version_prefix(v@) == out@ + cut_at_dot(t.drop_first(), n as nat));
        }
        i = i + 1;
    }
    assert(out@ + Seq::<char>::empty() =~= out@);
    out
}

spec fn old_out_plus(a: Seq<char>, b: Seq<char>) -> Seq<char> {
    a + b
}

fn bool_string(b: bool) -> (r: String)
    ensures
        r@ == bool_text(b),
{
    if b { "true".to_string() } else { "false".to_string() }
}

/// The pattern `${param.<key>}`.
pub open spec fn param_pattern(key: Seq<char>) -> Seq<char> {
    "${param."@ + key + "}"@
}

/// Replacements in the order they are applied: the fixed names, then each
/// dynamic parameter in key order.
pub open spec fn fixed_pairs(c: PlaceholderContext) -> Seq<(Seq<char>, Seq<char>)> {
    seq![
        ("${version}"@, c.version@),
        ("${version_prefix}"@, c.version_prefix@),
        ("${minor_version}"@, c.minor_version@),
        ("${build_mode}"@, c.build_mode@),
        ("${BUILD_MODE}"@, c.build_mode_uppercase@),
        ("${is_hot_update}"@, c.is_hot_update@),
        ("${enable_pay}"@, c.enable_pay@),
        ("${review_mode}"@, c.review_mode@),
        ("${project_branch}"@, c.project_branch@),
        ("${project_path}"@, c.project_path@),
        ("${engine_path}"@, c.engine_path@),
        ("${code_package_path}"@, c.code_package_path@),
        ("${remote_package_path}"@, c.remote_package_path@),
        ("${code_repo_path}"@, c.code_package_path@),
        ("${asset_repo_path}"@, c.remote_package_path@),
    ]
}

pub open spec fn param_pairs(ps: Seq<PlaceholderParam>) -> Seq<(Seq<char>, Seq<char>)> {
    ps.map_values(|p: PlaceholderParam| (param_pattern(p.key@), p.value@))
}

/// Applies each replacement in turn.
pub open spec fn apply_all(s: Seq<char>, pairs: Seq<(Seq<char>, Seq<char>)>) -> Seq<char>
    decreases pairs.len(),
{
    if pairs.len() == 0 {
        s
    } else {
        apply_all(replace_all(s, pairs[0].0, pairs[0].1), pairs.drop_first())
    }
}

/// What `replace_text` returns.
pub open spec fn spec_replace_text(c: PlaceholderContext, input: Seq<char>) -> Seq<char> {
    apply_all(input, fixed_pairs(c) + param_pairs(c.params@))
}

/// Dynamic parameters rendered: strings as themselves, other values as JSON text.
pub open spec fn rendered_params(m: Seq<ParamEntry>) -> Seq<(Seq<char>, Seq<char>)> {
    m.map_values(|e: ParamEntry| (e.key@, rendered(e.value)))
}

impl PlaceholderContext {
    /// A context for a project without dynamic parameters.
    pub fn new(
        project: &Project,
        engine: &Engine,
        project_branch: String,
        project_path: String,
        code_package_path: String,
        remote_package_path: String,
    ) -> (c: PlaceholderContext)
        ensures
            c.fields_from(*project, *engine, project_branch@, project_path@, code_package_path@, remote_package_path@),
            c.params@.len() == 0,
    {
        Self::new_with_params(
            project,
            engine,
            project_branch,
            project_path,
            code_package_path,
            remote_package_path,
            &ParamMap::new(),
        )
    }

    /// Each fixed field as the project, engine and paths give it.
    pub open spec fn fields_from(
        self,
        project: Project,
        engine: Engine,
        project_branch: Seq<char>,
        project_path: Seq<char>,
        code_package_path: Seq<char>,
        remote_package_path: Seq<char>,
    ) -> bool {
        &&& self.version@ == project.version@
        &&& self.version_prefix@ == version_prefix(project.version@)
        &&& self.minor_version@ == dec(project.minor_version as nat)
        &&& self.build_mode@ == build_mode_text(project.build_mode)
        &&& self.build_mode_uppercase@ == upper_seq(build_mode_text(project.build_mode))
        &&& self.is_hot_update@ == bool_text(project.is_hot_update)
        &&& self.enable_pay@ == bool_text(project.enable_pay)
        &&& self.review_mode@ == bool_text(project.review_mode)
        &&& self.project_branch@ == project_branch
        &&& self.project_path@ == slash_path(project_path)
        &&& self.engine_path@ == slash_path(engine.path@)
        &&& self.code_package_path@ == slash_path(code_package_path)
        &&& self.remote_package_path@ == slash_path(remote_package_path)
    }

    /// A context for a project, with the task group's dynamic parameters.
    pub fn new_with_params(
        project: &Project,
        engine: &Engine,
        project_branch: String,
        project_path: String,
        code_package_path: String,
        remote_package_path: String,
        params: &ParamMap,
    ) -> (c: PlaceholderContext)
        ensures
            c.fields_from(*project, *engine, project_branch@, project_path@, code_package_path@, remote_package_path@),
            c.params@.len() == params.entries@.len(),
            param_pairs(c.params@) == rendered_params(params.entries@).map_values(
                |p: (Seq<char>, Seq<char>)| (param_pattern(p.0), p.1),
            ),
    {
        let build_mode = project.build_mode.as_str().to_string();
        let build_mode_uppercase = to_ascii_uppercase(build_mode.as_str());
        let mut rendered_list: Vec<PlaceholderParam> = Vec::new();
        let mut i: usize = 0;
        while i < params.entries.len()
            invariant
                i <= params.entries@.len(),
                rendered_list@.len() == i,
                forall|j: int| 0 <= j < i ==> {
                    &&& (#[trigger] rendered_list@[j]).key@ == params.entries@[j].key@
                    &&& rendered_list@[j].value@ == rendered(params.entries@[j].value)
                },
            decreases params.entries.len() - i,
        {
            let e = &params.entries[i];
            rendered_list.push(PlaceholderParam { key: copy_string(e.key.as_str()), value: e.value.render() });
            i = i + 1;
        }
        let c = PlaceholderContext {
            version: copy_string(project.version.as_str()),
            version_prefix: version_prefix_of(project.version.as_str()),
            minor_version: u64_to_string(project.minor_version as u64),
            build_mode,
            build_mode_uppercase,
            is_hot_update: bool_string(project.is_hot_update),
            enable_pay: bool_string(project.enable_pay),
            review_mode: bool_string(project.review_mode),
            project_branch,
            project_path: normalize_placeholder_path(project_path.as_str()),
            engine_path: normalize_placeholder_path(engine.path.as_str()),
            code_package_path: normalize_placeholder_path(code_package_path.as_str()),
            remote_package_path: normalize_placeholder_path(remote_package_path.as_str()),
            params: rendered_list,
        };
        assert(param_pairs(c.params@) =~= rendered_params(params.entries@).map_values(
            |p: (Seq<char>, Seq<char>)| (param_pattern(p.0), p.1),
        ));
        c
    }

    /// Replaces every placeholder in `input`: the fixed names first, in a
    /// fixed order, then `${param.<key>}` for each dynamic parameter in key order.
    pub fn replace_text(&self, input: &str) -> (r: String)
        ensures
            r@ == spec_replace_text(*self, input@),
    {
        let mut pats: Vec<String> = Vec::new();
        let mut vals: Vec<String> = Vec::new();
        pats.push("${version}".to_string()); vals.push(copy_string(self.version.as_str()));
        pats.push("${version_prefix}".to_string()); vals.push(copy_string(self.version_prefix.as_str()));
        pats.push("${minor_version}".to_string()); vals.push(copy_string(self.minor_version.as_str()));
        pats.push("${build_mode}".to_string()); vals.push(copy_string(self.build_mode.as_str()));
        pats.push("${BUILD_MODE}".to_string()); vals.push(copy_string(self.build_mode_uppercase.as_str()));
        pats.push("${is_hot_update}".to_string()); vals.push(copy_string(self.is_hot_update.as_str()));
        pats.push("${enable_pay}".to_string()); vals.push(copy_string(self.enable_pay.as_str()));
        pats.push("${review_mode}".to_string()); vals.push(copy_string(self.review_mode.as_str()));
        pats.push("${project_branch}".to_string()); vals.push(copy_string(self.project_branch.as_str()));
        pats.push("${project_path}".to_string()); vals.push(copy_string(self.project_path.as_str()));
        pats.push("${engine_path}".to_string()); vals.push(copy_string(self.engine_path.as_str()));
        pats.push("${code_package_path}".to_string()); vals.push(copy_string(self.code_package_path.as_str()));
        pats.push("${remote_package_path}".to_string()); vals.push(copy_string(self.remote_package_path.as_str()));
        pats.push("${code_repo_path}".to_string()); vals.push(copy_string(self.code_package_path.as_str()));
        pats.push("${asset_repo_path}".to_string()); vals.push(copy_string(self.remote_package_path.as_str()));
        let mut k: usize = 0;
        while k < self.params.len()
            invariant
                k <= self.params@.len(),
                pats@.len() == 15 + k,
                vals@.len() == 15 + k,
                forall|j: int| 0 <= j < 15 + k ==> (#[trigger] pats@[j])@ == (fixed_pairs(*self) + param_pairs(self.params@))[j].0,
                forall|j: int| 0 <= j < 15 + k ==> (#[trigger] vals@[j])@ == (fixed_pairs(*self) + param_pairs(self.params@))[j].1,
            decreases self.params.len() - k,
        {
            let p = &self.params[k];
            let mut pat = "${param.".to_string();
            push_str(&mut pat, p.key.as_str());
            push_char(&mut pat, '}');
            proof { reveal_strlit("}"); assert(pat@ =~= param_pattern(p.key@)); }
            pats.push(pat);
            vals.push(copy_string(p.value.as_str()));
            k = k + 1;
        }
        let ghost pairs = fixed_pairs(*self) + param_pairs(self.params@);
        proof {
            reveal_strlit("${version}"); reveal_strlit("${version_prefix}"); reveal_strlit("${minor_version}");
            reveal_strlit("${build_mode}"); reveal_strlit("${BUILD_MODE}"); reveal_strlit("${is_hot_update}");
            reveal_strlit("${enable_pay}"); reveal_strlit("${review_mode}"); reveal_strlit("${project_branch}");
            reveal_strlit("${project_path}"); reveal_strlit("${engine_path}"); reveal_strlit("${code_package_path}");
            reveal_strlit("${remote_package_path}"); reveal_strlit("${code_repo_path}"); reveal_strlit("${asset_repo_path}");
            reveal_strlit("${param.");
        }
        let mut result = copy_string(input);
        let mut i: usize = 0;
        assert(pairs.subrange(0, pairs.len() as int) =~= pairs);
        while i < pats.len()
            invariant
                i <= pats@.len(),
                pats@.len() == pairs.len(),
                vals@.len() == pairs.len(),
                forall|j: int| 0 <= j < pairs.len() ==> (#[trigger] pats@[j])@ == pairs[j].0,
                forall|j: int| 0 <= j < pairs.len() ==> (#[trigger] vals@[j])@ == pairs[j].1,
                forall|j: int| 0 <= j < pairs.len() ==> (#[trigger] pairs[j]).0.len() > 0,
                apply_all(input@, pairs) == apply_all(result@, pairs.subrange(i as int, pairs.len() as int)),
            decreases pats.len() - i,
        {
            let ghost rest = pairs.subrange(i as int, pairs.len() as int);
            assert(rest.drop_first() =~= pairs.subrange(i + 1, pairs.len() as int));
            result = replace_all_str(result.as_str(), pats[i].as_str(), vals[i].as_str());
            i = i + 1;
        }
        result
    }
}


/// Whether a text holds the opener `${` of a placeholder.
pub open spec fn has_opener(s: Seq<char>) -> bool {
    exists|i: int| 0 <= i < s.len() - 1 && s[i] == '$' && #[trigger] s[i + 1] == '{'
}

/// Whether a pattern starts with the opener `${`.
pub open spec fn opens(p: Seq<char>) -> bool {
    p.len() >= 2 && p[0] == '$' && p[1] == '{'
}

proof fn lemma_replace_all_without_opener(s: Seq<char>, p: Seq<char>, r: Seq<char>)
    requires
        opens(p),
        !has_opener(s),
    ensures
        crate::text::replace_all(s, p, r) == s,
    decreases s.len(),
{
    if s.len() == 0 {
    } else {
        if p.is_prefix_of(s) {
            assert(s[0] == p[0] && s[1] == p[1]);
            assert(s[0int + 1] == '{');
            assert(false);
        }
        let rest = s.subrange(1, s.len() as int);
        assert forall|i: int| 0 <= i < rest.len() - 1 && rest[i] == '$' implies #[trigger] rest[i + 1] != '{' by {
            assert(rest[i] == s[i + 1]);
            assert(rest[i + 1] == s[(i + 1) + 1]);
        }
        lemma_replace_all_without_opener(rest, p, r);
        assert(seq![s[0]] + rest =~= s);
    }
}

proof fn lemma_apply_all_without_opener(s: Seq<char>, pairs: Seq<(Seq<char>, Seq<char>)>)
    requires
        !has_opener(s),
        forall|k: int| 0 <= k < pairs.len() ==> opens(#[trigger] pairs[k].0),
    ensures
        apply_all(s, pairs) == s,
    decreases pairs.len(),
{
    if pairs.len() > 0 {
        assert(opens(pairs[0].0));
        lemma_replace_all_without_opener(s, pairs[0].0, pairs[0].1);
        let rest = pairs.drop_first();
        assert forall|k: int| 0 <= k < rest.len() implies opens(#[trigger] rest[k].0) by {
            assert(rest[k] == pairs[k + 1]);
        }
        lemma_apply_all_without_opener(s, rest);
    }
}

/// A text without the opener `${` comes back from `replace_text` unchanged,
/// whatever the context.
pub proof fn law_replace_text_without_opener(c: PlaceholderContext, input: Seq<char>)
    requires
        !has_opener(input),
    ensures
        spec_replace_text(c, input) == input,
{
    reveal_strlit("${version}");
    reveal_strlit("${version_prefix}");
    reveal_strlit("${minor_version}");
    reveal_strlit("${build_mode}");
    reveal_strlit("${BUILD_MODE}");
    reveal_strlit("${is_hot_update}");
    reveal_strlit("${enable_pay}");
    reveal_strlit("${review_mode}");
    reveal_strlit("${project_branch}");
    reveal_strlit("${project_path}");
    reveal_strlit("${engine_path}");
    reveal_strlit("${code_package_path}");
    reveal_strlit("${remote_package_path}");
    reveal_strlit("${code_repo_path}");
    reveal_strlit("${asset_repo_path}");
    reveal_strlit("${param.");
    let pairs = fixed_pairs(c) + param_pairs(c.params@);
    assert forall|k: int| 0 <= k < pairs.len() implies opens(#[trigger] pairs[k].0) by {
        if k >= 15 {
            let key = c.params@[k - 15].key@;
            assert(pairs[k].0 == param_pattern(key));
            assert(param_pattern(key)[0] == "${param."@[0]);
            assert(param_pattern(key)[1] == "${param."@[1]);
        }
    }
    lemma_apply_all_without_opener(input, pairs);
}


/// Whether `p` occurs somewhere in `s`.
pub open spec fn occurs_in(p: Seq<char>, s: Seq<char>) -> bool {
    exists|i: int| 0 <= i <= s.len() && p.is_prefix_of(#[trigger] s.subrange(i, s.len() as int))
}

proof fn lemma_replace_all_absent(s: Seq<char>, p: Seq<char>, r: Seq<char>)
    requires
        p.len() > 0,
        !occurs_in(p, s),
    ensures
        crate::text::replace_all(s, p, r) == s,
    decreases s.len(),
{
    if s.len() > 0 {
        assert(s.subrange(0, s.len() as int) =~= s);
        let rest = s.subrange(1, s.len() as int);
        assert(!occurs_in(p, rest)) by {
            if occurs_in(p, rest) {
                let i = choose|i: int| 0 <= i <= rest.len() && p.is_prefix_of(#[trigger] rest.subrange(i, rest.len() as int));
                assert(rest.subrange(i, rest.len() as int) =~= s.subrange(i + 1, s.len() as int));
            }
        }
        lemma_replace_all_absent(rest, p, r);
        assert(seq![s[0]] + rest =~= s);
    }
}

proof fn lemma_replace_all_whole(s: Seq<char>, r: Seq<char>)
    requires
        s.len() > 0,
    ensures
        crate::text::replace_all(s, s, r) == r,
{
    assert(s.subrange(0, s.len() as int) =~= s);
    assert(s.is_prefix_of(s));
    assert(s.subrange(s.len() as int, s.len() as int) =~= Seq::<char>::empty());
    assert(crate::text::replace_all(Seq::<char>::empty(), s, r) == Seq::<char>::empty());
    assert(r + Seq::<char>::empty() =~= r);
}

/// The shape of a fixed placeholder: `${`, a name without `$` or `}`, `}`.
pub open spec fn placeholder_shaped(t: Seq<char>) -> bool {
    &&& t.len() >= 3
    &&& t[0] == '$'
    &&& t[1] == '{'
    &&& t[t.len() - 1] == '}'
    &&& forall|j: int| 0 < j < t.len() ==> #[trigger] t[j] != '$'
    &&& forall|j: int| 0 <= j < t.len() - 1 ==> #[trigger] t[j] != '}'
}

proof fn lemma_other_placeholder_absent(p: Seq<char>, t: Seq<char>)
    requires
        placeholder_shaped(p),
        placeholder_shaped(t),
        p != t,
    ensures
        !occurs_in(p, t),
{
    if occurs_in(p, t) {
        let i = choose|i: int| 0 <= i <= t.len() && p.is_prefix_of(#[trigger] t.subrange(i, t.len() as int));
        let u = t.subrange(i, t.len() as int);
        assert(u[0] == p[0]);
        assert(t[i] == '$');
        assert(i == 0);
        assert(u =~= t);
        assert(t[p.len() - 1] == p[p.len() - 1]);
        assert(p.len() == t.len());
        assert(p =~= t.subrange(0, p.len() as int));
        assert(p =~= t);
    }
}

proof fn lemma_apply_all_hits(s: Seq<char>, pairs: Seq<(Seq<char>, Seq<char>)>, k: int)
    requires
        0 <= k < pairs.len(),
        s.len() > 0,
        pairs[k].0 == s,
        forall|j: int| 0 <= j < k ==> (#[trigger] pairs[j]).0.len() > 0 && !occurs_in(pairs[j].0, s),
        forall|j: int| 0 <= j < pairs.len() ==> opens(#[trigger] pairs[j].0),
        !has_opener(pairs[k].1),
    ensures
        apply_all(s, pairs) == pairs[k].1,
    decreases k,
{
    let rest = pairs.drop_first();
    assert forall|j: int| 0 <= j < rest.len() implies opens(#[trigger] rest[j].0) by {
        assert(rest[j] == pairs[j + 1]);
    }
    if k == 0 {
        lemma_replace_all_whole(s, pairs[0].1);
        lemma_apply_all_without_opener(pairs[0].1, rest);
    } else {
        assert(pairs[0].0.len() > 0 && !occurs_in(pairs[0].0, s));
        lemma_replace_all_absent(s, pairs[0].0, pairs[0].1);
        assert forall|j: int| 0 <= j < k - 1 implies (#[trigger] rest[j]).0.len() > 0 && !occurs_in(rest[j].0, s) by {
            assert(rest[j] == pairs[j + 1]);
        }
        assert(rest[k - 1] == pairs[k]);
        lemma_apply_all_hits(s, rest, k - 1);
    }
}

proof fn lemma_fixed_shapes(c: PlaceholderContext)
    ensures
        forall|k: int| 0 <= k < 15 ==> placeholder_shaped(#[trigger] fixed_pairs(c)[k].0),
        forall|j: int, k: int| 0 <= j < k < 15 ==> #[trigger] fixed_pairs(c)[j].0 != #[trigger] fixed_pairs(c)[k].0,
{
    reveal_strlit("${version}");
    reveal_strlit("${version_prefix}");
    reveal_strlit("${minor_version}");
    reveal_strlit("${build_mode}");
    reveal_strlit("${BUILD_MODE}");
    reveal_strlit("${is_hot_update}");
    reveal_strlit("${enable_pay}");
    reveal_strlit("${review_mode}");
    reveal_strlit("${project_branch}");
    reveal_strlit("${project_path}");
    reveal_strlit("${engine_path}");
    reveal_strlit("${code_package_path}");
    reveal_strlit("${remote_package_path}");
    reveal_strlit("${code_repo_path}");
    reveal_strlit("${asset_repo_path}");
    let f = fixed_pairs(c);
    assert forall|j: int, k: int| 0 <= j < k < 15 implies #[trigger] f[j].0 != #[trigger] f[k].0 by {
        if f[j].0.len() == f[k].0.len() {
            assert(f[j].0[2] != f[k].0[2]);
        }
    }
}

proof fn lemma_fixed_hit(c: PlaceholderContext, k: int)
    requires
        0 <= k < 15,
        !has_opener(fixed_pairs(c)[k].1),
    ensures
        spec_replace_text(c, fixed_pairs(c)[k].0) == fixed_pairs(c)[k].1,
{
    reveal_strlit("${param.");
    lemma_fixed_shapes(c);
    let pairs = fixed_pairs(c) + param_pairs(c.params@);
    let s = fixed_pairs(c)[k].0;
    assert(pairs[k] == fixed_pairs(c)[k]);
    assert forall|j: int| 0 <= j < pairs.len() implies opens(#[trigger] pairs[j].0) by {
        if j >= 15 {
            let key = c.params@[j - 15].key@;
            assert(pairs[j].0 == param_pattern(key));
            assert(param_pattern(key)[0] == "${param."@[0]);
            assert(param_pattern(key)[1] == "${param."@[1]);
        } else {
            assert(pairs[j] == fixed_pairs(c)[j]);
        }
    }
    assert forall|j: int| 0 <= j < k implies (#[trigger] pairs[j]).0.len() > 0 && !occurs_in(pairs[j].0, s) by {
        assert(pairs[j] == fixed_pairs(c)[j]);
        lemma_other_placeholder_absent(fixed_pairs(c)[j].0, s);
    }
    lemma_apply_all_hits(s, pairs, k);
}

/// Each fixed placeholder, alone in a text, is replaced by the context's
/// value of the same name (`${BUILD_MODE}` by the upper-case build mode,
/// `${code_repo_path}` and `${asset_repo_path}` by the code and remote
/// package paths), whatever the other values and the dynamic parameters
/// are. Left out: values that themselves hold `${`, which later
/// replacements may change.
pub proof fn law_fixed_placeholders(c: PlaceholderContext)
    requires
        !has_opener(c.version@),
        !has_opener(c.version_prefix@),
        !has_opener(c.minor_version@),
        !has_opener(c.build_mode@),
        !has_opener(c.build_mode_uppercase@),
        !has_opener(c.is_hot_update@),
        !has_opener(c.enable_pay@),
        !has_opener(c.review_mode@),
        !has_opener(c.project_branch@),
        !has_opener(c.project_path@),
        !has_opener(c.engine_path@),
        !has_opener(c.code_package_path@),
        !has_opener(c.remote_package_path@),
    ensures
        spec_replace_text(c, "${version}"@) == c.version@,
        spec_replace_text(c, "${version_prefix}"@) == c.version_prefix@,
        spec_replace_text(c, "${minor_version}"@) == c.minor_version@,
        spec_replace_text(c, "${build_mode}"@) == c.build_mode@,
        spec_replace_text(c, "${BUILD_MODE}"@) == c.build_mode_uppercase@,
        spec_replace_text(c, "${is_hot_update}"@) == c.is_hot_update@,
        spec_replace_text(c, "${enable_pay}"@) == c.enable_pay@,
        spec_replace_text(c, "${review_mode}"@) == c.review_mode@,
        spec_replace_text(c, "${project_branch}"@) == c.project_branch@,
        spec_replace_text(c, "${project_path}"@) == c.project_path@,
        spec_replace_text(c, "${engine_path}"@) == c.engine_path@,
        spec_replace_text(c, "${code_package_path}"@) == c.code_package_path@,
        spec_replace_text(c, "${remote_package_path}"@) == c.remote_package_path@,
        spec_replace_text(c, "${code_repo_path}"@) == c.code_package_path@,
        spec_replace_text(c, "${asset_repo_path}"@) == c.remote_package_path@,
{
    reveal_strlit("${version}");
    reveal_strlit("${version_prefix}");
    reveal_strlit("${minor_version}");
    reveal_strlit("${build_mode}");
    reveal_strlit("${BUILD_MODE}");
    reveal_strlit("${is_hot_update}");
    reveal_strlit("${enable_pay}");
    reveal_strlit("${review_mode}");
    reveal_strlit("${project_branch}");
    reveal_strlit("${project_path}");
    reveal_strlit("${engine_path}");
    reveal_strlit("${code_package_path}");
    reveal_strlit("${remote_package_path}");
    reveal_strlit("${code_repo_path}");
    reveal_strlit("${asset_repo_path}");
    lemma_fixed_hit(c, 0);
    lemma_fixed_hit(c, 1);
    lemma_fixed_hit(c, 2);
    lemma_fixed_hit(c, 3);
    lemma_fixed_hit(c, 4);
    lemma_fixed_hit(c, 5);
    lemma_fixed_hit(c, 6);
    lemma_fixed_hit(c, 7);
    lemma_fixed_hit(c, 8);
    lemma_fixed_hit(c, 9);
    lemma_fixed_hit(c, 10);
    lemma_fixed_hit(c, 11);
    lemma_fixed_hit(c, 12);
    lemma_fixed_hit(c, 13);
    lemma_fixed_hit(c, 14);
}

} // verus!
