//! Relative paths, read the way `std::path::Path::components` reads a Unix
//! path: `/`-separated, empty segments and inner `.` segments dropped.

use vstd::prelude::*;
use crate::text::{chars_of, from_chars, push_char, push_str, str_eq, views, copy_string, concat2, concat3};

verus! {

/// The `/`-separated segments of `s` (as `str::split('/')` gives them).
pub open spec fn segments(s: Seq<char>) -> Seq<Seq<char>>
    decreases s.len(),
{
    if s.len() == 0 {
        seq![Seq::empty()]
    } else {
        let prev = segments(s.drop_last());
        if s.last() == '/' {
            prev.push(Seq::empty())
        } else {
            prev.update(prev.len() - 1, prev.last().push(s.last()))
        }
    }
}

pub proof fn lemma_segments_nonempty(s: Seq<char>)
    ensures
        segments(s).len() >= 1,
    decreases s.len(),
{
    if s.len() > 0 {
        lemma_segments_nonempty(s.drop_last());
    }
}

/// Segments that name something: not empty and not `.`.
pub open spec fn named(segs: Seq<Seq<char>>) -> Seq<Seq<char>>
    decreases segs.len(),
{
    if segs.len() == 0 {
        Seq::empty()
    } else {
        let prev = named(segs.drop_last());
        let g = segs.last();
        if g.len() == 0 || g == "."@ { prev } else { prev.push(g) }
    }
}

/// The components of a path, each as its text: `/` for the root, `.` for a
/// leading current directory, `..` for a parent, otherwise the name.
pub open spec fn components(s: Seq<char>) -> Seq<Seq<char>> {
    let segs = segments(s);
    if s.len() > 0 && s[0] == '/' {
        seq!["/"@] + named(segs)
    } else if segs[0] == "."@ {
        seq!["."@] + named(segs)
    } else {
        named(segs)
    }
}

/// A component that is a name (not root, `.` or `..`).
pub open spec fn is_normal(c: Seq<char>) -> bool {
    c != "/"@ && c != "."@ && c != ".."@
}

/// `/`-separated segments.
pub fn split_segments(s: &str) -> (r: Vec<String>)
    ensures
        r@.len() == segments(s@).len(),
        forall|i: int| 0 <= i < r@.len() ==> (#[trigger] r@[i])@ == segments(s@)[i],
{
    let cs = chars_of(s);
    let mut out: Vec<String> = Vec::new();
    let mut cur: Vec<char> = Vec::new();
    let mut i: usize = 0;
    assert(s@.take(0) =~= Seq::<char>::empty());
    while i < cs.len()
        invariant
            i <= cs.len(),
            cs@ == s@,
            out@.len() + 1 == segments(s@.take(i as int)).len(),
            forall|j: int| 0 <= j < out@.len() ==> (#[trigger] out@[j])@ == segments(s@.take(i as int))[j],
            cur@ == segments(s@.take(i as int)).last(),
        decreases cs.len() - i,
    {
        proof { lemma_segments_nonempty(s@.take(i as int)); }
        assert(s@.take(i + 1).drop_last() =~= s@.take(i as int));
        let c = cs[i];
        if c == '/' {
            out.push(from_chars(cur.as_slice()));
            cur = Vec::new();
        } else {
            cur.push(c);
        }
        i = i + 1;
    }
    proof { lemma_segments_nonempty(s@.take(i as int)); }
    out.push(from_chars(cur.as_slice()));
    assert(s@.take(cs.len() as int) =~= s@);
    out
}

/// `Path::components`, each as its text.
pub fn path_components(s: &str) -> (r: Vec<String>)
    ensures
        r@.len() == components(s@).len(),
        forall|i: int| 0 <= i < r@.len() ==> (#[trigger] r@[i])@ == components(s@)[i],
{
    let segs = split_segments(s);
    proof { lemma_segments_nonempty(s@); reveal_strlit("."); reveal_strlit("/"); }
    let ghost sv = segments(s@);
    let mut out: Vec<String> = Vec::new();
    let cs = chars_of(s);
    let absolute = cs.len() > 0 && cs[0] == '/';
    if absolute {
        out.push("/".to_string());
    } else if str_eq(segs[0].as_str(), ".") {
        out.push(".".to_string());
    }
    let ghost head = out@;
    let mut i: usize = 0;
    assert(sv.take(0) =~= Seq::<Seq<char>>::empty());
    while i < segs.len()
        invariant
            i <= segs@.len(),
            segs@.len() == sv.len(),
            forall|j: int| 0 <= j < segs@.len() ==> (#[trigger] segs@[j])@ == sv[j],
            out@.len() == head.len() + named(sv.take(i as int)).len(),
            forall|j: int| 0 <= j < head.len() ==> (#[trigger] out@[j]) == head[j],
            forall|j: int| 0 <= j < named(sv.take(i as int)).len() ==> (#[trigger] out@[head.len() + j])@ == named(sv.take(i as int))[j],
        decreases segs.len() - i,
    {
        assert(sv.take(i + 1).drop_last() =~= sv.take(i as int));
        let g = &segs[i];
        if !(g.as_str().is_empty() || str_eq(g.as_str(), ".")) {
            out.push(crate::text::copy_string(g.as_str()));
        }
        i = i + 1;
    }
    assert(sv.take(sv.len() as int) =~= sv);
    proof {
        let comps = components(s@);
        if absolute {
            assert(head.len() == 1 && head[0]@ == "/"@);
        }
        assert forall|k: int| 0 <= k < out@.len() implies (#[trigger] out@[k])@ == comps[k] by {
            if k < head.len() {
                assert(out@[k] == head[k]);
            } else {
                assert(out@[head.len() + (k - head.len())] == out@[k]);
            }
        }
    }
    out
}

/// Components joined by `/`.
pub open spec fn join_slash(cs: Seq<Seq<char>>) -> Seq<char>
    decreases cs.len(),
{
    if cs.len() == 0 {
        Seq::empty()
    } else if cs.len() == 1 {
        cs[0]
    } else {
        join_slash(cs.drop_last()) + "/"@ + cs.last()
    }
}

/// Joins strings with `/`.
pub fn join_with_slash(parts: &Vec<String>) -> (r: String)
    ensures
        r@ == join_slash(views(parts@)),
{
    proof { reveal_strlit("/"); }
    let mut out = String::new();
    let mut i: usize = 0;
    assert(views(parts@).take(0) =~= Seq::<Seq<char>>::empty());
    while i < parts.len()
        invariant
            i <= parts@.len(),
            out@ == join_slash(views(parts@).take(i as int)),
        decreases parts.len() - i,
    {
        let ghost pre = views(parts@).take(i as int);
        let ghost nxt = views(parts@).take(i + 1);
        assert(nxt.drop_last() =~= pre);
        assert(nxt.last() == parts@[i as int]@);
        if i > 0 {
            push_char(&mut out, '/');
        }
        push_str(&mut out, parts[i].as_str());
        proof {
            if i == 0 {
                assert(nxt =~= seq![parts@[0]@]);
            } else {
                reveal_strlit("/");
                assert("/"@ =~= seq!['/']);
                assert(join_slash(nxt) == join_slash(pre) + "/"@ + nxt.last());
                assert(out@ =~= join_slash(pre) + "/"@ + nxt.last());
            }
        }
        i = i + 1;
    }
    assert(views(parts@).take(parts@.len() as int) =~= views(parts@));
    out
}


/// The names of a relative path joined by `/`, other components dropped.
pub open spec fn normal_names(cs: Seq<Seq<char>>) -> Seq<Seq<char>>
    decreases cs.len(),
{
    if cs.len() == 0 {
        Seq::empty()
    } else {
        let prev = normal_names(cs.drop_last());
        if is_normal(cs.last()) { prev.push(cs.last()) } else { prev }
    }
}

/// A relative path written with `/` and only its names.
pub fn normalize_relative_path(path: &str) -> (r: String)
    ensures
        r@ == join_slash(normal_names(components(path@))),
{
    proof { reveal_strlit("/"); reveal_strlit("."); reveal_strlit(".."); }
    let comps = path_components(path);
    let ghost cv = components(path@);
    let mut names: Vec<String> = Vec::new();
    let mut i: usize = 0;
    assert(cv.take(0) =~= Seq::<Seq<char>>::empty());
    assert(views(names@) =~= Seq::<Seq<char>>::empty());
    while i < comps.len()
        invariant
            i <= comps@.len(),
            comps@.len() == cv.len(),
            forall|j: int| 0 <= j < comps@.len() ==> (#[trigger] comps@[j])@ == cv[j],
            views(names@) == normal_names(cv.take(i as int)),
        decreases comps.len() - i,
    {
        assert(cv.take(i + 1).drop_last() =~= cv.take(i as int));
        let c = comps[i].as_str();
        if !(str_eq(c, "/") || str_eq(c, ".") || str_eq(c, "..")) {
            names.push(crate::text::copy_string(c));
            assert(views(names@) =~= views(names@.drop_last()).push(names@.last()@));
        }
        i = i + 1;
    }
    assert(cv.take(cv.len() as int) =~= cv);
    join_with_slash(&names)
}

/// Whether a path is `subpackages/main/game.js` at its end.
pub open spec fn is_target_game_js_spec(path: Seq<char>) -> bool {
    let cs = components(path);
    &&& cs.len() >= 3
    &&& cs[cs.len() - 1] == "game.js"@
    &&& cs[cs.len() - 2] == "main"@
    &&& cs[cs.len() - 3] == "subpackages"@
}

/// Whether the file is `**/subpackages/main/game.js`.
pub fn is_target_game_js(path: &str) -> (r: bool)
    ensures
        r == is_target_game_js_spec(path@),
{
    let cs = path_components(path);
    let n = cs.len();
    n >= 3 && str_eq(cs[n - 1].as_str(), "game.js") && str_eq(cs[n - 2].as_str(), "main")
        && str_eq(cs[n - 3].as_str(), "subpackages")
}


/// The text of a path made of components: `/` for the root, then the other
/// components joined by `/`.
pub open spec fn render_components(cs: Seq<Seq<char>>) -> Seq<char> {
    if cs.len() > 0 && cs[0] == "/"@ {
        "/"@ + join_slash(cs.drop_first())
    } else {
        join_slash(cs)
    }
}

pub fn render_path(parts: &Vec<String>) -> (r: String)
    ensures
        r@ == render_components(views(parts@)),
{
    proof { reveal_strlit("/"); }
    if parts.len() > 0 && str_eq(parts[0].as_str(), "/") {
        let mut rest: Vec<String> = Vec::new();
        let mut i: usize = 1;
        while i < parts.len()
            invariant
                1 <= i <= parts@.len(),
                views(rest@) == views(parts@).drop_first().take(i - 1),
            decreases parts.len() - i,
        {
            let ghost before = views(rest@);
            rest.push(copy_string(parts[i].as_str()));
            assert(views(rest@) =~= before.push(parts@[i as int]@));
            assert(views(parts@).drop_first().take(i as int) =~= views(parts@).drop_first().take(i - 1).push(parts@[i as int]@));
            i = i + 1;
        }
        assert(views(parts@).drop_first().take(parts@.len() - 1) =~= views(parts@).drop_first());
        let j = join_with_slash(&rest);
        concat2("/", j.as_str())
    } else {
        join_with_slash(parts)
    }
}

/// The components of the parent of a path with these components: none for
/// the root or an empty path, else all but the last.
pub open spec fn parent_components(cs: Seq<Seq<char>>) -> Option<Seq<Seq<char>>> {
    if cs.len() == 0 || cs.last() == "/"@ { None } else { Some(cs.drop_last()) }
}

/// `Path::parent`, its text in normal form.
pub open spec fn parent_text(p: Seq<char>) -> Option<Seq<char>> {
    match parent_components(components(p)) {
        Some(cs) => Some(render_components(cs)),
        None => None,
    }
}

pub fn path_parent(p: &str) -> (r: Option<String>)
    ensures
        match parent_text(p@) {
            Some(t) => r matches Some(s) && s@ == t,
            None => r is None,
        },
{
    proof { reveal_strlit("/"); }
    let mut cs = path_components(p);
    assert(views(cs@) =~= components(p@));
    let n = cs.len();
    if n == 0 || str_eq(cs[n - 1].as_str(), "/") {
        return None;
    }
    let ghost all = views(cs@);
    cs.pop();
    assert(views(cs@) =~= all.drop_last());
    Some(render_path(&cs))
}

/// `PathBuf::join` of a relative part (on a Unix-style path): an absolute
/// part replaces the base; otherwise a `/` goes between unless the base is
/// empty or ends with one.
pub open spec fn join_text(base: Seq<char>, part: Seq<char>) -> Seq<char> {
    if part.len() > 0 && part[0] == '/' {
        part
    } else if base.len() == 0 {
        part
    } else if base.last() == '/' {
        base + part
    } else {
        base + "/"@ + part
    }
}

pub fn join_path(base: &str, part: &str) -> (r: String)
    ensures
        r@ == join_text(base@, part@),
{
    proof { reveal_strlit("/"); }
    let pc = chars_of(part);
    if pc.len() > 0 && pc[0] == '/' {
        return copy_string(part);
    }
    let bc = chars_of(base);
    if bc.len() == 0 {
        return copy_string(part);
    }
    if bc[bc.len() - 1] == '/' {
        concat2(base, part)
    } else {
        concat3(base, "/", part)
    }
}

/// The directory a task's code package is worked on in.
pub fn code_package_work_dir(task_dir: &str) -> (r: String)
    ensures
        r@ == join_text(task_dir@, "code-repo"@),
{
    join_path(task_dir, "code-repo")
}

/// The AST obfuscation script beside the server's executable.
pub fn resolve_runtime_paths_from_exe(current_exe_path: &str) -> (r: Result<String, String>)
    ensures
        match parent_text(current_exe_path@) {
            Some(dir) => r matches Ok(s) && s@ == join_text(join_text(dir, "scripts"@), "ast_obfuscate.cjs"@),
            None => r matches Err(e) && e@ == "无法解析后端可执行文件所在目录: "@ + current_exe_path@,
        },
{
    match path_parent(current_exe_path) {
        Some(dir) => {
            let scripts = join_path(dir.as_str(), "scripts");
            Ok(join_path(scripts.as_str(), "ast_obfuscate.cjs"))
        },
        None => Err(concat2("无法解析后端可执行文件所在目录: ", current_exe_path)),
    }
}

/// The ancestors of a path (itself excluded), nearest first, in normal form.
pub open spec fn ancestors_of(cs: Seq<Seq<char>>) -> Seq<Seq<char>>
    decreases cs.len(),
{
    match parent_components(cs) {
        Some(p) => seq![render_components(p)] + ancestors_of(p),
        None => Seq::empty(),
    }
}

/// The directories where the build of a code package may sit: the
/// ancestors of its `game.js`, nearest first.
pub fn engine_dir_candidates(target_input_path: &str) -> (r: Vec<String>)
    ensures
        views(r@) == ancestors_of(components(target_input_path@)),
{
    proof { reveal_strlit("/"); }
    let mut cs = path_components(target_input_path);
    let ghost start = views(cs@);
    assert(start =~= components(target_input_path@));
    let mut out: Vec<String> = Vec::new();
    assert(views(out@) + ancestors_of(views(cs@)) =~= ancestors_of(start));
    loop
        invariant
            views(out@) + ancestors_of(views(cs@)) == ancestors_of(start),
            start == components(target_input_path@),
        decreases cs@.len(),
    {
        proof { reveal_strlit("/"); }
        let n = cs.len();
        if n == 0 || str_eq(cs[n - 1].as_str(), "/") {
            assert(parent_components(views(cs@)) is None);
            assert(ancestors_of(views(cs@)) =~= Seq::<Seq<char>>::empty());
            assert(views(out@) + Seq::<Seq<char>>::empty() =~= views(out@));
            assert(views(out@) =~= ancestors_of(start));
            return out;
        }
        let ghost before = views(cs@);
        cs.pop();
        assert(views(cs@) =~= before.drop_last());
        let t = render_path(&cs);
        let ghost out_before = views(out@);
        out.push(t);
        assert(views(out@) =~= out_before.push(render_components(views(cs@))));
        assert(ancestors_of(before) == seq![render_components(views(cs@))] + ancestors_of(views(cs@)));
        assert(views(out@) + ancestors_of(views(cs@)) =~= out_before + ancestors_of(before));
    }
}

/// The build directory of a code package: the nearest ancestor of its
/// `game.js` that holds `cocos-js`, `libs` or `src` (`has_engine_dirs[i]`
/// tells whether candidate `i` does).
pub open spec fn engine_build_dir(target: Seq<char>, has_engine_dirs: Seq<bool>) -> Result<Seq<char>, Seq<char>> {
    let cands = ancestors_of(components(target));
    match crate::state::first_match(Seq::new(cands.len(), |i: int| i < has_engine_dirs.len() && has_engine_dirs[i]), |b: bool| b) {
        Some(i) => Ok(cands[i]),
        None => Err("未找到代码包构建目录，目标 game.js 附近不存在 cocos-js/libs/src: "@ + target),
    }
}

pub fn resolve_engine_build_dir_from_game_js(target_input_path: &str, has_engine_dirs: &Vec<bool>) -> (r: Result<String, String>)
    ensures
        match engine_build_dir(target_input_path@, has_engine_dirs@) {
            Ok(d) => r matches Ok(s) && s@ == d,
            Err(m) => r matches Err(e) && e@ == m,
        },
{
    let cands = engine_dir_candidates(target_input_path);
    let ghost flags = Seq::new(cands@.len(), |i: int| i < has_engine_dirs@.len() && has_engine_dirs@[i]);
    let mut i: usize = 0;
    while i < cands.len()
        invariant
            i <= cands@.len(),
            views(cands@) == ancestors_of(components(target_input_path@)),
            flags == Seq::new(cands@.len(), |i: int| i < has_engine_dirs@.len() && has_engine_dirs@[i]),
            forall|j: int| 0 <= j < i ==> !((|b: bool| b)(#[trigger] flags[j])),
        decreases cands.len() - i,
    {
        if i < has_engine_dirs.len() && has_engine_dirs[i] {
            proof { crate::state::lemma_first_match(flags, |b: bool| b, i as int); }
            assert(views(cands@)[i as int] == cands@[i as int]@);
            return Ok(copy_string(cands[i].as_str()));
        }
        i = i + 1;
    }
    proof { crate::state::lemma_no_match(flags, |b: bool| b); }
    Err(concat2("未找到代码包构建目录，目标 game.js 附近不存在 cocos-js/libs/src: ", target_input_path))
}

/// The `game.js` a code package is obfuscated by: the only match, or an
/// error when there is none or more than one.
pub fn unique_game_js(matches: Vec<String>, code_repo_path: &str) -> (r: Result<String, String>)
    ensures
        matches@.len() == 1 ==> r == Ok::<String, String>(matches@[0]),
        matches@.len() == 0 ==> (r matches Err(e) && e@ == "代码包中未找到唯一匹配的 **/subpackages/main/game.js: "@ + code_repo_path@),
        matches@.len() > 1 ==> (r matches Err(e) && e@ == "代码包中找到多个 **/subpackages/main/game.js，请手动确认目录结构: "@ + code_repo_path@),
{
    let mut matches = matches;
    if matches.len() == 1 {
        Ok(matches.remove(0))
    } else if matches.len() == 0 {
        Err(concat2("代码包中未找到唯一匹配的 **/subpackages/main/game.js: ", code_repo_path))
    } else {
        Err(concat2("代码包中找到多个 **/subpackages/main/game.js，请手动确认目录结构: ", code_repo_path))
    }
}

} // verus!
