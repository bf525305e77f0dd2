//! What the server reads from and gives to `git`: branch names, the output
//! of `ls-remote`, `status` and `rev-list`, commit identities and the
//! authorization header.

use vstd::prelude::*;
use crate::models::GitConfig;
use crate::param_map::{ParamMap, key_lt};
use crate::text::{chars_of, concat2, concat3, contains_char, copy_string, from_chars, is_blank, push_char, push_str, str_eq, strip_prefix, trim, trim_end, trim_str, views};

verus! {

/// The lines of a text as `str::lines` gives them: split after each `\n`,
/// the `\n` (and a `\r` just before it) dropped; no empty last line.
pub open spec fn text_lines(s: Seq<char>) -> Seq<Seq<char>> {
    lines_from(s, Seq::empty(), Seq::empty())
}

pub open spec fn strip_cr(l: Seq<char>) -> Seq<char> {
    if l.len() > 0 && l.last() == '\r' { l.drop_last() } else { l }
}

pub open spec fn lines_from(s: Seq<char>, done: Seq<Seq<char>>, cur: Seq<char>) -> Seq<Seq<char>>
    decreases s.len(),
{
    if s.len() == 0 {
        if cur.len() > 0 { done.push(cur) } else { done }
    } else if s[0] == '\n' {
        lines_from(s.drop_first(), done.push(strip_cr(cur)), Seq::empty())
    } else {
        lines_from(s.drop_first(), done, cur.push(s[0]))
    }
}

/// `str::lines`.
pub fn split_lines(s: &str) -> (r: Vec<String>)
    ensures
        views(r@) == text_lines(s@),
{
    let cs = chars_of(s);
    let mut done: Vec<String> = Vec::new();
    let mut cur: Vec<char> = Vec::new();
    let mut i: usize = 0;
    assert(s@.skip(0) =~= s@);
    assert(views(done@) =~= Seq::<Seq<char>>::empty());
    assert(cur@ =~= Seq::<char>::empty());
    while i < cs.len()
        invariant
            i <= cs@.len(),
            cs@ == s@,
            text_lines(s@) == lines_from(s@.skip(i as int), views(done@), cur@),
        decreases cs.len() - i,
    {
        let ghost rest = s@.skip(i as int);
        assert(rest.drop_first() =~= s@.skip(i + 1));
        assert(rest[0] == cs@[i as int]);
        let c = cs[i];
        if c == '\n' {
            let n = cur.len();
            let line = if n > 0 && cur[n - 1] == '\r' {
                let t = crate::text::slice_chars(&cur, 0, n - 1);
                assert(t@ =~= cur@.drop_last());
                from_chars(t.as_slice())
            } else {
                from_chars(cur.as_slice())
            };
            let ghost before = views(done@);
            done.push(line);
            assert(views(done@) =~= before.push(strip_cr(cur@)));
            cur = Vec::new();
        } else {
            cur.push(c);
        }
        i = i + 1;
    }
    assert(s@.skip(cs@.len() as int) =~= Seq::<char>::empty());
    if cur.len() > 0 {
        let ghost before = views(done@);
        done.push(from_chars(cur.as_slice()));
        assert(views(done@) =~= before.push(cur@));
    }
    done
}

/// `s` with every leading `p` removed (`str::trim_start_matches`).
pub open spec fn strip_all_prefix(s: Seq<char>, p: Seq<char>) -> Seq<char>
    decreases s.len(),
{
    if p.len() > 0 && p.is_prefix_of(s) {
        strip_all_prefix(s.skip(p.len() as int), p)
    } else {
        s
    }
}

/// A branch name as given to git: trimmed, every leading `origin/` removed.
pub open spec fn branch_name(s: Seq<char>) -> Seq<char> {
    strip_all_prefix(trim(s), "origin/"@)
}

pub fn normalize_branch_name(branch: &str) -> (r: String)
    ensures
        r@ == branch_name(branch@),
{
    proof { reveal_strlit("origin/"); }
    let mut cur = trim_str(branch);
    loop
        invariant
            branch_name(branch@) == strip_all_prefix(cur@, "origin/"@),
        decreases cur@.len(),
    {
        proof { reveal_strlit("origin/"); }
        match strip_prefix(cur.as_str(), "origin/") {
            Some(rest) => {
                assert(cur@.skip(7) =~= rest@);
                cur = rest;
            },
            None => {
                return cur;
            },
        }
    }
}

/// The branches `git ls-remote --heads` lists: for each line
/// `<sha>\trefs/heads/<branch>`, the branch.
pub open spec fn listed_branch(line: Seq<char>) -> Option<Seq<char>> {
    match first_tab(line) {
        Some(t) => {
            let reference = line.skip(t + 1);
            if "refs/heads/"@.is_prefix_of(reference) { Some(reference.skip(11)) } else { None }
        },
        None => None,
    }
}

pub open spec fn first_tab(line: Seq<char>) -> Option<int> {
    crate::state::first_match(line, |c: char| c == '\t')
}

/// Whether a branch appears on some line.
pub open spec fn branch_listed(lines: Seq<Seq<char>>, b: Seq<char>) -> bool {
    exists|i: int| 0 <= i < lines.len() && listed_branch(#[trigger] lines[i]) == Some(b)
}

fn tab_position(cs: &Vec<char>) -> (r: Option<usize>)
    ensures
        match first_tab(cs@) {
            Some(t) => r == Some(t as usize) && t < cs@.len(),
            None => r is None,
        },
        r matches Some(i) ==> i < cs@.len() && first_tab(cs@) == Some(i as int),
{
    let mut i: usize = 0;
    while i < cs.len()
        invariant
            i <= cs@.len(),
            forall|j: int| 0 <= j < i ==> !((|c: char| c == '\t')(#[trigger] cs@[j])),
        decreases cs.len() - i,
    {
        if cs[i] == '\t' {
            proof { crate::state::lemma_first_match(cs@, |c: char| c == '\t', i as int); }
            return Some(i);
        }
        i = i + 1;
    }
    proof { crate::state::lemma_no_match(cs@, |c: char| c == '\t'); }
    None
}

pub fn parse_listed_branch(line: &str) -> (r: Option<String>)
    ensures
        match listed_branch(line@) {
            Some(b) => r matches Some(s) && s@ == b,
            None => r is None,
        },
{
    proof { reveal_strlit("refs/heads/"); }
    let cs = chars_of(line);
    match tab_position(&cs) {
        Some(t) => {
            let rest = crate::text::slice_chars(&cs, t + 1, cs.len());
            assert(rest@ =~= line@.skip(t + 1));
            let reference = from_chars(rest.as_slice());
            match strip_prefix(reference.as_str(), "refs/heads/") {
                Some(b) => {
                    assert(b@ =~= reference@.skip(11));
                    Some(b)
                },
                None => None,
            }
        },
        None => None,
    }
}

/// The remote branches named in `ls-remote` output: each once, in order.
pub fn list_remote_branches_from(stdout: &str) -> (r: Vec<String>)
    ensures
        forall|i: int, j: int| 0 <= i < j < r@.len() ==> key_lt(#[trigger] r@[i]@, #[trigger] r@[j]@),
        forall|b: Seq<char>| views(r@).contains(b) <==> branch_listed(text_lines(stdout@), b),
{
    let lines = split_lines(stdout);
    let ghost ls = text_lines(stdout@);
    let mut set = ParamMap::new();
    let mut i: usize = 0;
    while i < lines.len()
        invariant
            i <= lines@.len(),
            views(lines@) == ls,
            set.wf(),
            forall|b: Seq<char>| #[trigger] set.has_key(b) <==> exists|j: int| 0 <= j < i && listed_branch(#[trigger] ls[j]) == Some(b),
        decreases lines.len() - i,
    {
        assert(ls[i as int] == lines@[i as int]@);
        match parse_listed_branch(lines[i].as_str()) {
            Some(b) => {
                set.insert(b, crate::json::JsonValue::Null);
            },
            None => {},
        }
        i = i + 1;
    }
    let mut out: Vec<String> = Vec::new();
    let mut k: usize = 0;
    while k < set.entries.len()
        invariant
            k <= set.entries@.len(),
            set.wf(),
            out@.len() == k,
            forall|j: int| 0 <= j < k ==> (#[trigger] out@[j])@ == set.entries@[j].key@,
        decreases set.entries.len() - k,
    {
        out.push(copy_string(set.entries[k].key.as_str()));
        k = k + 1;
    }
    proof {
        assert forall|b: Seq<char>| views(out@).contains(b) <==> branch_listed(ls, b) by {
            if views(out@).contains(b) {
                let j = choose|j: int| 0 <= j < views(out@).len() && views(out@)[j] == b;
                assert(set.entries@[j].key@ == b);
                assert(set.has_key(b));
            }
            if branch_listed(ls, b) {
                assert(set.has_key(b));
                let j = choose|j: int| 0 <= j < set.entries@.len() && #[trigger] set.entries@[j].key@ == b;
                assert(views(out@)[j] == b);
            }
        }
    }
    out
}


/// The lines of UTF-8 text given as bytes, as `str::lines` gives them.
pub open spec fn byte_lines(s: Seq<u8>) -> Seq<Seq<u8>> {
    byte_lines_from(s, Seq::empty(), Seq::empty())
}

pub open spec fn strip_cr_byte(l: Seq<u8>) -> Seq<u8> {
    if l.len() > 0 && l.last() == 13u8 { l.drop_last() } else { l }
}

pub open spec fn byte_lines_from(s: Seq<u8>, done: Seq<Seq<u8>>, cur: Seq<u8>) -> Seq<Seq<u8>>
    decreases s.len(),
{
    if s.len() == 0 {
        if cur.len() > 0 { done.push(cur) } else { done }
    } else if s[0] == 10u8 {
        byte_lines_from(s.drop_first(), done.push(strip_cr_byte(cur)), Seq::empty())
    } else {
        byte_lines_from(s.drop_first(), done, cur.push(s[0]))
    }
}

/// What `git status --porcelain` reports: staged changes, unstaged changes,
/// untracked files.
pub struct WorktreeStatus {
    pub had_staged_changes: bool,
    pub had_unstaged_changes: bool,
    pub had_untracked_files: bool,
}

/// A status line (of two bytes or more) shows a staged change.
pub open spec fn line_staged(l: Seq<u8>) -> bool {
    l.len() >= 2 && l[0] != 32u8 && l[0] != 63u8
}

pub open spec fn line_unstaged(l: Seq<u8>) -> bool {
    l.len() >= 2 && l[1] != 32u8
}

pub open spec fn line_untracked(l: Seq<u8>) -> bool {
    l.len() >= 2 && l[0] == 63u8 && l[1] == 63u8
}

/// The status of a work tree from the bytes of `git status --porcelain`:
/// each flag set when some line shows it.
pub fn collect_worktree_status(stdout: &[u8]) -> (r: WorktreeStatus)
    ensures
        r.had_staged_changes == exists|i: int| 0 <= i < byte_lines(stdout@).len() && line_staged(#[trigger] byte_lines(stdout@)[i]),
        r.had_unstaged_changes == exists|i: int| 0 <= i < byte_lines(stdout@).len() && line_unstaged(#[trigger] byte_lines(stdout@)[i]),
        r.had_untracked_files == exists|i: int| 0 <= i < byte_lines(stdout@).len() && line_untracked(#[trigger] byte_lines(stdout@)[i]),
{
    let ghost ls = byte_lines(stdout@);
    let mut done: Vec<Vec<u8>> = Vec::new();
    let mut cur: Vec<u8> = Vec::new();
    let mut i: usize = 0;
    assert(stdout@.skip(0) =~= stdout@);
    assert(done@.map_values(|v: Vec<u8>| v@) =~= Seq::<Seq<u8>>::empty());
    assert(cur@ =~= Seq::<u8>::empty());
    while i < stdout.len()
        invariant
            i <= stdout@.len(),
            ls == byte_lines(stdout@),
            ls == byte_lines_from(stdout@.skip(i as int), done@.map_values(|v: Vec<u8>| v@), cur@),
        decreases stdout.len() - i,
    {
        let ghost rest = stdout@.skip(i as int);
        assert(rest.drop_first() =~= stdout@.skip(i + 1));
        assert(rest[0] == stdout@[i as int]);
        let b = stdout[i];
        if b == 10u8 {
            let n = cur.len();
            let mut line: Vec<u8> = Vec::new();
            let m = if n > 0 && cur[n - 1] == 13u8 { n - 1 } else { n };
            let mut k: usize = 0;
            while k < m
                invariant
                    k <= m <= n == cur@.len(),
                    line@ == cur@.take(k as int),
                decreases m - k,
            {
                line.push(cur[k]);
                k = k + 1;
                assert(line@ =~= cur@.take(k as int));
            }
            assert(line@ =~= strip_cr_byte(cur@));
            let ghost before = done@.map_values(|v: Vec<u8>| v@);
            done.push(line);
            assert(done@.map_values(|v: Vec<u8>| v@) =~= before.push(strip_cr_byte(cur@)));
            cur = Vec::new();
        } else {
            cur.push(b);
        }
        i = i + 1;
    }
    assert(stdout@.skip(stdout@.len() as int) =~= Seq::<u8>::empty());
    if cur.len() > 0 {
        let ghost before = done@.map_values(|v: Vec<u8>| v@);
        done.push(cur);
        assert(done@.map_values(|v: Vec<u8>| v@) =~= before.push(done@.last()@));
    }
    assert(done@.map_values(|v: Vec<u8>| v@) == ls);
    let mut r = WorktreeStatus { had_staged_changes: false, had_unstaged_changes: false, had_untracked_files: false };
    let mut j: usize = 0;
    while j < done.len()
        invariant
            j <= done@.len(),
            done@.map_values(|v: Vec<u8>| v@) == ls,
            r.had_staged_changes == exists|x: int| 0 <= x < j && line_staged(#[trigger] ls[x]),
            r.had_unstaged_changes == exists|x: int| 0 <= x < j && line_unstaged(#[trigger] ls[x]),
            r.had_untracked_files == exists|x: int| 0 <= x < j && line_untracked(#[trigger] ls[x]),
        decreases done.len() - j,
    {
        let l = &done[j];
        assert(ls[j as int] == l@);
        if l.len() >= 2 {
            let staged = l[0];
            let unstaged = l[1];
            if staged != 32u8 && staged != 63u8 {
                r.had_staged_changes = true;
            }
            if unstaged != 32u8 {
                r.had_unstaged_changes = true;
            }
            if staged == 63u8 && unstaged == 63u8 {
                r.had_untracked_files = true;
            }
        }
        j = j + 1;
    }
    r
}

/// The entries of `git status --porcelain=v1 -uall`: lines with trailing
/// white space removed, empty ones dropped.
pub open spec fn change_entries(lines: Seq<Seq<char>>) -> Seq<Seq<char>>
    decreases lines.len(),
{
    if lines.len() == 0 {
        Seq::empty()
    } else {
        let prev = change_entries(lines.drop_last());
        let t = trim_end(lines.last());
        if t.len() > 0 { prev.push(t) } else { prev }
    }
}

pub fn uncommitted_change_entries_from(stdout: &str) -> (r: Vec<String>)
    ensures
        views(r@) == change_entries(text_lines(stdout@)),
{
    let lines = split_lines(stdout);
    let ghost ls = views(lines@);
    let mut out: Vec<String> = Vec::new();
    let mut i: usize = 0;
    assert(ls.take(0) =~= Seq::<Seq<char>>::empty());
    assert(views(out@) =~= Seq::<Seq<char>>::empty());
    while i < lines.len()
        invariant
            i <= lines@.len(),
            ls == views(lines@),
            views(out@) == change_entries(ls.take(i as int)),
        decreases lines.len() - i,
    {
        assert(ls.take(i + 1).drop_last() =~= ls.take(i as int));
        assert(ls[i as int] == lines@[i as int]@);
        let t = crate::text::trim_end_str(lines[i].as_str());
        if !t.as_str().is_empty() {
            let ghost before = views(out@);
            out.push(t);
            assert(views(out@) =~= before.push(trim_end(ls[i as int])));
        }
        i = i + 1;
    }
    assert(ls.take(ls.len() as int) =~= ls);
    out
}

/// The list of changes shown in an error: at most `limit` entries, each as
/// `  - <entry>`, then how many more there are; one per line.
pub open spec fn status_entries_text(entries: Seq<Seq<char>>, limit: nat) -> Seq<char> {
    let shown = entries.take(if entries.len() < limit { entries.len() as int } else { limit as int }).map_values(|e: Seq<char>| "  - "@ + e);
    let all = if entries.len() > limit {
        shown.push("  - ... 还有 "@ + crate::text::dec((entries.len() - limit) as nat) + " 项未显示"@)
    } else {
        shown
    };
    crate::text::joined(all, "\n"@)
}

pub fn format_status_entries(entries: &Vec<String>, limit: usize) -> (r: String)
    ensures
        r@ == status_entries_text(views(entries@), limit as nat),
{
    let n = if entries.len() < limit { entries.len() } else { limit };
    let mut lines: Vec<String> = Vec::new();
    let mut i: usize = 0;
    while i < n
        invariant
            i <= n,
            n <= entries@.len(),
            n == (if entries@.len() < limit { entries@.len() } else { limit as nat }),
            views(lines@) == views(entries@).take(i as int).map_values(|e: Seq<char>| "  - "@ + e),
        decreases n - i,
    {
        let l = concat2("  - ", entries[i].as_str());
        let ghost before = views(lines@);
        assert(views(entries@)[i as int] == entries@[i as int]@);
        lines.push(l);
        assert(views(lines@) =~= before.push(l@));
        assert(views(entries@).take(i + 1) =~= views(entries@).take(i as int).push(entries@[i as int]@));
        assert(views(lines@) =~= views(entries@).take(i + 1).map_values(|e: Seq<char>| "  - "@ + e));
        i = i + 1;
    }
    let ghost shown = views(lines@);
    if entries.len() > limit {
        let more = crate::text::u64_to_string((entries.len() - limit) as u64);
        let l = concat3("  - ... 还有 ", more.as_str(), " 项未显示");
        lines.push(l);
        assert(views(lines@) =~= shown.push(l@));
    }
    crate::text::join_strings(&lines, "\n")
}


/// The default branch from `git symbolic-ref refs/remotes/origin/HEAD`.
pub open spec fn branch_from_symbolic_ref_spec(out: Seq<char>) -> Option<Seq<char>> {
    let t = trim(out);
    if "refs/remotes/origin/"@.is_prefix_of(t) { Some(t.skip(20)) } else { None }
}

pub fn branch_from_symbolic_ref(stdout: &str) -> (r: Option<String>)
    ensures
        match branch_from_symbolic_ref_spec(stdout@) {
            Some(b) => r matches Some(s) && s@ == b,
            None => r is None,
        },
{
    proof { reveal_strlit("refs/remotes/origin/"); }
    let t = trim_str(stdout);
    match strip_prefix(t.as_str(), "refs/remotes/origin/") {
        Some(b) => {
            assert(b@ =~= t@.skip(20));
            Some(b)
        },
        None => None,
    }
}

/// The default branch from `git rev-parse --abbrev-ref origin/HEAD`.
pub open spec fn branch_from_rev_parse_spec(out: Seq<char>) -> Option<Seq<char>> {
    let t = trim(out);
    if "origin/"@.is_prefix_of(t) { Some(t.skip(7)) } else { None }
}

pub fn branch_from_rev_parse(stdout: &str) -> (r: Option<String>)
    ensures
        match branch_from_rev_parse_spec(stdout@) {
            Some(b) => r matches Some(s) && s@ == b,
            None => r is None,
        },
{
    proof { reveal_strlit("origin/"); }
    let t = trim_str(stdout);
    match strip_prefix(t.as_str(), "origin/") {
        Some(b) => {
            assert(b@ =~= t@.skip(7));
            Some(b)
        },
        None => None,
    }
}

/// A line of `git for-each-ref refs/remotes/origin` that names a branch.
pub open spec fn remote_ref_branch(line: Seq<char>) -> Option<Seq<char>> {
    let t = trim(line);
    if t.len() == 0 || t == "origin/HEAD"@ {
        None
    } else if "origin/"@.is_prefix_of(t) {
        Some(t.skip(7))
    } else {
        None
    }
}

/// The first branch that `for-each-ref` lists.
pub open spec fn first_remote_ref_branch(lines: Seq<Seq<char>>) -> Option<Seq<char>>
    decreases lines.len(),
{
    if lines.len() == 0 {
        None
    } else if remote_ref_branch(lines[0]) is Some {
        remote_ref_branch(lines[0])
    } else {
        first_remote_ref_branch(lines.drop_first())
    }
}

pub fn branch_from_remote_refs(stdout: &str) -> (r: Option<String>)
    ensures
        match first_remote_ref_branch(text_lines(stdout@)) {
            Some(b) => r matches Some(s) && s@ == b,
            None => r is None,
        },
{
    proof { reveal_strlit("origin/"); reveal_strlit("origin/HEAD"); }
    let lines = split_lines(stdout);
    let ghost ls = views(lines@);
    let mut i: usize = 0;
    assert(ls.skip(0) =~= ls);
    while i < lines.len()
        invariant
            i <= lines@.len(),
            ls == views(lines@),
            ls == text_lines(stdout@),
            first_remote_ref_branch(ls) == first_remote_ref_branch(ls.skip(i as int)),
        decreases lines.len() - i,
    {
        proof { reveal_strlit("origin/"); reveal_strlit("origin/HEAD"); }
        let ghost rest = ls.skip(i as int);
        assert(rest.drop_first() =~= ls.skip(i + 1));
        assert(rest[0] == lines@[i as int]@);
        let t = trim_str(lines[i].as_str());
        if !(t.as_str().is_empty() || str_eq(t.as_str(), "origin/HEAD")) {
            match strip_prefix(t.as_str(), "origin/") {
                Some(b) => {
                    assert(b@ =~= t@.skip(7));
                    return Some(b);
                },
                None => {},
            }
        }
        i = i + 1;
    }
    None
}

/// The name a commit is made with when the repository has none: the part
/// of the user name before `@`, the user name, or `cocos-build`.
pub open spec fn identity_name(username: Seq<char>) -> Seq<char> {
    let u = trim(username);
    match crate::state::first_match(u, |c: char| c == '@') {
        Some(k) => u.take(k),
        None => if u.len() > 0 { u } else { "cocos-build"@ },
    }
}

/// The e-mail a commit is made with when the repository has none: the user
/// name when it has `@`, `<user>@local`, or `cocos-build@local`.
pub open spec fn identity_email(username: Seq<char>) -> Seq<char> {
    let u = trim(username);
    if u.contains('@') {
        u
    } else if u.len() > 0 {
        u + "@local"@
    } else {
        "cocos-build@local"@
    }
}

/// Position of the first `ch`.
pub fn find_char(cs: &Vec<char>, ch: char) -> (r: Option<usize>)
    ensures
        r matches Some(i) ==> i < cs@.len() && crate::state::first_match(cs@, |c: char| c == ch) == Some(i as int),
        r is None ==> crate::state::first_match(cs@, |c: char| c == ch) is None,
{
    let mut i: usize = 0;
    while i < cs.len()
        invariant
            i <= cs@.len(),
            forall|j: int| 0 <= j < i ==> !((|c: char| c == ch)(#[trigger] cs@[j])),
        decreases cs.len() - i,
    {
        if cs[i] == ch {
            proof { crate::state::lemma_first_match(cs@, |c: char| c == ch, i as int); }
            return Some(i);
        }
        i = i + 1;
    }
    proof { crate::state::lemma_no_match(cs@, |c: char| c == ch); }
    None
}

pub fn default_commit_identity(git_config: &GitConfig) -> (r: (String, String))
    ensures
        r.0@ == identity_name(git_config.username@),
        r.1@ == identity_email(git_config.username@),
{
    let u = trim_str(git_config.username.as_str());
    let cs = chars_of(u.as_str());
    let at = find_char(&cs, '@');
    let name = match at {
        Some(k) => {
            let t = crate::text::slice_chars(&cs, 0, k);
            assert(t@ =~= u@.take(k as int));
            from_chars(t.as_slice())
        },
        None => {
            if !u.as_str().is_empty() { copy_string(u.as_str()) } else { "cocos-build".to_string() }
        },
    };
    let email = if contains_char(u.as_str(), '@') {
        copy_string(u.as_str())
    } else if !u.as_str().is_empty() {
        concat2(u.as_str(), "@local")
    } else {
        "cocos-build@local".to_string()
    };
    (name, email)
}

/// What `str::parse::<u32>` accepts and gives: an optional `+`, then one or
/// more ASCII digits, whose value fits `u32`.
pub open spec fn parse_u32_spec(s: Seq<char>) -> Option<nat> {
    let ds = if s.len() > 0 && s[0] == '+' { s.skip(1) } else { s };
    if ds.len() == 0 || !crate::text::all_digits(ds) || crate::text::digits_value(ds) > u32::MAX {
        None
    } else {
        Some(crate::text::digits_value(ds))
    }
}

/// `str::parse::<u32>`.
pub fn parse_u32(s: &str) -> (r: Option<u32>)
    ensures
        match parse_u32_spec(s@) {
            Some(v) => r == Some(v as u32),
            None => r is None,
        },
{
    let r = if starts_with_minus(s) { None } else { crate::text::parse_i64(s) };
    let ghost ds = if s@.len() > 0 && s@[0] == '+' { s@.skip(1) } else { s@ };
    proof {
        if !(s@.len() > 0 && s@[0] == '-') {
            assert(crate::text::unsigned_part(s@) == ds);
        }
    }
    match r {
        Some(v) => {
            if v >= 0 && v <= 4294967295 {
                Some(v as u32)
            } else {
                None
            }
        },
        None => None,
    }
}

fn starts_with_minus(s: &str) -> (r: bool)
    ensures
        r == (s@.len() > 0 && s@[0] == '-'),
{
    let cs = chars_of(s);
    cs.len() > 0 && cs[0] == '-'
}

/// Whether `git rev-list --left-right --count @{upstream}...HEAD` reports
/// commits ahead: its second number (0 when missing or unreadable) is above 0.
pub open spec fn ahead_of_upstream(out: Seq<char>) -> bool {
    let ws = crate::cocos::words(out);
    ws.len() >= 2 && match parse_u32_spec(ws[1]) {
        Some(v) => v > 0,
        None => false,
    }
}

pub fn commits_ahead(stdout: &str) -> (r: bool)
    ensures
        r == ahead_of_upstream(stdout@),
{
    let ws = crate::cocos::split_whitespace(stdout);
    if ws.len() < 2 {
        return false;
    }
    assert(views(ws@)[1] == ws@[1]@);
    match parse_u32(ws[1].as_str()) {
        Some(v) => v > 0,
        None => false,
    }
}

/// The arguments of `git push` for the current branch: with `-u` when the
/// branch has no upstream yet.
pub open spec fn push_args_of(branch: Seq<char>, has_upstream: bool) -> Seq<Seq<char>> {
    if has_upstream {
        seq!["push"@, "origin"@, branch]
    } else {
        seq!["push"@, "-u"@, "origin"@, branch]
    }
}

pub fn push_args(branch: &str, has_upstream: bool) -> (r: Vec<String>)
    ensures
        views(r@) == push_args_of(branch@, has_upstream),
{
    let mut r: Vec<String> = Vec::new();
    r.push("push".to_string());
    if !has_upstream {
        r.push("-u".to_string());
    }
    r.push("origin".to_string());
    r.push(copy_string(branch));
    assert(views(r@) =~= push_args_of(branch@, has_upstream));
    r
}

/// The error when a managed work tree has changes that are not committed.
pub open spec fn dirty_worktree_text(dir: Seq<char>, entries: Seq<Seq<char>>) -> Seq<char> {
    "托管工作区 "@ + dir + " 存在未提交改动，可能是构建或准备步骤生成了未提交文件。请提交这些文件或加入 .gitignore 后再打包。\n未提交改动列表:\n"@
        + status_entries_text(entries, 50)
}

/// Checks that a managed work tree has no uncommitted change.
pub fn ensure_clean_worktree(dir: &str, entries: &Vec<String>) -> (r: Result<(), crate::error::AppError>)
    ensures
        crate::error::outcome(r, if entries@.len() == 0 { None } else { Some((crate::error::ErrorKind::Validation, dirty_worktree_text(dir@, views(entries@)))) }),
{
    if entries.len() == 0 {
        return Ok(());
    }
    let listing = format_status_entries(entries, 50);
    let m = concat3("托管工作区 ", dir, " 存在未提交改动，可能是构建或准备步骤生成了未提交文件。请提交这些文件或加入 .gitignore 后再打包。\n未提交改动列表:\n");
    Err(crate::error::AppError::Validation(concat2(m.as_str(), listing.as_str())))
}

/// The character of the standard Base64 alphabet for a value below 64.
pub open spec fn base64_digit(v: nat) -> char {
    if v < 26 {
        (65 + v) as char
    } else if v < 52 {
        (97 + (v - 26)) as char
    } else if v < 62 {
        (48 + (v - 52)) as char
    } else if v == 62 {
        '+'
    } else {
        '/'
    }
}

/// Standard Base64 with `=` padding: each group of three bytes gives four
/// characters of six bits each; a last group of one or two bytes is
/// padded to four characters.
pub open spec fn base64_of(b: Seq<u8>) -> Seq<char>
    decreases b.len(),
{
    if b.len() == 0 {
        Seq::empty()
    } else if b.len() == 1 {
        let x = b[0] as nat;
        seq![base64_digit(x / 4), base64_digit((x % 4) * 16), '=', '=']
    } else if b.len() == 2 {
        let x = b[0] as nat;
        let y = b[1] as nat;
        seq![base64_digit(x / 4), base64_digit((x % 4) * 16 + y / 16), base64_digit((y % 16) * 4), '=']
    } else {
        let x = b[0] as nat;
        let y = b[1] as nat;
        let z = b[2] as nat;
        seq![base64_digit(x / 4), base64_digit((x % 4) * 16 + y / 16), base64_digit((y % 16) * 4 + z / 64), base64_digit(z % 64)]
            + base64_of(b.subrange(3, b.len() as int))
    }
}

/// Calls `base64::engine::general_purpose::STANDARD.encode` on the UTF-8
/// bytes of the text. Claimed: the standard alphabet with `=` padding
/// (`base64_of`) applied to those bytes.
#[verifier::external_body]
fn base64_standard(input: &str) -> (r: String)
    ensures
        r@ == base64_of(vstd::utf8::encode_utf8(input@)),
{
    base64::Engine::encode(&base64::engine::general_purpose::STANDARD, input)
}

/// The header line for basic authorization, given the encoded credentials.
pub fn basic_auth_header(encoded: &str) -> (r: String)
    ensures
        r@ == "AUTHORIZATION: Basic "@ + encoded@,
{
    concat2("AUTHORIZATION: Basic ", encoded)
}

/// Whether a URL is fetched over HTTP(S).
pub open spec fn is_http_url(url: Seq<char>) -> bool {
    "http://"@.is_prefix_of(url) || "https://"@.is_prefix_of(url)
}

/// The authorization header git is given for a URL: only for HTTP(S) URLs
/// and a non-empty user name; the credentials `user:password` in Base64.
pub fn build_auth_header(git_url: &str, git_config: &GitConfig) -> (r: Option<String>)
    ensures
        (git_config.username@.len() == 0 || !is_http_url(git_url@)) ==> r is None,
        (git_config.username@.len() > 0 && is_http_url(git_url@)) ==> (r matches Some(h)
            && h@ == "AUTHORIZATION: Basic "@ + base64_of(vstd::utf8::encode_utf8(git_config.username@ + ":"@ + git_config.password@))),
{
    if git_config.username.as_str().is_empty() {
        return None;
    }
    if !(crate::text::starts_with(git_url, "http://") || crate::text::starts_with(git_url, "https://")) {
        return None;
    }
    let raw = concat3(git_config.username.as_str(), ":", git_config.password.as_str());
    let encoded = base64_standard(raw.as_str());
    Some(basic_auth_header(encoded.as_str()))
}


/// How a branch is readied for a build.
#[derive(Debug, Clone, Copy, PartialEq, Eq, Structural)]
pub enum BranchStep {
    /// The branch exists on the remote: check it out from there.
    CheckoutRemote,
    /// It exists only locally: check it out and push it.
    CheckoutLocalAndPush,
    /// It exists nowhere: create it from the current branch and push it.
    CreateFromCurrent,
    /// It exists nowhere: check out the base branch from the remote (which
    /// must exist there), create it from that and push it.
    CreateFromRemoteBase,
}

pub open spec fn branch_step_of(remote_exists: bool, local_exists: bool, force_base_from_remote: bool) -> BranchStep {
    if remote_exists {
        BranchStep::CheckoutRemote
    } else if local_exists {
        BranchStep::CheckoutLocalAndPush
    } else if force_base_from_remote {
        BranchStep::CreateFromRemoteBase
    } else {
        BranchStep::CreateFromCurrent
    }
}

pub fn branch_step(remote_exists: bool, local_exists: bool, force_base_from_remote: bool) -> (r: BranchStep)
    ensures
        r == branch_step_of(remote_exists, local_exists, force_base_from_remote),
{
    if remote_exists {
        BranchStep::CheckoutRemote
    } else if local_exists {
        BranchStep::CheckoutLocalAndPush
    } else if force_base_from_remote {
        BranchStep::CreateFromRemoteBase
    } else {
        BranchStep::CreateFromCurrent
    }
}

/// The error when the base branch is missing on the remote.
pub fn missing_base_branch(source_branch: &str) -> (r: crate::error::AppError)
    ensures
        r.kind() == crate::error::ErrorKind::NotFound,
        r.spec_message() == "远端不存在基线分支 "@ + source_branch@,
{
    crate::error::AppError::NotFound(concat2("远端不存在基线分支 ", source_branch))
}

/// What cleaning a worktree found and threw away.
#[derive(Debug, Clone, PartialEq)]
pub struct UnstagedCleanupResult {
    pub had_staged_changes: bool,
    pub had_unstaged_changes: bool,
    pub had_untracked_files: bool,
}

/// What readying a branch did.
#[derive(Debug, Clone, PartialEq)]
pub struct BranchPrepareResult {
    pub previous_branch: String,
    pub branch: String,
    pub source_branch: String,
    pub remote_exists: bool,
    pub created: bool,
    pub pushed: bool,
}

/// The record of a readied branch: for a branch taken as it was, its source
/// is itself; a created one has the base as source; all but one taken from
/// the remote are pushed.
pub fn branch_prepare_result(previous_branch: String, target_branch: &str, base_branch: &str, step: BranchStep) -> (r: BranchPrepareResult)
    ensures
        r.previous_branch == previous_branch,
        r.branch@ == target_branch@,
        r.source_branch@ == (match step {
            BranchStep::CheckoutRemote | BranchStep::CheckoutLocalAndPush => target_branch@,
            _ => base_branch@,
        }),
        r.remote_exists == (step == BranchStep::CheckoutRemote),
        r.created == (step == BranchStep::CreateFromCurrent || step == BranchStep::CreateFromRemoteBase),
        r.pushed == (step != BranchStep::CheckoutRemote),
{
    let source = match step {
        BranchStep::CheckoutRemote | BranchStep::CheckoutLocalAndPush => copy_string(target_branch),
        _ => copy_string(base_branch),
    };
    BranchPrepareResult {
        previous_branch,
        branch: copy_string(target_branch),
        source_branch: source,
        remote_exists: step == BranchStep::CheckoutRemote,
        created: step == BranchStep::CreateFromCurrent || step == BranchStep::CreateFromRemoteBase,
        pushed: step != BranchStep::CheckoutRemote,
    }
}

/// What committing and pushing a repository did.
#[derive(Debug, Clone, PartialEq)]
pub struct CommitPushResult {
    pub branch: String,
    pub had_changes: bool,
    pub discarded_changes: bool,
    pub commit_sha: Option<String>,
    pub had_unpushed_commits: bool,
    pub pushed: bool,
}

/// The record of the changes of a repository after a build: changes are
/// either discarded or committed; what is not on the remote is pushed.
pub fn commit_push_result(branch: String, had_changes: bool, discard_changes: bool, commit_sha: Option<String>, had_unpushed_commits: bool) -> (r: CommitPushResult)
    ensures
        r.branch == branch,
        r.had_changes == had_changes,
        r.discarded_changes == (discard_changes && had_changes),
        r.commit_sha == commit_sha,
        r.had_unpushed_commits == had_unpushed_commits,
        r.pushed == had_unpushed_commits,
{
    CommitPushResult {
        branch,
        had_changes,
        discarded_changes: discard_changes && had_changes,
        commit_sha,
        had_unpushed_commits,
        pushed: had_unpushed_commits,
    }
}


/// A branch that exists on the remote is always checked out from there,
/// whatever is found locally and however the base is chosen; one found only
/// locally is checked out and pushed; a missing one is created, from the
/// remote base only when that is asked for.
pub proof fn law_branch_step(remote_exists: bool, local_exists: bool, force_base_from_remote: bool)
    ensures
        remote_exists ==> branch_step_of(remote_exists, local_exists, force_base_from_remote) == BranchStep::CheckoutRemote,
        !remote_exists && local_exists ==> branch_step_of(remote_exists, local_exists, force_base_from_remote) == BranchStep::CheckoutLocalAndPush,
        !remote_exists && !local_exists && force_base_from_remote ==> branch_step_of(remote_exists, local_exists, force_base_from_remote) == BranchStep::CreateFromRemoteBase,
        !remote_exists && !local_exists && !force_base_from_remote ==> branch_step_of(remote_exists, local_exists, force_base_from_remote) == BranchStep::CreateFromCurrent,
{
}

} // verus!
