//! Tasks and task groups in their display order: a stable sort by the
//! `order` field, the listing of groups, and the reordering of a group's
//! tasks.

use vstd::prelude::*;
use vstd::multiset::Multiset;
use crate::copies::{same_group, same_task};
use crate::error::{AppError, ErrorKind, Problem, outcome};
use crate::ids::IdCounter;
use crate::models::{AppSettings, PackageTask, PackageTaskReorderRequest, TaskGroup};
use crate::params::{contains_string, has_duplicate, has_duplicate_strings};
use crate::state::{AppCore, first_match, group_matches, lemma_first_match, task_matches};
use crate::tasks::{group_task_ids, saved_tasks};
use crate::text::{concat2, str_eq, trim, trim_str, views};

verus! {

/// `s` with `x` put after every element whose key is at most `x`'s, the
/// others (all at the end) after it.
pub open spec fn insert_by_key<T>(s: Seq<T>, x: T, key: spec_fn(T) -> u32) -> Seq<T>
    decreases s.len(),
{
    if s.len() == 0 {
        seq![x]
    } else if key(s.last()) <= key(x) {
        s.push(x)
    } else {
        insert_by_key(s.drop_last(), x, key).push(s.last())
    }
}

/// The elements of `s` in order of their keys, equal keys keeping their
/// order (a stable insertion sort).
pub open spec fn sorted_by_key<T>(s: Seq<T>, key: spec_fn(T) -> u32) -> Seq<T>
    decreases s.len(),
{
    if s.len() == 0 {
        s
    } else {
        insert_by_key(sorted_by_key(s.drop_last(), key), s.last(), key)
    }
}

/// Inserting at the place after the last element with a key at most `x`'s.
proof fn lemma_insert_at<T>(s: Seq<T>, x: T, key: spec_fn(T) -> u32, p: int)
    requires
        0 <= p <= s.len(),
        p == 0 || key(s[p - 1]) <= key(x),
        forall|q: int| p <= q < s.len() ==> key(#[trigger] s[q]) > key(x),
    ensures
        insert_by_key(s, x, key) == s.take(p).push(x) + s.skip(p),
    decreases s.len(),
{
    if s.len() == 0 {
        assert(s.take(p).push(x) + s.skip(p) =~= seq![x]);
    } else if key(s.last()) <= key(x) {
        assert(p == s.len());
        assert(s.take(p).push(x) + s.skip(p) =~= s.push(x));
    } else {
        let d = s.drop_last();
        assert forall|q: int| p <= q < d.len() implies key(#[trigger] d[q]) > key(x) by {
            assert(d[q] == s[q]);
        }
        if p > 0 {
            assert(d[p - 1] == s[p - 1]);
        }
        lemma_insert_at(d, x, key, p);
        assert(insert_by_key(s, x, key) == insert_by_key(d, x, key).push(s.last()));
        assert((d.take(p).push(x) + d.skip(p)).push(s.last()) =~= s.take(p).push(x) + s.skip(p));
    }
}

/// Sorting related sequences gives related sequences: where two sequences
/// hold, place by place, related elements with equal keys, so do their
/// sorted forms.
proof fn lemma_insert_related<T>(a: Seq<T>, b: Seq<T>, x: T, y: T, key: spec_fn(T) -> u32, rel: spec_fn(T, T) -> bool)
    requires
        a.len() == b.len(),
        forall|i: int| 0 <= i < a.len() ==> key(#[trigger] a[i]) == key(b[i]) && rel(a[i], b[i]),
        key(x) == key(y),
        rel(x, y),
    ensures
        insert_by_key(a, x, key).len() == insert_by_key(b, y, key).len(),
        forall|i: int| 0 <= i < insert_by_key(a, x, key).len() ==>
            key(#[trigger] insert_by_key(a, x, key)[i]) == key(insert_by_key(b, y, key)[i])
            && rel(insert_by_key(a, x, key)[i], insert_by_key(b, y, key)[i]),
    decreases a.len(),
{
    if a.len() > 0 && key(a.last()) > key(x) {
        assert(key(b.last()) == key(a.last()));
        lemma_insert_related(a.drop_last(), b.drop_last(), x, y, key, rel);
        let ia = insert_by_key(a.drop_last(), x, key);
        let ib = insert_by_key(b.drop_last(), y, key);
        assert forall|i: int| 0 <= i < ia.len() + 1 implies
            key(#[trigger] ia.push(a.last())[i]) == key(ib.push(b.last())[i]) && rel(ia.push(a.last())[i], ib.push(b.last())[i]) by {
            if i < ia.len() {
                assert(ia.push(a.last())[i] == ia[i]);
                assert(ib.push(b.last())[i] == ib[i]);
            }
        }
    } else if a.len() > 0 {
        assert(key(b.last()) == key(a.last()));
    }
}

pub proof fn lemma_sorted_related<T>(a: Seq<T>, b: Seq<T>, key: spec_fn(T) -> u32, rel: spec_fn(T, T) -> bool)
    requires
        a.len() == b.len(),
        forall|i: int| 0 <= i < a.len() ==> key(#[trigger] a[i]) == key(b[i]) && rel(a[i], b[i]),
    ensures
        sorted_by_key(a, key).len() == sorted_by_key(b, key).len(),
        forall|i: int| 0 <= i < sorted_by_key(a, key).len() ==>
            key(#[trigger] sorted_by_key(a, key)[i]) == key(sorted_by_key(b, key)[i])
            && rel(sorted_by_key(a, key)[i], sorted_by_key(b, key)[i]),
    decreases a.len(),
{
    if a.len() > 0 {
        let da = a.drop_last();
        let db = b.drop_last();
        assert forall|i: int| 0 <= i < da.len() implies key(#[trigger] da[i]) == key(db[i]) && rel(da[i], db[i]) by {
            assert(da[i] == a[i]);
            assert(db[i] == b[i]);
        }
        lemma_sorted_related(da, db, key, rel);
        lemma_insert_related(sorted_by_key(da, key), sorted_by_key(db, key), a.last(), b.last(), key, rel);
    }
}

proof fn lemma_insert_len<T>(s: Seq<T>, x: T, key: spec_fn(T) -> u32)
    ensures
        insert_by_key(s, x, key).len() == s.len() + 1,
    decreases s.len(),
{
    if s.len() > 0 && key(s.last()) > key(x) {
        lemma_insert_len(s.drop_last(), x, key);
    }
}

/// Sorting keeps the length.
pub proof fn lemma_sorted_len<T>(s: Seq<T>, key: spec_fn(T) -> u32)
    ensures
        sorted_by_key(s, key).len() == s.len(),
    decreases s.len(),
{
    if s.len() > 0 {
        lemma_sorted_len(s.drop_last(), key);
        lemma_insert_len(sorted_by_key(s.drop_last(), key), s.last(), key);
    }
}

proof fn lemma_insert_bound<T>(s: Seq<T>, x: T, key: spec_fn(T) -> u32, b: u32)
    requires
        forall|i: int| 0 <= i < s.len() ==> key(#[trigger] s[i]) <= b,
        key(x) <= b,
    ensures
        forall|i: int| 0 <= i < insert_by_key(s, x, key).len() ==> key(#[trigger] insert_by_key(s, x, key)[i]) <= b,
    decreases s.len(),
{
    if s.len() > 0 && key(s.last()) > key(x) {
        let d = s.drop_last();
        assert forall|i: int| 0 <= i < d.len() implies key(#[trigger] d[i]) <= b by {
            assert(d[i] == s[i]);
        }
        lemma_insert_bound(d, x, key, b);
        let r = insert_by_key(d, x, key);
        assert forall|i: int| 0 <= i < r.push(s.last()).len() implies key(#[trigger] r.push(s.last())[i]) <= b by {
            if i < r.len() {
                assert(r.push(s.last())[i] == r[i]);
            }
        }
    }
}

pub open spec fn ordered_by<T>(s: Seq<T>, key: spec_fn(T) -> u32) -> bool {
    forall|i: int, j: int| 0 <= i <= j < s.len() ==> key(#[trigger] s[i]) <= key(#[trigger] s[j])
}

proof fn lemma_insert_ordered<T>(s: Seq<T>, x: T, key: spec_fn(T) -> u32)
    requires
        ordered_by(s, key),
    ensures
        ordered_by(insert_by_key(s, x, key), key),
        insert_by_key(s, x, key).to_multiset() == s.to_multiset().insert(x),
    decreases s.len(),
{
    vstd::seq_lib::to_multiset_build(s, x);
    if s.len() == 0 {
        assert(s.push(x) =~= seq![x]);
    } else if key(s.last()) <= key(x) {
        assert(ordered_by(s.push(x), key)) by {
            assert forall|i: int, j: int| 0 <= i <= j < s.push(x).len() implies key(#[trigger] s.push(x)[i]) <= key(#[trigger] s.push(x)[j]) by {
                if j == s.len() && i < s.len() {
                    assert(key(s[i]) <= key(s[s.len() - 1]));
                }
            }
        }
    } else {
        let d = s.drop_last();
        assert(ordered_by(d, key)) by {
            assert forall|i: int, j: int| 0 <= i <= j < d.len() implies key(#[trigger] d[i]) <= key(#[trigger] d[j]) by {
                assert(d[i] == s[i] && d[j] == s[j]);
            }
        }
        lemma_insert_ordered(d, x, key);
        let r = insert_by_key(d, x, key);
        assert forall|i: int| 0 <= i < d.len() implies key(#[trigger] d[i]) <= key(s.last()) by {
            assert(d[i] == s[i]);
        }
        lemma_insert_bound(d, x, key, key(s.last()));
        assert(ordered_by(r.push(s.last()), key)) by {
            assert forall|i: int, j: int| 0 <= i <= j < r.push(s.last()).len() implies
                key(#[trigger] r.push(s.last())[i]) <= key(#[trigger] r.push(s.last())[j]) by {
                if j < r.len() {
                    assert(r.push(s.last())[i] == r[i] && r.push(s.last())[j] == r[j]);
                } else if i < r.len() {
                    assert(r.push(s.last())[i] == r[i]);
                }
            }
        }
        vstd::seq_lib::to_multiset_build(r, s.last());
        vstd::seq_lib::to_multiset_build(d, s.last());
        assert(d.push(s.last()) =~= s);
        assert(s.to_multiset().insert(x) =~= d.to_multiset().insert(x).insert(s.last()));
    }
}

/// Sorting by a key gives the same elements, each key no greater than the
/// keys after it.
pub proof fn law_sorted_by_key<T>(s: Seq<T>, key: spec_fn(T) -> u32)
    ensures
        ordered_by(sorted_by_key(s, key), key),
        sorted_by_key(s, key).to_multiset() == s.to_multiset(),
    decreases s.len(),
{
    if s.len() == 0 {
        assert(ordered_by(s, key));
    } else {
        let d = s.drop_last();
        law_sorted_by_key(d, key);
        lemma_insert_ordered(sorted_by_key(d, key), s.last(), key);
        vstd::seq_lib::to_multiset_build(d, s.last());
        assert(d.push(s.last()) =~= s);
    }
}

pub open spec fn task_order() -> spec_fn(PackageTask) -> u32 {
    |t: PackageTask| t.order
}

pub open spec fn group_order() -> spec_fn(TaskGroup) -> u32 {
    |g: TaskGroup| g.order
}

/// Tasks in order of their `order`, equal ones keeping their order.
pub fn sort_tasks_by_order(v: Vec<PackageTask>) -> (r: Vec<PackageTask>)
    ensures
        r@ == sorted_by_key(v@, task_order()),
{
    let ghost orig = v@;
    let total = v.len();
    let mut rest = v;
    let mut out: Vec<PackageTask> = Vec::new();
    let mut k: usize = 0;
    while rest.len() > 0
        invariant
            k + rest@.len() == orig.len(),
            orig.len() == total,
            rest@ == orig.skip(k as int),
            out@ == sorted_by_key(orig.take(k as int), task_order()),
        decreases rest@.len(),
    {
        let t = rest.remove(0);
        assert(orig.take(k + 1).drop_last() =~= orig.take(k as int));
        assert(orig.take(k + 1).last() == t);
        let mut p = out.len();
        while p > 0 && out[p - 1].order > t.order
            invariant
                p <= out@.len(),
                forall|q: int| p <= q < out@.len() ==> task_order()(#[trigger] out@[q]) > task_order()(t),
            decreases p,
        {
            p = p - 1;
        }
        proof { lemma_insert_at(out@, t, task_order(), p as int); }
        let ghost before = out@;
        out.insert(p, t);
        assert(out@ =~= before.take(p as int).push(t) + before.skip(p as int));
        k = k + 1;
        assert(rest@ =~= orig.skip(k as int));
    }
    assert(orig.take(orig.len() as int) =~= orig);
    out
}

/// Task groups in order of their `order`, equal ones keeping their order.
pub fn sort_groups_by_order(v: Vec<TaskGroup>) -> (r: Vec<TaskGroup>)
    ensures
        r@ == sorted_by_key(v@, group_order()),
{
    let ghost orig = v@;
    let total = v.len();
    let mut rest = v;
    let mut out: Vec<TaskGroup> = Vec::new();
    let mut k: usize = 0;
    while rest.len() > 0
        invariant
            k + rest@.len() == orig.len(),
            orig.len() == total,
            rest@ == orig.skip(k as int),
            out@ == sorted_by_key(orig.take(k as int), group_order()),
        decreases rest@.len(),
    {
        let g = rest.remove(0);
        assert(orig.take(k + 1).drop_last() =~= orig.take(k as int));
        assert(orig.take(k + 1).last() == g);
        let mut p = out.len();
        while p > 0 && out[p - 1].order > g.order
            invariant
                p <= out@.len(),
                forall|q: int| p <= q < out@.len() ==> group_order()(#[trigger] out@[q]) > group_order()(g),
            decreases p,
        {
            p = p - 1;
        }
        proof { lemma_insert_at(out@, g, group_order(), p as int); }
        let ghost before = out@;
        out.insert(p, g);
        assert(out@ =~= before.take(p as int).push(g) + before.skip(p as int));
        k = k + 1;
        assert(rest@ =~= orig.skip(k as int));
    }
    assert(orig.take(orig.len() as int) =~= orig);
    out
}

/// The task groups as they are listed: in order of their `order`.
pub fn list_task_groups(groups: &Vec<TaskGroup>) -> (r: Vec<TaskGroup>)
    ensures
        r@.len() == groups@.len(),
        forall|i: int| 0 <= i < r@.len() ==> same_group(#[trigger] r@[i], sorted_by_key(groups@, group_order())[i]),
{
    let copies = crate::copies::dup_groups(groups);
    proof {
        lemma_sorted_related(copies@, groups@, group_order(), |a: TaskGroup, b: TaskGroup| same_group(a, b));
        lemma_sorted_len(groups@, group_order());
    }
    sort_groups_by_order(copies)
}

/// What is wrong with a request to reorder a group's tasks, if anything:
/// the group must exist, and the list must hold each task of the group
/// exactly once and nothing else.
pub open spec fn reorder_problem(s: AppSettings, req: PackageTaskReorderRequest) -> Option<Problem> {
    let ids = views(req.task_ids@);
    let members = group_task_ids(s.package_tasks@, req.task_group_id@);
    if first_match(s.task_groups@, group_matches(trim(req.task_group_id@))) is None {
        Some((ErrorKind::NotFound, "未找到任务组 "@ + trim(req.task_group_id@)))
    } else if has_duplicate(ids)
        || !(forall|k: int| 0 <= k < ids.len() ==> members.contains(#[trigger] ids[k]))
        || !(forall|k: int| 0 <= k < members.len() ==> ids.contains(#[trigger] members[k])) {
        Some((ErrorKind::Validation, "排序列表必须且只能包含任务组内的全部任务"@))
    } else {
        None
    }
}

/// The position of `x` in `ids`, when it is there.
pub open spec fn position_in(ids: Seq<Seq<char>>, x: Seq<char>) -> int {
    choose|k: int| 0 <= k < ids.len() && ids[k] == x
}

/// The task at `j` after reordering: the first task with an id in the list
/// takes the id's position in the list as its order.
#[verifier::opaque]
pub open spec fn reordered_at(ts: Seq<PackageTask>, ids: Seq<Seq<char>>, j: int) -> PackageTask {
    if first_match(ts, task_matches(ts[j].id@)) == Some(j) && ids.contains(ts[j].id@) {
        PackageTask { order: position_in(ids, ts[j].id@) as u32, ..ts[j] }
    } else {
        ts[j]
    }
}

pub open spec fn reordered(ts: Seq<PackageTask>, ids: Seq<Seq<char>>) -> Seq<PackageTask> {
    Seq::new(ts.len(), |j: int| reordered_at(ts, ids, j))
}

/// The tasks of group `gid`, in order.
pub open spec fn tasks_of_group(ts: Seq<PackageTask>, gid: Seq<char>) -> Seq<PackageTask>
    decreases ts.len(),
{
    if ts.len() == 0 {
        ts
    } else {
        let prev = tasks_of_group(ts.drop_last(), gid);
        if ts.last().task_group_id@ == gid { prev.push(ts.last()) } else { prev }
    }
}

fn copy_group_tasks(tasks: &Vec<PackageTask>, group_id: &str) -> (r: Vec<PackageTask>)
    ensures
        r@.len() == tasks_of_group(tasks@, group_id@).len(),
        forall|i: int| 0 <= i < r@.len() ==> same_task(#[trigger] r@[i], tasks_of_group(tasks@, group_id@)[i]),
{
    let mut out: Vec<PackageTask> = Vec::new();
    let mut i: usize = 0;
    while i < tasks.len()
        invariant
            i <= tasks@.len(),
            out@.len() == tasks_of_group(tasks@.take(i as int), group_id@).len(),
            forall|q: int| 0 <= q < out@.len() ==> same_task(#[trigger] out@[q], tasks_of_group(tasks@.take(i as int), group_id@)[q]),
        decreases tasks.len() - i,
    {
        assert(tasks@.take(i + 1).drop_last() =~= tasks@.take(i as int));
        if str_eq(tasks[i].task_group_id.as_str(), group_id) {
            let ghost before = out@;
            out.push(tasks[i].dup());
            assert forall|q: int| 0 <= q < out@.len() implies same_task(#[trigger] out@[q], tasks_of_group(tasks@.take(i + 1), group_id@)[q]) by {
                if q < before.len() {
                    assert(out@[q] == before[q]);
                }
            }
        }
        i = i + 1;
    }
    assert(tasks@.take(tasks@.len() as int) =~= tasks@);
    out
}

proof fn lemma_ids_unique_position(ids: Seq<Seq<char>>, k: int)
    requires
        !has_duplicate(ids),
        0 <= k < ids.len(),
    ensures
        position_in(ids, ids[k]) == k,
{
    let p = position_in(ids, ids[k]);
    assert(0 <= p < ids.len() && ids[p] == ids[k]);
    if p < k {
        assert(ids[p] == ids[k]);
    } else if p > k {
        assert(ids[k] == ids[p]);
    }
}

/// Every string of `xs` is in `ys`.
fn all_contained(xs: &Vec<String>, ys: &Vec<String>) -> (r: bool)
    ensures
        r == forall|q: int| 0 <= q < xs@.len() ==> views(ys@).contains(#[trigger] views(xs@)[q]),
{
    let mut k: usize = 0;
    while k < xs.len()
        invariant
            k <= xs@.len(),
            forall|q: int| 0 <= q < k ==> views(ys@).contains(#[trigger] views(xs@)[q]),
        decreases xs.len() - k,
    {
        if !contains_string(ys, xs[k].as_str()) {
            assert(!views(ys@).contains(views(xs@)[k as int]));
            return false;
        }
        k = k + 1;
    }
    true
}

proof fn lemma_still_listed(ts: Seq<PackageTask>, now: Seq<PackageTask>, x: Seq<char>)
    requires
        crate::runtime::has_task(ts, x),
        now.len() == ts.len(),
        forall|j: int| 0 <= j < ts.len() ==> (#[trigger] now[j]).id == ts[j].id,
    ensures
        crate::runtime::has_task(now, x),
{
    let j = choose|j: int| 0 <= j < ts.len() && #[trigger] ts[j].id@ == x;
    assert(now[j].id == ts[j].id);
}

proof fn lemma_members_listed(ts: Seq<PackageTask>, gid: Seq<char>)
    ensures
        forall|x: Seq<char>| #[trigger] group_task_ids(ts, gid).contains(x) ==> exists|j: int| 0 <= j < ts.len() && ts[j].id@ == x,
    decreases ts.len(),
{
    if ts.len() > 0 {
        let d = ts.drop_last();
        lemma_members_listed(d, gid);
        assert forall|x: Seq<char>| #[trigger] group_task_ids(ts, gid).contains(x) implies exists|j: int| 0 <= j < ts.len() && ts[j].id@ == x by {
            let m = group_task_ids(ts, gid);
            let q = choose|q: int| 0 <= q < m.len() && m[q] == x;
            if ts.last().task_group_id@ == gid && q == m.len() - 1 {
                assert(ts[ts.len() - 1].id@ == x);
            } else {
                assert(group_task_ids(d, gid).contains(x)) by {
                    assert(group_task_ids(d, gid)[q] == x);
                }
                let j = choose|j: int| 0 <= j < d.len() && d[j].id@ == x;
                assert(ts[j] == d[j]);
            }
        }
    }
}

proof fn lemma_reorder_step(ts: Seq<PackageTask>, pre: Seq<PackageTask>, post: Seq<PackageTask>, ids: Seq<Seq<char>>, k: int, i: int)
    requires
        0 <= k < ids.len(),
        !has_duplicate(ids),
        pre.len() == ts.len(),
        forall|j: int| 0 <= j < ts.len() ==> (#[trigger] pre[j]).id == ts[j].id,
        forall|j: int| 0 <= j < ts.len() ==> #[trigger] pre[j] == reordered_at(ts, ids.take(k), j),
        0 <= i < pre.len(),
        pre[i].id@ == ids[k],
        forall|j: int| 0 <= j < i ==> pre[j].id@ != ids[k],
        post == pre.update(i, PackageTask { order: k as u32, ..pre[i] }),
    ensures
        forall|j: int| 0 <= j < ts.len() ==> (#[trigger] post[j]).id == ts[j].id,
        forall|j: int| 0 <= j < ts.len() ==> #[trigger] post[j] == reordered_at(ts, ids.take(k + 1), j),
{
    reveal(reordered_at);
    let a = ids.take(k);
    let b = ids.take(k + 1);
    assert forall|x: int, y: int| 0 <= x < y < a.len() implies a[x] != a[y] by {
        assert(a[x] == ids[x] && a[y] == ids[y]);
    }
    assert forall|x: int, y: int| 0 <= x < y < b.len() implies b[x] != b[y] by {
        assert(b[x] == ids[x] && b[y] == ids[y]);
    }
    assert(!a.contains(ids[k])) by {
        if a.contains(ids[k]) {
            let q = choose|q: int| 0 <= q < a.len() && a[q] == ids[k];
            assert(ids[q] == ids[k]);
        }
    }
    assert forall|j: int| 0 <= j < i implies ts[j].id@ != ids[k] by {
        assert(pre[j].id == ts[j].id);
    }
    lemma_first_match(ts, task_matches(ids[k]), i);
    assert(b[k] == ids[k]);
    lemma_ids_unique_position(b, k);
    assert forall|j: int| 0 <= j < ts.len() implies #[trigger] post[j] == reordered_at(ts, b, j) by {
        let id = ts[j].id@;
        if j == i {
            assert(pre[i] == ts[i]);
        } else {
            assert(post[j] == pre[j]);
            if first_match(ts, task_matches(id)) == Some(j) && b.contains(id) {
                let q = choose|q: int| 0 <= q < b.len() && b[q] == id;
                if q == k {
                    assert(first_match(ts, task_matches(ids[k])) == Some(j));
                } else {
                    assert(a[q] == id);
                    assert(a.contains(id));
                    lemma_ids_unique_position(a, q);
                    lemma_ids_unique_position(b, q);
                }
            } else if first_match(ts, task_matches(id)) == Some(j) && a.contains(id) {
                let q = choose|q: int| 0 <= q < a.len() && a[q] == id;
                assert(b[q] == id);
            }
        }
    }
}

/// Gives the first task with each listed id the id's position as its order.
fn assign_orders(tasks: &mut Vec<PackageTask>, task_ids: &Vec<String>, Ghost(ts): Ghost<Seq<PackageTask>>)
    requires
        old(tasks)@ == ts,
        !has_duplicate(views(task_ids@)),
        forall|q: int| 0 <= q < task_ids@.len() ==> crate::runtime::has_task(ts, #[trigger] views(task_ids@)[q]),
    ensures
        final(tasks)@ == reordered(ts, views(task_ids@)),
{
    let ghost ids = views(task_ids@);
    proof {
        reveal(reordered_at);
        assert forall|j: int| 0 <= j < ts.len() implies #[trigger] tasks@[j] == reordered_at(ts, ids.take(0), j) by {
            assert(!ids.take(0).contains(ts[j].id@));
        }
    }
    let mut k: usize = 0;
    while k < task_ids.len()
        invariant
            k <= ids.len(),
            ids == views(task_ids@),
            !has_duplicate(ids),
            forall|q: int| 0 <= q < ids.len() ==> crate::runtime::has_task(ts, #[trigger] ids[q]),
            tasks@.len() == ts.len(),
            forall|j: int| 0 <= j < ts.len() ==> (#[trigger] tasks@[j]).id == ts[j].id,
            forall|j: int| 0 <= j < ts.len() ==> #[trigger] tasks@[j] == reordered_at(ts, ids.take(k as int), j),
        decreases task_ids.len() - k,
    {
        proof { lemma_still_listed(ts, tasks@, ids[k as int]); }
        let i = match crate::runtime::find_task_index(tasks, task_ids[k].as_str()) {
            Some(i) => i,
            None => {
                return;
            },
        };
        let ghost pre = tasks@;
        let mut t = tasks.remove(i);
        t.order = k as u32;
        tasks.insert(i, t);
        assert(tasks@ =~= pre.update(i as int, t));
        assert(t == (PackageTask { order: k as u32, ..pre[i as int] }));
        proof { lemma_reorder_step(ts, pre, tasks@, ids, k as int, i as int); }
        k = k + 1;
    }
    assert(ids.take(ids.len() as int) =~= ids);
    assert(tasks@ =~= reordered(ts, ids));
}

impl AppCore {
    /// Reorders a group's tasks: each task of the list (the first with its
    /// id) takes its position in the list as its order; the settings are
    /// saved and the group's tasks are given back in their new order.
    /// Nothing changes on an error.
    pub fn reorder_tasks(&mut self, request: &PackageTaskReorderRequest, counter: &mut IdCounter) -> (r: Result<Vec<PackageTask>, AppError>)
        ensures
            outcome(r, reorder_problem(old(self).settings, *request)),
            r is Err ==> *final(self) == *old(self),
            r matches Ok(v) ==> {
                let next = reordered(old(self).settings.package_tasks@, views(request.task_ids@));
                let want = sorted_by_key(tasks_of_group(next, request.task_group_id@), task_order());
                &&& saved_tasks(*old(self), *final(self), next)
                &&& v@.len() == want.len()
                &&& forall|i: int| 0 <= i < v@.len() ==> same_task(#[trigger] v@[i], want[i])
            },
    {
        let gid = trim_str(request.task_group_id.as_str());
        self.find_task_group(gid.as_str())?;
        let ghost ts = self.settings.package_tasks@;
        let ghost ids = views(request.task_ids@);
        let ghost members = group_task_ids(ts, request.task_group_id@);
        let members_v = self.group_task_id_list(request.task_group_id.as_str());
        let ok = !has_duplicate_strings(&request.task_ids)
            && all_contained(&request.task_ids, &members_v)
            && all_contained(&members_v, &request.task_ids);
        if !ok {
            return Err(AppError::Validation("排序列表必须且只能包含任务组内的全部任务".to_string()));
        }
        let ghost before = *self;
        let (rest, mut tasks) = self.take_tasks();
        proof {
            lemma_members_listed(ts, request.task_group_id@);
            assert forall|q: int| 0 <= q < ids.len() implies crate::runtime::has_task(ts, #[trigger] ids[q]) by {
                assert(members.contains(ids[q]));
            }
        }
        assign_orders(&mut tasks, &request.task_ids, Ghost(ts));
        let group_tasks = copy_group_tasks(&tasks, request.task_group_id.as_str());
        let sorted = sort_tasks_by_order(group_tasks);
        proof {
            lemma_sorted_related(group_tasks@, tasks_of_group(tasks@, request.task_group_id@), task_order(), |a: PackageTask, b: PackageTask| same_task(a, b));
            lemma_sorted_len(group_tasks@, task_order());
        }
        self.save_with_tasks(rest, tasks, counter);
        assert(saved_tasks(before, *self, reordered(ts, ids)));
        Ok(sorted)
    }

    /// The ids of a group's tasks, in order.
    pub fn group_task_id_list(&self, group_id: &str) -> (r: Vec<String>)
        ensures
            views(r@) == group_task_ids(self.settings.package_tasks@, group_id@),
    {
        let ghost ts = self.settings.package_tasks@;
        let mut out: Vec<String> = Vec::new();
        let mut i: usize = 0;
        while i < self.settings.package_tasks.len()
            invariant
                i <= ts.len(),
                ts == self.settings.package_tasks@,
                views(out@) == group_task_ids(ts.take(i as int), group_id@),
            decreases self.settings.package_tasks.len() - i,
        {
            assert(ts.take(i + 1).drop_last() =~= ts.take(i as int));
            let t = &self.settings.package_tasks[i];
            if str_eq(t.task_group_id.as_str(), group_id) {
                let ghost b = out@;
                out.push(crate::text::copy_string(t.id.as_str()));
                assert(views(out@) =~= views(b).push(t.id@));
            }
            i = i + 1;
        }
        assert(ts.take(ts.len() as int) =~= ts);
        out
    }
}

} // verus!
