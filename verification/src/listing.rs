//! The order in which records with a text key are listed: by the key,
//! ascending or descending, records with equal keys in the order they came
//! (as a stable sort leaves them). Logs are listed newest first by creation
//! time, prep projects newest first, exported files by path.

use vstd::prelude::*;
use crate::param_map::{key_lt, lemma_key_lt_irreflexive, lemma_key_lt_transitive, less_than};
use crate::text::{chars_of, views};

verus! {

/// Key `a` is listed before key `b`: it is smaller (ascending) or larger
/// (descending).
pub open spec fn text_precedes(a: Seq<char>, b: Seq<char>, descending: bool) -> bool {
    if descending { key_lt(b, a) } else { key_lt(a, b) }
}

proof fn lemma_precedes_irreflexive(a: Seq<char>, descending: bool)
    ensures
        !text_precedes(a, a, descending),
{
    lemma_key_lt_irreflexive(a);
}

proof fn lemma_precedes_transitive(a: Seq<char>, b: Seq<char>, c: Seq<char>, descending: bool)
    requires
        text_precedes(a, b, descending),
        text_precedes(b, c, descending),
    ensures
        text_precedes(a, c, descending),
{
    if descending {
        lemma_key_lt_transitive(c, b, a);
    } else {
        lemma_key_lt_transitive(a, b, c);
    }
}

/// `order` lists each of the indices below `n` once, by key, equal keys in
/// index order.
pub open spec fn lists_by_text(keys: Seq<Seq<char>>, descending: bool, order: Seq<usize>, n: nat) -> bool {
    &&& order.len() == n
    &&& forall|i: int| 0 <= i < order.len() ==> #[trigger] order[i] < n
    &&& forall|i: int, j: int| 0 <= i < j < order.len() ==> #[trigger] order[i] != #[trigger] order[j]
    &&& forall|i: int, j: int| 0 <= i < j < order.len() ==>
        !text_precedes(keys[#[trigger] order[j] as int], keys[#[trigger] order[i] as int], descending)
    &&& forall|i: int, j: int| 0 <= i < j < order.len() && keys[#[trigger] order[i] as int] == keys[#[trigger] order[j] as int] ==>
        order[i] < order[j]
}

/// Putting index `k` at position `p`, after every listed index whose key it
/// does not precede and before the first one whose key it precedes, lists
/// the indices below `k + 1`.
proof fn lemma_insert_keeps_listing(keys: Seq<Seq<char>>, descending: bool, order: Seq<usize>, p: int, k: usize)
    requires
        lists_by_text(keys, descending, order, k as nat),
        k < keys.len(),
        0 <= p <= order.len(),
        forall|q: int| 0 <= q < p ==> !text_precedes(keys[k as int], keys[#[trigger] order[q] as int], descending),
        p < order.len() ==> text_precedes(keys[k as int], keys[order[p] as int], descending),
    ensures
        lists_by_text(keys, descending, order.insert(p, k), (k + 1) as nat),
{
    let next = order.insert(p, k);
    assert forall|i: int, j: int| 0 <= i < j < next.len() implies
        !text_precedes(keys[#[trigger] next[j] as int], keys[#[trigger] next[i] as int], descending) by {
        if i == p {
            let m = j - 1;
            assert(next[j] == order[m]);
            if text_precedes(keys[order[m] as int], keys[k as int], descending) {
                lemma_precedes_transitive(keys[order[m] as int], keys[k as int], keys[order[p] as int], descending);
                if m == p {
                    lemma_precedes_irreflexive(keys[order[p] as int], descending);
                }
            }
        } else if j == p {
            assert(next[i] == order[i]);
        } else {
            let a = if i < p { i } else { i - 1 };
            let b = if j < p { j } else { j - 1 };
            assert(next[i] == order[a] && next[j] == order[b] && a < b);
        }
    }
    assert forall|i: int, j: int| 0 <= i < j < next.len() && keys[#[trigger] next[i] as int] == keys[#[trigger] next[j] as int] implies
        next[i] < next[j] by {
        if i == p {
            let m = j - 1;
            assert(next[j] == order[m]);
            if m == p {
                lemma_precedes_irreflexive(keys[k as int], descending);
            } else {
                assert(!text_precedes(keys[order[m] as int], keys[order[p] as int], descending));
            }
        } else if j == p {
            assert(next[i] == order[i]);
        } else {
            let a = if i < p { i } else { i - 1 };
            let b = if j < p { j } else { j - 1 };
            assert(next[i] == order[a] && next[j] == order[b] && a < b);
        }
    }
    assert forall|i: int, j: int| 0 <= i < j < next.len() implies #[trigger] next[i] != #[trigger] next[j] by {
        if i != p && j != p {
            let a = if i < p { i } else { i - 1 };
            let b = if j < p { j } else { j - 1 };
            assert(next[i] == order[a] && next[j] == order[b] && a < b);
        } else if i == p {
            assert(next[j] == order[j - 1]);
        } else {
            assert(next[i] == order[i]);
        }
    }
    assert forall|i: int| 0 <= i < next.len() implies #[trigger] next[i] < k + 1 by {
        if i < p {
            assert(next[i] == order[i]);
        } else if i > p {
            assert(next[i] == order[i - 1]);
        }
    }
}

fn precedes(a: &Vec<char>, b: &Vec<char>, descending: bool) -> (r: bool)
    ensures
        r == text_precedes(a@, b@, descending),
{
    if descending { less_than(b, a) } else { less_than(a, b) }
}

/// The order in which to list records by their keys: each index once, by
/// key (ascending, or `descending`), records with equal keys in the order
/// they came.
pub fn order_by_text(keys: &Vec<String>, descending: bool) -> (order: Vec<usize>)
    ensures
        lists_by_text(views(keys@), descending, order@, keys@.len()),
{
    let ghost ks = views(keys@);
    let mut chars: Vec<Vec<char>> = Vec::new();
    let mut c: usize = 0;
    while c < keys.len()
        invariant
            c <= keys@.len(),
            ks == views(keys@),
            chars@.len() == c,
            forall|i: int| 0 <= i < c ==> (#[trigger] chars@[i])@ == ks[i],
        decreases keys.len() - c,
    {
        chars.push(chars_of(keys[c].as_str()));
        c = c + 1;
    }
    let mut order: Vec<usize> = Vec::new();
    let mut k: usize = 0;
    while k < keys.len()
        invariant
            k <= keys@.len(),
            ks == views(keys@),
            chars@.len() == keys@.len(),
            forall|i: int| 0 <= i < chars@.len() ==> (#[trigger] chars@[i])@ == ks[i],
            lists_by_text(ks, descending, order@, k as nat),
        decreases keys.len() - k,
    {
        let mut p: usize = 0;
        loop
            invariant
                p <= order@.len(),
                k < keys@.len(),
                chars@.len() == keys@.len(),
                forall|i: int| 0 <= i < chars@.len() ==> (#[trigger] chars@[i])@ == ks[i],
                lists_by_text(ks, descending, order@, k as nat),
                forall|q: int| 0 <= q < p ==> !text_precedes(ks[k as int], ks[#[trigger] order@[q] as int], descending),
            ensures
                p <= order@.len(),
                forall|q: int| 0 <= q < p ==> !text_precedes(ks[k as int], ks[#[trigger] order@[q] as int], descending),
                p < order@.len() ==> text_precedes(ks[k as int], ks[order@[p as int] as int], descending),
            decreases order@.len() - p,
        {
            if p == order.len() {
                break;
            }
            let at = order[p];
            if precedes(&chars[k], &chars[at], descending) {
                break;
            }
            p = p + 1;
        }
        proof { lemma_insert_keeps_listing(ks, descending, order@, p as int, k); }
        order.insert(p, k);
        k = k + 1;
    }
    order
}

} // verus!
