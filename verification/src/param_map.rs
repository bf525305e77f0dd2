//! An ordered map from parameter keys to values, kept sorted by key the way
//! `BTreeMap<String, _>` orders its entries.

use vstd::prelude::*;
use crate::json::JsonValue;
use crate::text::chars_of;

verus! {

/// `a < b` in the order `String` compares (code point by code point).
pub open spec fn key_lt(a: Seq<char>, b: Seq<char>) -> bool
    decreases a.len(),
{
    if a.len() == 0 {
        b.len() > 0
    } else if b.len() == 0 {
        false
    } else if a[0] != b[0] {
        a[0] < b[0]
    } else {
        key_lt(a.drop_first(), b.drop_first())
    }
}

pub proof fn lemma_key_lt_irreflexive(a: Seq<char>)
    ensures
        !key_lt(a, a),
    decreases a.len(),
{
    if a.len() > 0 {
        lemma_key_lt_irreflexive(a.drop_first());
    }
}

pub proof fn lemma_key_lt_total(a: Seq<char>, b: Seq<char>)
    ensures
        a != b ==> key_lt(a, b) || key_lt(b, a),
        !(key_lt(a, b) && key_lt(b, a)),
    decreases a.len(),
{
    if a.len() > 0 && b.len() > 0 {
        if a[0] == b[0] {
            lemma_key_lt_total(a.drop_first(), b.drop_first());
            if a != b {
                assert(a.drop_first() != b.drop_first()) by {
                    if a.drop_first() == b.drop_first() {
                        assert(a =~= seq![a[0]] + a.drop_first());
                        assert(b =~= seq![b[0]] + b.drop_first());
                    }
                }
            }
        }
    } else if a.len() == 0 && b.len() == 0 {
        assert(a =~= b);
    }
}

pub proof fn lemma_key_lt_transitive(a: Seq<char>, b: Seq<char>, c: Seq<char>)
    requires
        key_lt(a, b),
        key_lt(b, c),
    ensures
        key_lt(a, c),
    decreases a.len(),
{
    if a.len() > 0 && b.len() > 0 && c.len() > 0 {
        if a[0] == b[0] && b[0] == c[0] {
            lemma_key_lt_transitive(a.drop_first(), b.drop_first(), c.drop_first());
        }
    }
}

/// A key/value entry.
#[derive(Debug, Clone, PartialEq)]
pub struct ParamEntry {
    pub key: String,
    pub value: JsonValue,
}

/// Parameters by key, sorted by key, each key once.
#[derive(Debug, Clone, PartialEq, Default)]
pub struct ParamMap {
    pub entries: Vec<ParamEntry>,
}

/// Entries strictly increasing by key.
pub open spec fn sorted_entries(e: Seq<ParamEntry>) -> bool {
    forall|i: int, j: int| 0 <= i < j < e.len() ==> key_lt(#[trigger] e[i].key@, #[trigger] e[j].key@)
}

/// The index of `k` among the entries, if present.
pub open spec fn index_of_key(e: Seq<ParamEntry>, k: Seq<char>) -> Option<int> {
    if exists|i: int| 0 <= i < e.len() && #[trigger] e[i].key@ == k {
        Some(choose|i: int| 0 <= i < e.len() && #[trigger] e[i].key@ == k)
    } else {
        None
    }
}

/// The value of the first entry with key `k`.
pub open spec fn first_value_in(e: Seq<ParamEntry>, k: Seq<char>) -> Option<JsonValue>
    decreases e.len(),
{
    if e.len() == 0 {
        None
    } else if e[0].key@ == k {
        Some(e[0].value)
    } else {
        first_value_in(e.drop_first(), k)
    }
}

impl ParamMap {
    pub open spec fn wf(&self) -> bool {
        sorted_entries(self.entries@)
    }

    /// The value held for `k`.
    pub open spec fn spec_get(&self, k: Seq<char>) -> Option<JsonValue> {
        match index_of_key(self.entries@, k) {
            Some(i) => Some(self.entries@[i].value),
            None => None,
        }
    }

    /// The map the entries describe.
    pub open spec fn map(&self) -> Map<Seq<char>, JsonValue> {
        Map::new(|k: Seq<char>| self.has_key(k), |k: Seq<char>| self.spec_get(k)->0)
    }

    pub open spec fn has_key(&self, k: Seq<char>) -> bool {
        exists|i: int| 0 <= i < self.entries@.len() && #[trigger] self.entries@[i].key@ == k
    }

    pub fn new() -> (m: ParamMap)
        ensures
            m.wf(),
            m.entries@.len() == 0,
    {
        ParamMap { entries: Vec::new() }
    }

    /// A copy with the same entries.
    pub fn clone_map(&self) -> (m: ParamMap)
        ensures
            m.entries@ == self.entries@,
    {
        let mut entries: Vec<ParamEntry> = Vec::new();
        let mut i: usize = 0;
        while i < self.entries.len()
            invariant
                i <= self.entries@.len(),
                entries@ == self.entries@.take(i as int),
            decreases self.entries.len() - i,
        {
            let e = &self.entries[i];
            entries.push(ParamEntry { key: e.key.clone(), value: e.value.dup() });
            i = i + 1;
            assert(entries@ =~= self.entries@.take(i as int));
        }
        assert(self.entries@.take(self.entries@.len() as int) =~= self.entries@);
        ParamMap { entries }
    }

    pub fn len(&self) -> (n: usize)
        ensures
            n == self.entries@.len(),
    {
        self.entries.len()
    }

    /// Position of `key`, if present.
    pub fn find(&self, key: &str) -> (r: Option<usize>)
        ensures
            r is Some <==> self.has_key(key@),
            r matches Some(i) ==> i < self.entries@.len() && self.entries@[i as int].key@ == key@,
    {
        let mut i: usize = 0;
        while i < self.entries.len()
            invariant
                i <= self.entries@.len(),
                forall|j: int| 0 <= j < i ==> self.entries@[j].key@ != key@,
            decreases self.entries.len() - i,
        {
            if crate::text::str_eq(self.entries[i].key.as_str(), key) {
                return Some(i);
            }
            i = i + 1;
        }
        None
    }

    /// The value of the first entry for `k` (in a well-formed map, the only one).
    pub open spec fn first_value(&self, k: Seq<char>) -> Option<JsonValue> {
        first_value_in(self.entries@, k)
    }

    /// The value of the first entry for `key`.
    pub fn lookup(&self, key: &str) -> (r: Option<&JsonValue>)
        ensures
            match self.first_value(key@) {
                Some(v) => r == Some(&v),
                None => r is None,
            },
    {
        let mut i: usize = 0;
        assert(self.entries@.skip(0) =~= self.entries@);
        while i < self.entries.len()
            invariant
                i <= self.entries@.len(),
                first_value_in(self.entries@, key@) == first_value_in(self.entries@.skip(i as int), key@),
            decreases self.entries.len() - i,
        {
            let ghost rest = self.entries@.skip(i as int);
            assert(rest.drop_first() =~= self.entries@.skip(i + 1));
            if crate::text::str_eq(self.entries[i].key.as_str(), key) {
                return Some(&self.entries[i].value);
            }
            i = i + 1;
        }
        None
    }

    /// The value held for `key`.
    pub fn get(&self, key: &str) -> (r: Option<&JsonValue>)
        requires
            self.wf(),
        ensures
            r is Some <==> self.has_key(key@),
            r matches Some(v) ==> self.spec_get(key@) == Some(*v),
            r is None ==> self.spec_get(key@) is None,
    {
        match self.find(key) {
            Some(i) => {
                proof {
                    self.lemma_unique_index(key@, i as int);
                }
                Some(&self.entries[i].value)
            },
            None => None,
        }
    }

    /// In a sorted map a key sits at one index only.
    pub proof fn lemma_unique_index(&self, k: Seq<char>, i: int)
        requires
            self.wf(),
            0 <= i < self.entries@.len(),
            self.entries@[i].key@ == k,
        ensures
            index_of_key(self.entries@, k) == Some(i),
    {
        let e = self.entries@;
        assert(e[i].key@ == k);
        lemma_key_lt_irreflexive(k);
        assert forall|j: int| 0 <= j < e.len() && #[trigger] e[j].key@ == k implies j == i by {
            if j < i {
                assert(key_lt(e[j].key@, e[i].key@));
            } else if j > i {
                assert(key_lt(e[i].key@, e[j].key@));
            }
        }
        assert(exists|j: int| 0 <= j < e.len() && #[trigger] e[j].key@ == k);
    }

    /// Sets the value for `key`, replacing what was there.
    pub fn insert(&mut self, key: String, value: JsonValue)
        requires
            old(self).wf(),
        ensures
            final(self).wf(),
            final(self).spec_get(key@) == Some(value),
            forall|k: Seq<char>| k != key@ ==> #[trigger] final(self).spec_get(k) == old(self).spec_get(k),
            forall|k: Seq<char>| #[trigger] final(self).has_key(k) <==> (old(self).has_key(k) || k == key@),
            final(self).map() == old(self).map().insert(key@, value),
    {
        let ghost k0 = key@;
        self.insert_entry(key, value);
        proof {
            assert forall|k: Seq<char>| self.has_key(k) implies old(self).has_key(k) || k == k0 by {}
            assert(self.map() =~= old(self).map().insert(k0, value));
        }
    }

    /// Sets the value for `key` (entry form).
    fn insert_entry(&mut self, key: String, value: JsonValue)
        requires
            old(self).wf(),
        ensures
            final(self).wf(),
            final(self).spec_get(key@) == Some(value),
            forall|k: Seq<char>| k != key@ ==> #[trigger] final(self).spec_get(k) == old(self).spec_get(k),
            forall|k: Seq<char>| #[trigger] final(self).has_key(k) <==> (old(self).has_key(k) || k == key@),
    {
        let ghost old_e = self.entries@;
        let kv = chars_of(key.as_str());
        let mut p: usize = 0;
        while p < self.entries.len() && less_than(&chars_of(self.entries[p].key.as_str()), &kv)
            invariant
                p <= self.entries@.len(),
                self.entries@ == old_e,
                kv@ == key@,
                forall|j: int| 0 <= j < p ==> key_lt(#[trigger] old_e[j].key@, key@),
            decreases self.entries.len() - p,
        {
            p = p + 1;
        }
        proof {
            // everything from p on is >= key
            assert forall|j: int| p <= j < old_e.len() implies !key_lt(#[trigger] old_e[j].key@, key@) by {
                if j > p {
                    lemma_key_lt_total(old_e[p as int].key@, key@);
                    if key_lt(old_e[j].key@, key@) {
                        lemma_key_lt_transitive(old_e[p as int].key@, old_e[j].key@, key@);
                    }
                }
            }
        }
        let replace = p < self.entries.len() && crate::text::str_eq(self.entries[p].key.as_str(), key.as_str());
        let ghost new_key = key@;
        if replace {
            self.entries.set(p, ParamEntry { key, value });
            proof {
                let e = self.entries@;
                assert(sorted_entries(e)) by {
                    assert forall|i: int, j: int| 0 <= i < j < e.len() implies key_lt(#[trigger] e[i].key@, #[trigger] e[j].key@) by {
                        assert(key_lt(old_e[i].key@, old_e[j].key@));
                    }
                }
                self.lemma_unique_index(new_key, p as int);
                assert forall|k: Seq<char>| k != new_key implies #[trigger] self.spec_get(k) == old(self).spec_get(k) by {
                    if self.has_key(k) {
                        let i = choose|i: int| 0 <= i < e.len() && #[trigger] e[i].key@ == k;
                        self.lemma_unique_index(k, i);
                        old(self).lemma_unique_index(k, i);
                    } else {
                        assert forall|i: int| 0 <= i < old_e.len() implies #[trigger] old_e[i].key@ != k by {
                            assert(e[i].key@ != k);
                        }
                    }
                }
                assert forall|k: Seq<char>| #[trigger] self.has_key(k) <==> (old(self).has_key(k) || k == new_key) by {
                    if old(self).has_key(k) {
                        let i = choose|i: int| 0 <= i < old_e.len() && #[trigger] old_e[i].key@ == k;
                        if i == p { assert(e[p as int].key@ == new_key); } else { assert(e[i].key@ == k); }
                    }
                    if self.has_key(k) {
                        let i = choose|i: int| 0 <= i < e.len() && #[trigger] e[i].key@ == k;
                        if i != p { assert(old_e[i].key@ == k); }
                    }
                }
            }
        } else {
            self.entries.insert(p, ParamEntry { key, value });
            proof {
                let e = self.entries@;
                assert forall|j: int| p <= j < old_e.len() implies key_lt(key@, #[trigger] old_e[j].key@) by {
                    lemma_key_lt_total(old_e[j].key@, key@);
                    if j > p {
                        lemma_key_lt_total(old_e[p as int].key@, key@);
                        assert(key_lt(old_e[p as int].key@, old_e[j].key@));
                        if key_lt(key@, old_e[p as int].key@) {
                            lemma_key_lt_transitive(key@, old_e[p as int].key@, old_e[j].key@);
                        }
                    }
                }
                assert(sorted_entries(e)) by {
                    assert forall|i: int, j: int| 0 <= i < j < e.len() implies key_lt(#[trigger] e[i].key@, #[trigger] e[j].key@) by {
                        if j < p {
                            assert(key_lt(old_e[i].key@, old_e[j].key@));
                        } else if j == p {
                            assert(e[i] == old_e[i]);
                        } else if i == p {
                            assert(e[j] == old_e[j - 1]);
                        } else if i < p {
                            assert(e[j] == old_e[j - 1]);
                            assert(key_lt(old_e[i].key@, key@));
                            lemma_key_lt_transitive(old_e[i].key@, key@, old_e[j - 1].key@);
                        } else {
                            assert(key_lt(old_e[i - 1].key@, old_e[j - 1].key@));
                        }
                    }
                }
                self.lemma_unique_index(new_key, p as int);
                assert forall|k: Seq<char>| k != new_key implies #[trigger] self.spec_get(k) == old(self).spec_get(k) by {
                    if self.has_key(k) {
                        let i = choose|i: int| 0 <= i < e.len() && #[trigger] e[i].key@ == k;
                        self.lemma_unique_index(k, i);
                        let oi = if i < p { i } else { i - 1 };
                        assert(old_e[oi].key@ == k);
                        old(self).lemma_unique_index(k, oi);
                    } else {
                        assert forall|i: int| 0 <= i < old_e.len() implies #[trigger] old_e[i].key@ != k by {
                            if i < p { assert(e[i] == old_e[i]); } else { assert(e[i + 1] == old_e[i]); }
                        }
                    }
                }
                assert forall|k: Seq<char>| #[trigger] self.has_key(k) <==> (old(self).has_key(k) || k == new_key) by {
                    if old(self).has_key(k) {
                        let i = choose|i: int| 0 <= i < old_e.len() && #[trigger] old_e[i].key@ == k;
                        if i < p { assert(e[i] == old_e[i]); } else { assert(e[i + 1] == old_e[i]); }
                    }
                    if self.has_key(k) {
                        let i = choose|i: int| 0 <= i < e.len() && #[trigger] e[i].key@ == k;
                        if i < p { assert(e[i] == old_e[i]); } else if i > p { assert(e[i] == old_e[i - 1]); }
                    }
                    if k == new_key { assert(e[p as int].key@ == new_key); }
                }
            }
        }
    }
}

/// `a < b` in string order.
pub fn less_than(a: &Vec<char>, b: &Vec<char>) -> (r: bool)
    ensures
        r == key_lt(a@, b@),
{
    let mut i: usize = 0;
    assert(a@.subrange(0, a.len() as int) =~= a@);
    assert(b@.subrange(0, b.len() as int) =~= b@);
    while i < a.len() && i < b.len() && a[i] == b[i]
        invariant
            i <= a.len(),
            i <= b.len(),
            key_lt(a@, b@) == key_lt(a@.subrange(i as int, a.len() as int), b@.subrange(i as int, b.len() as int)),
        decreases a.len() - i,
    {
        proof {
            let sa = a@.subrange(i as int, a.len() as int);
            let sb = b@.subrange(i as int, b.len() as int);
            assert(sa.drop_first() =~= a@.subrange(i + 1, a.len() as int));
            assert(sb.drop_first() =~= b@.subrange(i + 1, b.len() as int));
        }
        i = i + 1;
    }
    if i == a.len() {
        i < b.len()
    } else if i == b.len() {
        false
    } else {
        a[i] < b[i]
    }
}


impl ParamMap {
    /// Whether the entries are sorted by key, each key once.
    pub fn is_wf(&self) -> (r: bool)
        ensures
            r == self.wf(),
    {
        let n = self.entries.len();
        if n == 0 {
            return true;
        }
        let mut i: usize = 1;
        while i < n
            invariant
                1 <= i <= n,
                n == self.entries@.len(),
                forall|a: int, b: int| 0 <= a < b < i ==> key_lt(#[trigger] self.entries@[a].key@, #[trigger] self.entries@[b].key@),
            decreases n - i,
        {
            let ka = crate::text::chars_of(self.entries[i - 1].key.as_str());
            let kb = crate::text::chars_of(self.entries[i].key.as_str());
            if !less_than(&ka, &kb) {
                return false;
            }
            proof {
                assert forall|a: int, b: int| 0 <= a < b < i + 1 implies key_lt(#[trigger] self.entries@[a].key@, #[trigger] self.entries@[b].key@) by {
                    if b == i && a < i - 1 {
                        lemma_key_lt_transitive(self.entries@[a].key@, self.entries@[i - 1].key@, self.entries@[b].key@);
                    }
                }
            }
            i = i + 1;
        }
        true
    }
}

} // verus!
