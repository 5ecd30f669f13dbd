//! The task-data store: a mapping from text keys to dynamically typed
//! values, scoped to one workflow run.
//!
//! The store is modeled as a mathematical map from byte sequences (the keys,
//! validated text) to tagged values. Keys are unique; setting an existing key
//! overwrites its value and reports that a previous value existed; reading
//! never creates a key.

use vstd::prelude::*;

use crate::text::copy_bytes;

verus! {

/// The mathematical model of a stored value: one tagged scalar.
pub enum ValueModel {
    Int64(i64),
    Text(Seq<u8>),
}

/// A dynamically typed value held in the task-data store. Only the 64-bit
/// integer variant is exercised by the boundary today, but a read of a key
/// holding another variant must be representable: it reads as absent.
pub enum TaskValue {
    Int64(i64),
    Text(Vec<u8>),
}

impl View for TaskValue {
    type V = ValueModel;

    open spec fn view(&self) -> ValueModel {
        match self {
            TaskValue::Int64(v) => ValueModel::Int64(*v),
            TaskValue::Text(t) => ValueModel::Text(t@),
        }
    }
}

/// The integer a read of key `k` yields from store model `m`: the value when
/// `k` is present and integer-typed, absent otherwise. No distinction is
/// surfaced between a key never set and a key set with a different type.
pub open spec fn i64_of(m: Map<Seq<u8>, ValueModel>, k: Seq<u8>) -> Option<i64> {
    if m.contains_key(k) {
        match m[k] {
            ValueModel::Int64(v) => Some(v),
            _ => None,
        }
    } else {
        None
    }
}

/// Law: setting a key to an integer and then reading that key yields exactly
/// that integer. Holds for every store, key and value.
pub proof fn lemma_set_then_get(m: Map<Seq<u8>, ValueModel>, k: Seq<u8>, v: i64)
    ensures
        i64_of(m.insert(k, ValueModel::Int64(v)), k) == Some(v),
{
}

/// Law: deleting a key that was never set leaves the store as it was, and a
/// later read of that key still finds nothing.
pub proof fn lemma_delete_unset(m: Map<Seq<u8>, ValueModel>, k: Seq<u8>)
    requires
        !m.contains_key(k),
    ensures
        m.remove(k) == m,
        i64_of(m, k) == None::<i64>,
{
    assert(m.remove(k) =~= m);
}

/// Law: setting a key and then deleting it leaves nothing for a read of that
/// key to find.
pub proof fn lemma_set_then_delete_then_get(m: Map<Seq<u8>, ValueModel>, k: Seq<u8>, v: i64)
    ensures
        i64_of(m.insert(k, ValueModel::Int64(v)).remove(k), k) == None::<i64>,
{
}

/// Law: setting a key that already holds a value reports that a previous
/// value existed — `set` reports exactly `contains_key` — and a read after
/// an overwrite sees only the newer value.
pub proof fn lemma_overwrite(m: Map<Seq<u8>, ValueModel>, k: Seq<u8>, v1: i64, v2: i64)
    ensures
        m.insert(k, ValueModel::Int64(v1)).contains_key(k),
        i64_of(m.insert(k, ValueModel::Int64(v1)).insert(k, ValueModel::Int64(v2)), k) == Some(
            v2,
        ),
{
}

struct Entry {
    key: Vec<u8>,
    value: TaskValue,
}

/// True when no two entries of `s` share a key.
spec fn keys_unique(s: Seq<Entry>) -> bool {
    forall|i: int, j: int|
        0 <= i < j < s.len() ==> (#[trigger] s[i]).key@ != (#[trigger] s[j]).key@
}

/// True when some entry of `s` has key `k`.
spec fn has_key(s: Seq<Entry>, k: Seq<u8>) -> bool {
    exists|i: int| 0 <= i < s.len() && (#[trigger] s[i]).key@ == k
}

/// The index of the entry of `s` with key `k`, when one exists.
spec fn idx_of(s: Seq<Entry>, k: Seq<u8>) -> int {
    choose|i: int| 0 <= i < s.len() && (#[trigger] s[i]).key@ == k
}

/// The map an entry sequence denotes.
spec fn map_of(s: Seq<Entry>) -> Map<Seq<u8>, ValueModel> {
    Map::new(|k: Seq<u8>| has_key(s, k), |k: Seq<u8>| s[idx_of(s, k)].value@)
}

/// The task-data store for one run.
pub struct State {
    entries: Vec<Entry>,
}

impl View for State {
    type V = Map<Seq<u8>, ValueModel>;

    closed spec fn view(&self) -> Map<Seq<u8>, ValueModel> {
        map_of(self.entries@)
    }
}

proof fn lemma_at_index(s: Seq<Entry>, i: int)
    requires
        keys_unique(s),
        0 <= i < s.len(),
    ensures
        map_of(s).contains_key(s[i].key@),
        map_of(s)[s[i].key@] == s[i].value@,
{
    let k = s[i].key@;
    assert(has_key(s, k));
    let j = idx_of(s, k);
    assert(0 <= j < s.len() && s[j].key@ == k);
    assert(j == i);
}

proof fn lemma_absent(s: Seq<Entry>, k: Seq<u8>)
    requires
        forall|i: int| 0 <= i < s.len() ==> (#[trigger] s[i]).key@ != k,
    ensures
        !map_of(s).contains_key(k),
{
}

/// Removing the entry at `i` removes exactly its key from the denoted map.
proof fn lemma_remove_at(s: Seq<Entry>, i: int)
    requires
        keys_unique(s),
        0 <= i < s.len(),
    ensures
        keys_unique(s.remove(i)),
        !has_key(s.remove(i), s[i].key@),
        map_of(s.remove(i)) == map_of(s).remove(s[i].key@),
{
    let k0 = s[i].key@;
    let s2 = s.remove(i);
    s.remove_ensures(i);
    assert forall|a: int, b: int| 0 <= a < b < s2.len() implies (#[trigger] s2[a]).key@ != (
    #[trigger] s2[b]).key@ by {
        let a0 = if a < i { a } else { a + 1 };
        let b0 = if b < i { b } else { b + 1 };
        assert(s2[a] == s[a0] && s2[b] == s[b0]);
    }
    assert forall|j: int| 0 <= j < s2.len() implies (#[trigger] s2[j]).key@ != k0 by {
        let j0 = if j < i { j } else { j + 1 };
        assert(s2[j] == s[j0] && j0 != i);
    }
    assert forall|k: Seq<u8>| #[trigger] has_key(s2, k) implies has_key(s, k) && k != k0 by {
        let j = choose|j: int| 0 <= j < s2.len() && (#[trigger] s2[j]).key@ == k;
        let j0 = if j < i { j } else { j + 1 };
        assert(s2[j] == s[j0]);
        assert(s[j0].key@ == k);
    }
    assert forall|k: Seq<u8>| has_key(s, k) && k != k0 implies #[trigger] has_key(s2, k) by {
        let j = choose|j: int| 0 <= j < s.len() && (#[trigger] s[j]).key@ == k;
        let j2 = if j < i { j } else { j - 1 };
        assert(j != i);
        assert(s2[j2] == s[j]);
    }
    assert forall|k: Seq<u8>| has_key(s2, k) implies map_of(s2)[k] == map_of(s)[k] by {
        let j2 = idx_of(s2, k);
        assert(0 <= j2 < s2.len() && s2[j2].key@ == k);
        let j0 = if j2 < i { j2 } else { j2 + 1 };
        assert(s2[j2] == s[j0]);
        let j = idx_of(s, k);
        assert(has_key(s, k));
        assert(0 <= j < s.len() && s[j].key@ == k);
        assert(j == j0);
        assert(map_of(s2)[k] == s2[j2].value@);
        assert(map_of(s)[k] == s[j].value@);
    }
    assert(map_of(s2) =~= map_of(s).remove(k0));
}

/// Appending an entry whose key is absent adds exactly that binding.
proof fn lemma_push(s: Seq<Entry>, e: Entry)
    requires
        keys_unique(s),
        !has_key(s, e.key@),
    ensures
        keys_unique(s.push(e)),
        map_of(s.push(e)) == map_of(s).insert(e.key@, e.value@),
{
    let s2 = s.push(e);
    let n = s.len() as int;
    assert forall|i: int| 0 <= i < s.len() implies (#[trigger] s[i]).key@ != e.key@ by {
        if s[i].key@ == e.key@ {
            assert(has_key(s, e.key@));
        }
    }
    assert forall|a: int, b: int| 0 <= a < b < s2.len() implies (#[trigger] s2[a]).key@ != (
    #[trigger] s2[b]).key@ by {
        assert(s2[a] == s[a]);
        if b < n {
            assert(s2[b] == s[b]);
        } else {
            assert(s2[b] == e);
        }
    }
    assert forall|k: Seq<u8>| #[trigger] has_key(s2, k) implies has_key(s, k) || k == e.key@ by {
        let j = choose|j: int| 0 <= j < s2.len() && (#[trigger] s2[j]).key@ == k;
        if j < n {
            assert(s2[j] == s[j]);
        } else {
            assert(s2[j] == e);
        }
    }
    assert forall|k: Seq<u8>| has_key(s, k) implies #[trigger] has_key(s2, k) by {
        let j = choose|j: int| 0 <= j < s.len() && (#[trigger] s[j]).key@ == k;
        assert(s2[j] == s[j]);
    }
    assert(s2[n] == e);
    assert(has_key(s2, e.key@));
    assert forall|k: Seq<u8>| has_key(s2, k) && k != e.key@ implies map_of(s2)[k] == map_of(s)[k] by {
        let j2 = idx_of(s2, k);
        assert(0 <= j2 < s2.len() && s2[j2].key@ == k);
        assert(j2 < n);
        assert(s2[j2] == s[j2]);
        let j = idx_of(s, k);
        assert(has_key(s, k));
        assert(0 <= j < s.len() && s[j].key@ == k);
        assert(j == j2);
    }
    assert(map_of(s2)[e.key@] == s2[idx_of(s2, e.key@)].value@);
    assert(s2[idx_of(s2, e.key@)].key@ == e.key@);
    assert forall|j: int| 0 <= j < s2.len() && s2[j].key@ == e.key@ implies j == n by {
        if j < n {
            assert(s2[j] == s[j]);
            assert(has_key(s, e.key@));
        }
    }
    assert(map_of(s2)[e.key@] == e.value@);
    assert(map_of(s2) =~= map_of(s).insert(e.key@, e.value@));
}

/// Compares two byte vectors for equality of contents.
fn bytes_eq(a: &Vec<u8>, b: &Vec<u8>) -> (r: bool)
    ensures
        r == (a@ == b@),
{
    if a.len() != b.len() {
        proof {
            assert(a@.len() != b@.len());
        }
        return false;
    }
    let n: usize = a.len();
    let mut i: usize = 0;
    while i < n
        invariant
            i <= n,
            n == a@.len(),
            n == b@.len(),
            forall|j: int| 0 <= j < i ==> a@[j] == b@[j],
        decreases n - i,
    {
        if a[i] != b[i] {
            return false;
        }
        i = i + 1;
    }
    proof {
        assert(a@ =~= b@);
    }
    true
}

impl State {
    #[verifier::type_invariant]
    spec fn wf(&self) -> bool {
        keys_unique(self.entries@)
    }

    /// An empty store.
    pub fn new() -> (s: State)
        ensures
            s@ == Map::<Seq<u8>, ValueModel>::empty(),
    {
        let s = State { entries: Vec::new() };
        proof {
            assert forall|k: Seq<u8>| !has_key(s.entries@, k) by {}
            assert(map_of(s.entries@) =~= Map::<Seq<u8>, ValueModel>::empty());
        }
        s
    }

    /// The index of the entry holding `key`, when one exists.
    fn find(&self, key: &Vec<u8>) -> (r: Option<usize>)
        ensures
            r matches Some(i) ==> i < self.entries@.len() && self.entries@[i as int].key@ == key@,
            r is None ==> forall|j: int|
                0 <= j < self.entries@.len() ==> (#[trigger] self.entries@[j]).key@ != key@,
    {
        let n: usize = self.entries.len();
        let mut i: usize = 0;
        while i < n
            invariant
                i <= n,
                n == self.entries@.len(),
                forall|j: int| 0 <= j < i ==> (#[trigger] self.entries@[j]).key@ != key@,
            decreases n - i,
        {
            if bytes_eq(&self.entries[i].key, key) {
                return Some(i);
            }
            i = i + 1;
        }
        None
    }

    /// Inserts `value` under `key`, overwriting any existing entry of any
    /// type, and reports whether a previous value existed.
    pub fn set(&mut self, key: &Vec<u8>, value: TaskValue) -> (existed: bool)
        ensures
            final(self)@ == old(self)@.insert(key@, value@),
            existed == old(self)@.contains_key(key@),
    {
        proof {
            use_type_invariant(&*self);
        }
        let ghost vm = value@;
        let found = self.find(key);
        let mut entries: Vec<Entry> = Vec::new();
        core::mem::swap(&mut entries, &mut self.entries);
        let ghost s0 = entries@;
        let existed: bool = match found {
            Some(i) => {
                proof {
                    lemma_at_index(s0, i as int);
                    lemma_remove_at(s0, i as int);
                }
                entries.remove(i);
                true
            },
            None => {
                proof {
                    lemma_absent(s0, key@);
                }
                false
            },
        };
        let ghost s1 = entries@;
        let e = Entry { key: copy_bytes(key), value };
        proof {
            assert(!has_key(s1, key@)) by {
                if !existed && has_key(s1, key@) {
                    let j = choose|j: int|
                        0 <= j < s1.len() && (#[trigger] s1[j]).key@ == key@;
                    assert(s1[j].key@ != key@);
                }
            }
            assert(e.key@ == key@ && e.value@ == vm);
            lemma_push(s1, e);
            assert(map_of(s1.push(e)) == map_of(s1).insert(key@, vm));
        }
        entries.push(e);
        proof {
            if existed {
                assert(map_of(s1) == map_of(s0).remove(key@));
                assert(map_of(entries@) =~= map_of(s0).insert(key@, vm));
            } else {
                assert(map_of(entries@) == map_of(s0).insert(key@, vm));
            }
        }
        self.entries = entries;
        existed
    }

    /// Inserts `value` as a 64-bit-integer-typed entry under `key`, and
    /// reports whether a previous value existed, independent of its type.
    pub fn set_i64(&mut self, key: &Vec<u8>, value: i64) -> (existed: bool)
        ensures
            final(self)@ == old(self)@.insert(key@, ValueModel::Int64(value)),
            existed == old(self)@.contains_key(key@),
    {
        self.set(key, TaskValue::Int64(value))
    }

    /// Reads the integer stored under `key`: the value when the key is
    /// present and integer-typed, absent otherwise. The store is not
    /// changed; no key is created by a read.
    pub fn get_i64(&self, key: &Vec<u8>) -> (r: Option<i64>)
        ensures
            r == i64_of(self@, key@),
    {
        proof {
            use_type_invariant(self);
        }
        match self.find(key) {
            Some(i) => {
                proof {
                    lemma_at_index(self.entries@, i as int);
                }
                match &self.entries[i].value {
                    TaskValue::Int64(v) => Some(*v),
                    _ => None,
                }
            },
            None => {
                proof {
                    lemma_absent(self.entries@, key@);
                }
                None
            },
        }
    }

    /// Removes the entry under `key` and returns the removed value when one
    /// was present, absent otherwise.
    pub fn delete(&mut self, key: &Vec<u8>) -> (r: Option<TaskValue>)
        ensures
            final(self)@ == old(self)@.remove(key@),
            r is Some <==> old(self)@.contains_key(key@),
            r matches Some(v) ==> old(self)@.contains_key(key@) && v@ == old(self)@[key@],
    {
        proof {
            use_type_invariant(&*self);
        }
        match self.find(key) {
            Some(i) => {
                let mut entries: Vec<Entry> = Vec::new();
                core::mem::swap(&mut entries, &mut self.entries);
                proof {
                    lemma_at_index(entries@, i as int);
                    lemma_remove_at(entries@, i as int);
                }
                let e = entries.remove(i);
                self.entries = entries;
                Some(e.value)
            },
            None => {
                proof {
                    lemma_absent(self.entries@, key@);
                    assert(self@.remove(key@) =~= self@);
                }
                None
            },
        }
    }
}

} // verus!
