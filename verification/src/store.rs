//! The bounded paste store: an insertion-ordered map from identifiers to
//! payloads, with first-in-first-out eviction once the capacity is reached.
//!
//! The ordered map itself is `linked_hash_map::LinkedHashMap`; its contents
//! are modelled as a sequence of (identifier, payload) pairs, oldest first,
//! and every operation of [`BoundedStore`] is specified against that model.

use vstd::prelude::*;
use linked_hash_map::LinkedHashMap;

verus! {

/// The model of the store's contents: (identifier, payload) pairs in
/// insertion order, index 0 oldest, last index most recently inserted.
pub type Entries = Seq<(Seq<char>, Seq<u8>)>;

/// Some entry carries the identifier `k`.
pub open spec fn has_key(e: Entries, k: Seq<char>) -> bool {
    exists|i: int| 0 <= i < e.len() && e[i].0 == k
}

/// The position of the entry carrying `k` (meaningful when `has_key` holds
/// and the identifiers are distinct).
pub open spec fn key_index(e: Entries, k: Seq<char>) -> int {
    choose|i: int| 0 <= i < e.len() && e[i].0 == k
}

/// The payload stored under `k` (meaningful when `has_key` holds).
pub open spec fn value_of(e: Entries, k: Seq<char>) -> Seq<u8> {
    e[key_index(e, k)].1
}

/// No identifier occurs twice.
pub open spec fn distinct_keys(e: Entries) -> bool {
    forall|i: int, j: int| 0 <= i < j < e.len() ==> e[i].0 != e[j].0
}

/// How many of the oldest entries an insert of a fresh identifier evicts:
/// just enough that the store holds at most `cap` entries afterwards.
pub open spec fn evict_count(len: int, cap: int) -> int {
    if len + 1 > cap { len + 1 - cap } else { 0 }
}

/// What one insert does to the model. A fresh identifier evicts the oldest
/// entries as needed and is appended at the most-recent end; an identifier
/// already resident evicts nothing: its entry is re-bound to the new payload
/// and refreshed to the most-recent position.
pub open spec fn spec_insert(e: Entries, cap: int, k: Seq<char>, v: Seq<u8>) -> Entries {
    if has_key(e, k) {
        e.remove(key_index(e, k)).push((k, v))
    } else {
        e.skip(evict_count(e.len() as int, cap)).push((k, v))
    }
}

#[verifier::external_type_specification]
#[verifier::external_body]
#[verifier::reject_recursive_types(K)]
#[verifier::reject_recursive_types(V)]
#[verifier::reject_recursive_types(S)]
pub struct ExLinkedHashMap<K, V, S>(LinkedHashMap<K, V, S>);

/// The contents of a `LinkedHashMap`, as the wrappers below describe them:
/// its (key, value) pairs in order, oldest first.
pub uninterp spec fn map_entries(m: LinkedHashMap<String, Vec<u8>>) -> Entries;

/// Relies on `LinkedHashMap::new`: the new map is empty.
#[verifier::external_body]
fn lhm_new() -> (m: LinkedHashMap<String, Vec<u8>>)
    ensures
        map_entries(m) == Seq::<(Seq<char>, Seq<u8>)>::empty(),
{
    LinkedHashMap::new()
}

/// Relies on `LinkedHashMap::len`: the number of entries.
#[verifier::external_body]
fn lhm_len(m: &LinkedHashMap<String, Vec<u8>>) -> (n: usize)
    ensures
        n == map_entries(*m).len(),
{
    m.len()
}

/// Relies on `LinkedHashMap::contains_key`: whether some entry has this key.
#[verifier::external_body]
fn lhm_contains(m: &LinkedHashMap<String, Vec<u8>>, k: &str) -> (b: bool)
    ensures
        b == has_key(map_entries(*m), k@),
{
    m.contains_key(k)
}

/// Relies on `LinkedHashMap::get`: returns the value bound to the key, and
/// does not alter the map or the order of its entries.
#[verifier::external_body]
fn lhm_get(m: &LinkedHashMap<String, Vec<u8>>, k: &str) -> (r: Option<Vec<u8>>)
    ensures
        r is Some <==> has_key(map_entries(*m), k@),
        r matches Some(v) ==> v@ == value_of(map_entries(*m), k@),
{
    m.get(k).map(|v| v.clone())
}

/// Relies on `LinkedHashMap::insert`: a fresh key is appended at the
/// most-recent end; an existing key keeps the map's size, is re-bound to the
/// new value, is moved to the most-recent position, and its old value is
/// returned.
#[verifier::external_body]
fn lhm_insert(m: &mut LinkedHashMap<String, Vec<u8>>, k: String, v: Vec<u8>) -> (prev: Option<
    Vec<u8>,
>)
    ensures
        prev is Some <==> has_key(map_entries(*old(m)), k@),
        prev matches Some(p) ==> p@ == value_of(map_entries(*old(m)), k@),
        has_key(map_entries(*old(m)), k@) ==> map_entries(*final(m)) == map_entries(*old(m)).remove(
            key_index(map_entries(*old(m)), k@),
        ).push((k@, v@)),
        !has_key(map_entries(*old(m)), k@) ==> map_entries(*final(m)) == map_entries(*old(m)).push(
            (k@, v@),
        ),
{
    m.insert(k, v)
}

/// Relies on `LinkedHashMap::pop_front`: removes and returns the oldest
/// entry, or returns `None` and changes nothing when the map is empty.
#[verifier::external_body]
fn lhm_pop_front(m: &mut LinkedHashMap<String, Vec<u8>>) -> (r: Option<(String, Vec<u8>)>)
    ensures
        map_entries(*old(m)).len() == 0 ==> (r is None && map_entries(*final(m)) == map_entries(*old(m))),
        map_entries(*old(m)).len() > 0 ==> (r matches Some(p) && p.0@ == map_entries(*old(m))[0].0
            && p.1@ == map_entries(*old(m))[0].1 && map_entries(*final(m)) == map_entries(
            *old(m),
        ).drop_first()),
{
    m.pop_front()
}

/// Appending an entry with a fresh identifier keeps the identifiers distinct.
proof fn lemma_push_distinct(e: Entries, k: Seq<char>, v: Seq<u8>)
    requires
        distinct_keys(e),
        !has_key(e, k),
    ensures
        distinct_keys(e.push((k, v))),
{
    let p = e.push((k, v));
    assert forall|i: int, j: int| 0 <= i < j < p.len() implies p[i].0 != p[j].0 by {
        if j == e.len() {
            assert(p[i] == e[i]);
            if p[i].0 == k {
                assert(has_key(e, k));
            }
        } else {
            assert(p[i] == e[i]);
            assert(p[j] == e[j]);
        }
    }
}

/// Dropping a prefix keeps the identifiers distinct and introduces none.
proof fn lemma_skip_distinct(e: Entries, n: int, k: Seq<char>)
    requires
        distinct_keys(e),
        !has_key(e, k),
        0 <= n <= e.len(),
    ensures
        distinct_keys(e.skip(n)),
        !has_key(e.skip(n), k),
{
    let s = e.skip(n);
    assert(forall|j: int| 0 <= j < s.len() ==> s[j] == e[n + j]);
    assert forall|i: int, j: int| 0 <= i < j < s.len() implies s[i].0 != s[j].0 by {
        assert(e[n + i].0 != e[n + j].0);
    }
    if has_key(s, k) {
        let j = choose|j: int| 0 <= j < s.len() && s[j].0 == k;
        assert(e[n + j].0 == k);
        assert(has_key(e, k));
    }
}

/// Removing the one entry that carries `k` keeps the identifiers distinct
/// and leaves no entry carrying `k`.
proof fn lemma_remove_distinct(e: Entries, k: Seq<char>)
    requires
        distinct_keys(e),
        has_key(e, k),
    ensures
        distinct_keys(e.remove(key_index(e, k))),
        !has_key(e.remove(key_index(e, k)), k),
{
    let i = key_index(e, k);
    assert(0 <= i < e.len() && e[i].0 == k);
    let r = e.remove(i);
    assert(forall|j: int| 0 <= j < i ==> r[j] == e[j]);
    assert(forall|j: int| i <= j < r.len() ==> r[j] == e[j + 1]);
    assert forall|p: int, q: int| 0 <= p < q < r.len() implies r[p].0 != r[q].0 by {
    }
    if has_key(r, k) {
        let j = choose|j: int| 0 <= j < r.len() && r[j].0 == k;
        if j < i {
            assert(e[j].0 == e[i].0);
        } else {
            assert(e[j + 1].0 == e[i].0);
        }
    }
}

/// Law: a store within its capacity bound stays within it across any one
/// insert — so the bound holds after every insert of any sequence.
pub proof fn lemma_capacity_invariant(e: Entries, cap: int, k: Seq<char>, v: Seq<u8>)
    requires
        cap >= 1,
        e.len() <= cap,
    ensures
        spec_insert(e, cap, k, v).len() <= cap,
{
    if has_key(e, k) {
        let i = key_index(e, k);
        assert(0 <= i < e.len() && e[i].0 == k);
    }
}

/// Law (read your write): immediately after inserting a payload under an
/// identifier, looking that identifier up finds exactly that payload.
pub proof fn lemma_read_your_write(e: Entries, cap: int, k: Seq<char>, v: Seq<u8>)
    requires
        cap >= 1,
        distinct_keys(e),
    ensures
        has_key(spec_insert(e, cap, k, v), k),
        value_of(spec_insert(e, cap, k, v), k) == v,
{
    let e1 = spec_insert(e, cap, k, v);
    if has_key(e, k) {
        lemma_remove_distinct(e, k);
        lemma_push_distinct(e.remove(key_index(e, k)), k, v);
        let i = key_index(e, k);
        assert(0 <= i < e.len());
    } else {
        let d = evict_count(e.len() as int, cap);
        lemma_skip_distinct(e, d, k);
        lemma_push_distinct(e.skip(d), k, v);
    }
    let last = e1.len() - 1;
    assert(e1[last] == (k, v));
    assert(has_key(e1, k));
    let j = key_index(e1, k);
    assert(0 <= j < e1.len() && e1[j].0 == k);
    if j != last {
        assert(e1[j].0 == e1[last].0);
        assert(false);
    }
}

/// The store contents after submitting a whole sequence of pastes in
/// order: identifier `ids[i]` with payload `vals[i]`, `i` ascending.
pub open spec fn run_inserts(e: Entries, cap: int, ids: Seq<Seq<char>>, vals: Seq<Seq<u8>>) -> Entries
    decreases ids.len(),
{
    if ids.len() == 0 {
        e
    } else {
        run_inserts(
            spec_insert(e, cap, ids[0], vals[0]),
            cap,
            ids.drop_first(),
            vals.drop_first(),
        )
    }
}

/// Identifiers paired up with their payloads, in submission order.
pub open spec fn zip_entries(ids: Seq<Seq<char>>, vals: Seq<Seq<u8>>) -> Entries {
    Seq::new(ids.len(), |j: int| (ids[j], vals[j]))
}

/// How many of `n` submissions a store of capacity `cap` retains.
pub open spec fn keep_count(n: int, cap: int) -> int {
    if n <= cap {
        n
    } else {
        cap
    }
}

/// The backbone of the eviction laws: running distinct fresh inserts over a
/// well-formed store leaves exactly the most recent entries that the
/// capacity admits, in order.
proof fn lemma_run_inserts_suffix(e: Entries, cap: int, ids: Seq<Seq<char>>, vals: Seq<Seq<u8>>)
    requires
        cap >= 1,
        distinct_keys(e),
        e.len() <= cap,
        ids.len() == vals.len(),
        forall|i: int, j: int| 0 <= i < j < ids.len() ==> ids[i] != ids[j],
        forall|i: int| 0 <= i < ids.len() ==> !has_key(e, #[trigger] ids[i]),
    ensures
        run_inserts(e, cap, ids, vals) == (e + zip_entries(ids, vals)).skip(
            e.len() + ids.len() - keep_count(e.len() + ids.len() as int, cap),
        ),
    decreases ids.len(),
{
    let s = e + zip_entries(ids, vals);
    let x0 = s.len() - keep_count(s.len() as int, cap);
    if ids.len() == 0 {
        assert(s =~= e);
        assert(s.skip(0) =~= e);
    } else {
        let k0 = ids[0];
        let v0 = vals[0];
        assert(!has_key(e, k0));
        let d = evict_count(e.len() as int, cap);
        let e1 = spec_insert(e, cap, k0, v0);
        assert(e1 == e.skip(d).push((k0, v0)));
        lemma_skip_distinct(e, d, k0);
        lemma_push_distinct(e.skip(d), k0, v0);
        let ids1 = ids.drop_first();
        let vals1 = vals.drop_first();
        assert forall|i: int| 0 <= i < ids1.len() implies !has_key(e1, #[trigger] ids1[i]) by {
            assert(ids1[i] == ids[i + 1]);
            assert(ids[i + 1] != ids[0]);
            if has_key(e1, ids1[i]) {
                let j = choose|j: int| 0 <= j < e1.len() && e1[j].0 == ids1[i];
                if j == e1.len() - 1 {
                    assert(e1[j].0 == k0);
                } else {
                    assert(e1[j] == e[d + j]);
                    assert(has_key(e, ids[i + 1]));
                }
            }
        }
        lemma_run_inserts_suffix(e1, cap, ids1, vals1);
        let s1 = e1 + zip_entries(ids1, vals1);
        let x1 = s1.len() - keep_count(s1.len() as int, cap);
        assert(s1 =~= s.skip(d));
        assert(s1.skip(x1) =~= s.skip(d + x1));
        assert(d + x1 == x0);
        assert(run_inserts(e, cap, ids, vals) == run_inserts(e1, cap, ids1, vals1));
    }
}

/// Law (first-in-first-out eviction): submitting `n` pastes with pairwise
/// distinct identifiers to an empty store of capacity `cap` leaves exactly
/// the last `min(n, cap)` of them, in submission order, and none of the
/// earlier ones.
pub proof fn lemma_fifo_eviction(ids: Seq<Seq<char>>, vals: Seq<Seq<u8>>, cap: int)
    requires
        cap >= 1,
        ids.len() == vals.len(),
        forall|i: int, j: int| 0 <= i < j < ids.len() ==> ids[i] != ids[j],
    ensures
        run_inserts(Seq::empty(), cap, ids, vals) == zip_entries(ids, vals).skip(
            ids.len() - keep_count(ids.len() as int, cap),
        ),
{
    let e: Entries = Seq::empty();
    lemma_run_inserts_suffix(e, cap, ids, vals);
    assert(e + zip_entries(ids, vals) =~= zip_entries(ids, vals));
}

/// Law (eviction causes absence): once more distinct pastes have been
/// submitted than the capacity holds, each of the earliest identifiers is
/// no longer resident.
pub proof fn lemma_eviction_absence(ids: Seq<Seq<char>>, vals: Seq<Seq<u8>>, cap: int, i: int)
    requires
        cap >= 1,
        ids.len() == vals.len(),
        forall|i: int, j: int| 0 <= i < j < ids.len() ==> ids[i] != ids[j],
        0 <= i < ids.len() - cap,
    ensures
        !has_key(run_inserts(Seq::empty(), cap, ids, vals), ids[i]),
{
    lemma_fifo_eviction(ids, vals, cap);
    let r = run_inserts(Seq::empty(), cap, ids, vals);
    let start = ids.len() - keep_count(ids.len() as int, cap);
    if has_key(r, ids[i]) {
        let j = choose|j: int| 0 <= j < r.len() && r[j].0 == ids[i];
        assert(r[j] == zip_entries(ids, vals)[start + j]);
        assert(ids[start + j] == ids[i]);
        assert(start + j > i);
    }
}

/// Law: after `n` distinct submissions to an empty store, exactly
/// `min(n, cap)` entries are resident, and each retained identifier still
/// holds exactly the payload submitted with it.
pub proof fn lemma_final_size(ids: Seq<Seq<char>>, vals: Seq<Seq<u8>>, cap: int)
    requires
        cap >= 1,
        ids.len() == vals.len(),
        forall|i: int, j: int| 0 <= i < j < ids.len() ==> ids[i] != ids[j],
    ensures
        run_inserts(Seq::empty(), cap, ids, vals).len() == keep_count(ids.len() as int, cap),
        forall|i: int|
            ids.len() - keep_count(ids.len() as int, cap) <= i < ids.len() ==> has_key(
                run_inserts(Seq::empty(), cap, ids, vals),
                #[trigger] ids[i],
            ) && value_of(run_inserts(Seq::empty(), cap, ids, vals), ids[i]) == vals[i],
{
    lemma_fifo_eviction(ids, vals, cap);
    let r = run_inserts(Seq::empty(), cap, ids, vals);
    let start = ids.len() - keep_count(ids.len() as int, cap);
    assert forall|i: int| start <= i < ids.len() implies has_key(r, #[trigger] ids[i]) && value_of(
        r,
        ids[i],
    ) == vals[i] by {
        assert(r[i - start] == zip_entries(ids, vals)[i]);
        assert(r[i - start].0 == ids[i]);
        assert(has_key(r, ids[i]));
        let j = key_index(r, ids[i]);
        assert(0 <= j < r.len() && r[j].0 == ids[i]);
        if j != i - start {
            assert(r[j] == zip_entries(ids, vals)[start + j]);
            assert(ids[start + j] == ids[i]);
            assert(false);
        }
    }
}

/// The single source of truth for live paste data: identifiers mapped to
/// payloads in insertion order, never holding more than `capacity` entries
/// at rest.
pub struct BoundedStore {
    map: LinkedHashMap<String, Vec<u8>>,
    capacity: usize,
}

impl View for BoundedStore {
    type V = Entries;

    closed spec fn view(&self) -> Entries {
        map_entries(self.map)
    }
}

impl BoundedStore {
    /// The capacity bound fixed at construction.
    pub closed spec fn cap(&self) -> int {
        self.capacity as int
    }

    /// Well-formed: positive capacity, distinct resident identifiers, and no
    /// more resident entries than the capacity allows.
    pub open spec fn wf(&self) -> bool {
        self.cap() >= 1 && distinct_keys(self@) && self@.len() <= self.cap()
    }

    /// An empty store with the given capacity bound.
    pub fn new(capacity: usize) -> (s: BoundedStore)
        requires
            capacity >= 1,
        ensures
            s.wf(),
            s@ == Seq::<(Seq<char>, Seq<u8>)>::empty(),
            s.cap() == capacity,
    {
        BoundedStore { map: lhm_new(), capacity }
    }

    /// The capacity bound.
    pub fn capacity(&self) -> (c: usize)
        ensures
            c == self.cap(),
    {
        self.capacity
    }

    /// The number of resident entries.
    pub fn len(&self) -> (n: usize)
        ensures
            n == self@.len(),
    {
        lhm_len(&self.map)
    }

    /// Looks an identifier up: the payload stored under it, or `None` when
    /// no entry carries it. Reading never alters the insertion order.
    pub fn lookup(&self, id: &str) -> (r: Option<Vec<u8>>)
        ensures
            has_key(self@, id@) ==> (r matches Some(v) && v@ == value_of(self@, id@)),
            !has_key(self@, id@) ==> r is None,
    {
        lhm_get(&self.map, id)
    }

    /// Evicts the oldest entries until there is room to insert one more
    /// entry without passing the capacity bound. While a purge runs, the
    /// store is borrowed exclusively and other users wait.
    fn purge_old(&mut self)
        requires
            old(self).cap() >= 1,
        ensures
            final(self).cap() == old(self).cap(),
            final(self)@ == old(self)@.skip(
                evict_count(old(self)@.len() as int, old(self).cap()),
            ),
    {
        let ghost e0 = self@;
        let target = self.capacity - 1;
        let mut n = lhm_len(&self.map);
        while n > target
            invariant
                self.capacity == old(self).capacity,
                n == self@.len(),
                n <= e0.len(),
                n >= target || n == e0.len(),
                self@ == e0.skip(e0.len() - n),
            decreases n,
        {
            let _ = lhm_pop_front(&mut self.map);
            proof {
                assert(e0.skip(e0.len() - n).drop_first() =~= e0.skip(e0.len() - (n - 1)));
            }
            n = n - 1;
        }
        proof {
            if e0.len() + 1 > self.cap() {
                assert(n == target);
            } else {
                assert(e0.skip(0) =~= e0);
            }
        }
    }

    /// Inserts a payload under an identifier. A fresh identifier first
    /// evicts the oldest entries as needed, so that afterwards at most
    /// `cap` entries are resident, and is appended at the most-recent end;
    /// an identifier already resident evicts nothing: its entry is re-bound
    /// to the new payload and refreshed to the most-recent position.
    /// Insertion never fails.
    pub fn insert(&mut self, id: String, content: Vec<u8>)
        requires
            old(self).wf(),
        ensures
            final(self).wf(),
            final(self).cap() == old(self).cap(),
            final(self)@ == spec_insert(old(self)@, old(self).cap(), id@, content@),
            final(self)@.len() <= old(self).cap(),
            has_key(final(self)@, id@),
            value_of(final(self)@, id@) == content@,
    {
        let ghost e0 = self@;
        let ghost c = self.cap();
        proof {
            lemma_read_your_write(e0, c, id@, content@);
        }
        if lhm_contains(&self.map, id.as_str()) {
            let _ = lhm_insert(&mut self.map, id, content);
            proof {
                lemma_remove_distinct(e0, id@);
                lemma_push_distinct(e0.remove(key_index(e0, id@)), id@, content@);
                assert(0 <= key_index(e0, id@) < e0.len());
            }
        } else {
            self.purge_old();
            let ghost d = evict_count(e0.len() as int, c);
            proof {
                lemma_skip_distinct(e0, d, id@);
            }
            let _ = lhm_insert(&mut self.map, id, content);
            proof {
                lemma_push_distinct(e0.skip(d), id@, content@);
            }
        }
    }
}

} // verus!

