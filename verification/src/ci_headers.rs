//! A case-insensitive header store that keeps each name as it was written.
//!
//! Two tables are kept: the headers themselves, keyed by the name exactly as
//! inserted, and an index from the lowercased name to the name most recently
//! inserted under it.  Lookups go through the index.
use crate::text::{owned, pairs_view, str_eq, str_lower, to_lower};
use vstd::prelude::*;

verus! {

/// A table of (key, value) text pairs.
pub type Pairs = Seq<(Seq<char>, Seq<char>)>;

/// Index of the entry with key `k`, scanning from the front.
pub open spec fn key_index<V>(s: Seq<(Seq<char>, V)>, k: Seq<char>) -> Option<int>
    decreases s.len(),
{
    if s.len() == 0 {
        None
    } else if s[0].0 == k {
        Some(0)
    } else {
        match key_index(s.drop_first(), k) {
            Some(i) => Some(i + 1),
            None => None,
        }
    }
}

/// The value stored under `k`.
pub open spec fn lookup<V>(s: Seq<(Seq<char>, V)>, k: Seq<char>) -> Option<V> {
    match key_index(s, k) {
        Some(i) => Some(s[i].1),
        None => None,
    }
}

/// The table with `k` mapped to `v`: an existing entry is overwritten in
/// place, otherwise the pair is appended.
pub open spec fn put<V>(s: Seq<(Seq<char>, V)>, k: Seq<char>, v: V) -> Seq<(Seq<char>, V)> {
    match key_index(s, k) {
        Some(i) => s.update(i, (k, v)),
        None => s.push((k, v)),
    }
}

/// The table without the entry for `k`.
pub open spec fn del<V>(s: Seq<(Seq<char>, V)>, k: Seq<char>) -> Seq<(Seq<char>, V)> {
    match key_index(s, k) {
        Some(i) => s.remove(i),
        None => s,
    }
}

/// No key occurs twice.
pub open spec fn distinct_keys<V>(s: Seq<(Seq<char>, V)>) -> bool {
    forall|i: int, j: int| 0 <= i < j < s.len() ==> #[trigger] s[i].0 != #[trigger] s[j].0
}

/// The keys of a table, in order.
pub open spec fn keys_of(s: Pairs) -> Seq<Seq<char>> {
    s.map_values(|p: (Seq<char>, Seq<char>)| p.0)
}

/// The values of a table, in order.
pub open spec fn values_of(s: Pairs) -> Seq<Seq<char>> {
    s.map_values(|p: (Seq<char>, Seq<char>)| p.1)
}

/// Where the value for `key` stands in the headers table: the lowercased key
/// selects the stored name, and the stored name selects the entry.
pub open spec fn ci_slot(inner: Pairs, index: Pairs, key: Seq<char>) -> Option<int> {
    match lookup(index, str_lower(key)) {
        Some(orig) => key_index(inner, orig),
        None => None,
    }
}

/// Case-insensitive lookup: the lowercased key selects the stored name, and
/// the stored name selects the value.
pub open spec fn ci_lookup(inner: Pairs, index: Pairs, key: Seq<char>) -> Option<Seq<char>> {
    match lookup(index, str_lower(key)) {
        Some(orig) => lookup(inner, orig),
        None => None,
    }
}

/// What `key_index` says, element by element.
pub proof fn lemma_key_index<V>(s: Seq<(Seq<char>, V)>, k: Seq<char>)
    ensures
        match key_index(s, k) {
            Some(i) => 0 <= i < s.len() && s[i].0 == k && forall|j: int|
                0 <= j < i ==> #[trigger] s[j].0 != k,
            None => forall|j: int| 0 <= j < s.len() ==> #[trigger] s[j].0 != k,
        },
    decreases s.len(),
{
    if s.len() > 0 && s[0].0 != k {
        lemma_key_index(s.drop_first(), k);
        match key_index(s.drop_first(), k) {
            Some(i) => {
                assert forall|j: int| 0 <= j < i + 1 implies #[trigger] s[j].0 != k by {
                    if j > 0 {
                        assert(s[j] == s.drop_first()[j - 1]);
                    }
                }
            },
            None => {
                assert forall|j: int| 0 <= j < s.len() implies #[trigger] s[j].0 != k by {
                    if j > 0 {
                        assert(s[j] == s.drop_first()[j - 1]);
                    }
                }
            },
        }
    }
}

/// `key_index` is determined by the first position holding the key.
pub proof fn lemma_key_index_at<V>(s: Seq<(Seq<char>, V)>, k: Seq<char>, i: int)
    requires
        0 <= i <= s.len(),
        forall|j: int| 0 <= j < i ==> #[trigger] s[j].0 != k,
        i < s.len() ==> s[i].0 == k,
    ensures
        key_index(s, k) == if i < s.len() {
            Some(i)
        } else {
            None::<int>
        },
{
    lemma_key_index(s, k);
    match key_index(s, k) {
        Some(m) => {
            if m < i {
                assert(s[m].0 != k);
            }
            if i < m {
                assert(s[i].0 != k);
            }
        },
        None => {
            if i < s.len() {
                assert(s[i].0 != k);
            }
        },
    }
}

/// Reading back a key just written gives the value written.
pub proof fn lemma_lookup_put_same<V>(s: Seq<(Seq<char>, V)>, k: Seq<char>, v: V)
    ensures
        lookup(put(s, k, v), k) == Some(v),
{
    lemma_key_index(s, k);
    match key_index(s, k) {
        Some(i) => {
            let t = s.update(i, (k, v));
            assert forall|j: int| 0 <= j < i implies #[trigger] t[j].0 != k by {
                assert(t[j] == s[j]);
            }
            lemma_key_index_at(t, k, i);
        },
        None => {
            let t = s.push((k, v));
            assert forall|j: int| 0 <= j < s.len() implies #[trigger] t[j].0 != k by {
                assert(t[j] == s[j]);
            }
            lemma_key_index_at(t, k, s.len() as int);
        },
    }
}

/// Removing one key leaves the others as they were.
pub proof fn lemma_lookup_del_other<V>(s: Seq<(Seq<char>, V)>, k: Seq<char>, k2: Seq<char>)
    requires
        k2 != k,
    ensures
        lookup(del(s, k), k2) == lookup(s, k2),
{
    lemma_key_index(s, k);
    lemma_key_index(s, k2);
    match key_index(s, k) {
        Some(m) => {
            let t = del(s, k);
            assert(t == s.remove(m));
            match key_index(s, k2) {
                Some(i) => {
                    if i < m {
                        assert forall|j: int| 0 <= j < i implies #[trigger] t[j].0 != k2 by {
                            assert(t[j] == s[j]);
                        }
                        assert(t[i] == s[i]);
                        lemma_key_index_at(t, k2, i);
                    } else {
                        assert(i != m);
                        assert forall|j: int| 0 <= j < i - 1 implies #[trigger] t[j].0 != k2 by {
                            if j < m {
                                assert(t[j] == s[j]);
                            } else {
                                assert(t[j] == s[j + 1]);
                            }
                        }
                        assert(t[i - 1] == s[i]);
                        lemma_key_index_at(t, k2, i - 1);
                    }
                },
                None => {
                    assert forall|j: int| 0 <= j < t.len() implies #[trigger] t[j].0 != k2 by {
                        if j < m {
                            assert(t[j] == s[j]);
                        } else {
                            assert(t[j] == s[j + 1]);
                        }
                    }
                    lemma_key_index_at(t, k2, t.len() as int);
                },
            }
        },
        None => {},
    }
}

/// The headers table without the entry stored under the spelling that the
/// index gives for `key`'s lowercased name: what an insert replaces.
pub open spec fn drop_spelling(inner: Pairs, index: Pairs, key: Seq<char>) -> Pairs {
    match lookup(index, str_lower(key)) {
        Some(orig) => del(inner, orig),
        None => inner,
    }
}

/// Writing one key leaves the others as they were.
pub proof fn lemma_lookup_put_other<V>(s: Seq<(Seq<char>, V)>, k: Seq<char>, v: V, k2: Seq<char>)
    requires
        k2 != k,
    ensures
        lookup(put(s, k, v), k2) == lookup(s, k2),
{
    lemma_key_index(s, k);
    lemma_key_index(s, k2);
    let t = put(s, k, v);
    assert(t.len() >= s.len());
    assert forall|j: int| 0 <= j < s.len() implies (#[trigger] t[j]).0 == k2 <==> s[j].0 == k2 by {
        match key_index(s, k) {
            Some(i) => {
                if j == i {
                    assert(s[j].0 == k);
                }
            },
            None => {},
        }
    }
    match key_index(s, k2) {
        Some(m) => {
            assert(t[m] == s[m]) by {
                match key_index(s, k) {
                    Some(i) => {
                        if m == i {
                            assert(s[m].0 == k);
                        }
                    },
                    None => {},
                }
            }
            lemma_key_index_at(t, k2, m);
        },
        None => {
            if t.len() > s.len() {
                assert(t[s.len() as int].0 == k);
            }
            assert forall|j: int| 0 <= j < t.len() implies #[trigger] t[j].0 != k2 by {
                if j < s.len() {
                    assert(s[j].0 != k2);
                }
            }
            lemma_key_index_at(t, k2, t.len() as int);
        },
    }
}

/// Writing keeps keys distinct.
pub proof fn lemma_put_distinct<V>(s: Seq<(Seq<char>, V)>, k: Seq<char>, v: V)
    requires
        distinct_keys(s),
    ensures
        distinct_keys(put(s, k, v)),
        put(s, k, v).len() == if key_index(s, k) is Some {
            s.len()
        } else {
            s.len() + 1
        },
{
    lemma_key_index(s, k);
    let t = put(s, k, v);
    assert forall|i: int, j: int| 0 <= i < j < t.len() implies #[trigger] t[i].0 != #[trigger] t[j].0 by {
        match key_index(s, k) {
            Some(m) => {
                if i == m {
                    assert(s[j].0 != s[m].0);
                } else if j == m {
                    assert(s[i].0 != s[m].0);
                } else {
                    assert(s[i].0 != s[j].0);
                }
            },
            None => {
                if j == s.len() {
                    assert(s[i].0 != k);
                } else {
                    assert(s[i].0 != s[j].0);
                }
            },
        }
    }
}

/// Removing keeps keys distinct, and the key is gone afterwards.
pub proof fn lemma_del<V>(s: Seq<(Seq<char>, V)>, k: Seq<char>)
    requires
        distinct_keys(s),
    ensures
        distinct_keys(del(s, k)),
        lookup(del(s, k), k) is None,
        key_index(s, k) is Some ==> del(s, k).len() == s.len() - 1,
{
    lemma_key_index(s, k);
    let t = del(s, k);
    match key_index(s, k) {
        Some(m) => {
            assert forall|i: int, j: int| 0 <= i < j < t.len() implies #[trigger] t[i].0
                != #[trigger] t[j].0 by {
                let a = if i < m { i } else { i + 1 };
                let b = if j < m { j } else { j + 1 };
                assert(t[i] == s[a]);
                assert(t[j] == s[b]);
                assert(s[a].0 != s[b].0);
            }
            assert forall|j: int| 0 <= j < t.len() implies #[trigger] t[j].0 != k by {
                let b = if j < m { j } else { j + 1 };
                assert(t[j] == s[b]);
                if b != m {
                    if b < m {
                        assert(s[b].0 != k);
                    } else {
                        assert(s[m].0 != s[b].0);
                    }
                }
            }
            lemma_key_index_at(t, k, t.len() as int);
        },
        None => {
            lemma_key_index_at(t, k, t.len() as int);
        },
    }
}

/// Each index entry maps a lowercased name to a name that lowercases to it.
pub open spec fn index_spells(index: Pairs) -> bool {
    forall|i: int| 0 <= i < index.len() ==> #[trigger] index[i].0 == str_lower(index[i].1)
}

/// Pointing a lowercased name at a name that lowercases to it keeps the index
/// consistent.
proof fn lemma_put_spells(index: Pairs, k: Seq<char>)
    requires
        index_spells(index),
    ensures
        index_spells(put(index, str_lower(k), k)),
{
    let t = put(index, str_lower(k), k);
    assert forall|i: int| 0 <= i < t.len() implies #[trigger] t[i].0 == str_lower(t[i].1) by {
        if i < index.len() && t[i] == index[i] {
        } else {
            lemma_key_index(index, str_lower(k));
        }
    }
}

/// Removing an index entry keeps the index consistent.
proof fn lemma_del_spells(index: Pairs, k: Seq<char>)
    requires
        index_spells(index),
    ensures
        index_spells(del(index, k)),
{
    let t = del(index, k);
    lemma_key_index(index, k);
    match key_index(index, k) {
        Some(m) => {
            assert forall|i: int| 0 <= i < t.len() implies #[trigger] t[i].0 == str_lower(t[i].1) by {
                if i < m {
                    assert(t[i] == index[i]);
                } else {
                    assert(t[i] == index[i + 1]);
                }
            }
        },
        None => {},
    }
}

/// Changing the value of one entry keeps the keys distinct.
proof fn lemma_set_value_distinct(s: Pairs, j: int)
    requires
        distinct_keys(s),
        0 <= j < s.len(),
    ensures
        forall|v: Seq<char>| #[trigger] distinct_keys(s.update(j, (s[j].0, v))),
{
    assert forall|v: Seq<char>| #[trigger] distinct_keys(s.update(j, (s[j].0, v))) by {
        let t = s.update(j, (s[j].0, v));
        assert forall|a: int, b: int| 0 <= a < b < t.len() implies #[trigger] t[a].0
            != #[trigger] t[b].0 by {
            assert(t[a].0 == s[a].0);
            assert(t[b].0 == s[b].0);
        }
    }
}

/// Position of the entry with key `k` in a list of string pairs.
pub(crate) fn position(v: &Vec<(String, String)>, k: &str) -> (r: Option<usize>)
    ensures
        match r {
            Some(i) => key_index(pairs_view(v@), k@) == Some(i as int) && i < v@.len(),
            None => key_index(pairs_view(v@), k@) is None,
        },
{
    let ghost s = pairs_view(v@);
    let mut i: usize = 0;
    while i < v.len()
        invariant
            i <= v@.len(),
            s == pairs_view(v@),
            forall|j: int| 0 <= j < i ==> #[trigger] s[j].0 != k@,
        decreases v.len() - i,
    {
        if str_eq(v[i].0.as_str(), k) {
            proof {
                lemma_key_index_at(s, k@, i as int);
            }
            return Some(i);
        }
        i = i + 1;
    }
    proof {
        lemma_key_index_at(s, k@, s.len() as int);
    }
    None
}

/// Maps `k` to `val` in a list of string pairs.
pub(crate) fn put_pair(v: &mut Vec<(String, String)>, k: String, val: String)
    ensures
        pairs_view(final(v)@) == put(pairs_view(old(v)@), k@, val@),
{
    let ghost s = pairs_view(v@);
    match position(v, k.as_str()) {
        Some(i) => {
            v.set(i, (k, val));
            assert(pairs_view(v@) =~= s.update(i as int, (k@, val@)));
        },
        None => {
            v.push((k, val));
            assert(pairs_view(v@) =~= s.push((k@, val@)));
        },
    }
}

/// Removes the entry for `k` from a list of string pairs.
fn del_pair(v: &mut Vec<(String, String)>, k: &str)
    ensures
        pairs_view(final(v)@) == del(pairs_view(old(v)@), k@),
{
    let ghost s = pairs_view(v@);
    match position(v, k) {
        Some(i) => {
            v.remove(i);
            assert(pairs_view(v@) =~= s.remove(i as int));
        },
        None => {},
    }
}

/// The table of (name, value) pairs held as two parallel lists.
pub open spec fn zipped(names: Seq<String>, values: Seq<String>) -> Pairs {
    Seq::new(names.len(), |i: int| (names[i]@, values[i]@))
}

/// The pairs of two parallel lists, copied.
fn zip_pairs(names: &Vec<String>, values: &Vec<String>) -> (r: Vec<(String, String)>)
    requires
        names@.len() == values@.len(),
    ensures
        pairs_view(r@) == zipped(names@, values@),
{
    let mut r: Vec<(String, String)> = Vec::new();
    let mut i: usize = 0;
    while i < names.len()
        invariant
            i <= names@.len(),
            names@.len() == values@.len(),
            pairs_view(r@) == zipped(names@, values@).take(i as int),
        decreases names.len() - i,
    {
        let a = names[i].clone();
        let b = values[i].clone();
        let ghost before = r@;
        r.push((a, b));
        proof {
            crate::text::lemma_pairs_view_push(before, (a, b));
        }
        i = i + 1;
        assert(pairs_view(r@) =~= zipped(names@, values@).take(i as int));
    }
    assert(zipped(names@, values@).take(i as int) =~= zipped(names@, values@));
    r
}

/// A list of pairs split into parallel lists of names and values.
fn unzip_pairs(v: Vec<(String, String)>) -> (r: (Vec<String>, Vec<String>))
    ensures
        r.0@.len() == r.1@.len(),
        zipped(r.0@, r.1@) == pairs_view(v@),
{
    let mut names: Vec<String> = Vec::new();
    let mut values: Vec<String> = Vec::new();
    let mut i: usize = 0;
    while i < v.len()
        invariant
            i <= v@.len(),
            names@.len() == i,
            values@.len() == i,
            zipped(names@, values@) == pairs_view(v@).take(i as int),
        decreases v.len() - i,
    {
        names.push(v[i].0.clone());
        values.push(v[i].1.clone());
        i = i + 1;
        assert(zipped(names@, values@) =~= pairs_view(v@).take(i as int));
    }
    assert(pairs_view(v@).take(i as int) =~= pairs_view(v@));
    (names, values)
}

/// Changing one value keeps the names distinct.
proof fn lemma_zipped_set(names: Seq<String>, values: Seq<String>, j: int)
    requires
        names.len() == values.len(),
        0 <= j < values.len(),
        distinct_keys(zipped(names, values)),
    ensures
        forall|x: String| #[trigger] distinct_keys(zipped(names, values.update(j, x))),
{
    assert forall|x: String| #[trigger] distinct_keys(zipped(names, values.update(j, x))) by {
        let t = zipped(names, values.update(j, x));
        let z = zipped(names, values);
        assert forall|a: int, b: int| 0 <= a < b < t.len() implies #[trigger] t[a].0
            != #[trigger] t[b].0 by {
            assert(t[a].0 == z[a].0);
            assert(t[b].0 == z[b].0);
        }
    }
}

/// Position of the entry named `k` among the names.
fn name_position(names: &Vec<String>, values: &Vec<String>, k: &str) -> (r: Option<usize>)
    requires
        names@.len() == values@.len(),
    ensures
        match r {
            Some(i) => key_index(zipped(names@, values@), k@) == Some(i as int) && i < names@.len(),
            None => key_index(zipped(names@, values@), k@) is None,
        },
{
    let ghost s = zipped(names@, values@);
    let mut i: usize = 0;
    while i < names.len()
        invariant
            i <= names@.len(),
            names@.len() == values@.len(),
            s == zipped(names@, values@),
            forall|j: int| 0 <= j < i ==> #[trigger] s[j].0 != k@,
        decreases names.len() - i,
    {
        if str_eq(names[i].as_str(), k) {
            proof {
                lemma_key_index_at(s, k@, i as int);
            }
            return Some(i);
        }
        i = i + 1;
    }
    proof {
        lemma_key_index_at(s, k@, s.len() as int);
    }
    None
}

/// Headers with case-insensitive lookup that keep the names as inserted.
#[derive(Debug)]
pub struct CaseInsensitiveHeaders {
    names: Vec<String>,
    values: Vec<String>,
    lowercase_map: Vec<(String, String)>,
}

impl CaseInsensitiveHeaders {
    /// The invariant every store keeps: a value for each name, and the
    /// tables well formed.
    #[verifier::type_invariant]
    spec fn consistent(self) -> bool {
        &&& self.names@.len() == self.values@.len()
        &&& self.wf()
    }

    /// Well-formed: neither table holds a name twice, and each index entry
    /// maps a lowercased name to a spelling of it.
    pub open spec fn wf(&self) -> bool {
        &&& distinct_keys(self.entries())
        &&& distinct_keys(self.index())
        &&& index_spells(self.index())
    }

    /// The headers, each name as inserted.
    pub closed spec fn entries(&self) -> Pairs {
        zipped(self.names@, self.values@)
    }

    /// The index from lowercased name to the stored name.
    pub closed spec fn index(&self) -> Pairs {
        pairs_view(self.lowercase_map@)
    }

    /// An empty store.
    pub fn new() -> (h: Self)
        ensures
            h.wf(),
            h.entries().len() == 0,
            h.index().len() == 0,
    {
        let h = CaseInsensitiveHeaders { names: Vec::new(), values: Vec::new(), lowercase_map: Vec::new() };
        assert(h.entries() =~= Seq::<(Seq<char>, Seq<char>)>::empty());
        h
    }

    /// A store holding the given pairs, inserted in the order given.
    pub fn from_hashmap(headers: Vec<(String, String)>) -> (h: Self)
        ensures
            h.wf(),
            (h.entries(), h.index()) == insert_all(Seq::empty(), Seq::empty(), pairs_view(headers@)),
    {
        let mut h = CaseInsensitiveHeaders::new();
        let ghost src = pairs_view(headers@);
        assert(h.entries() =~= Seq::<(Seq<char>, Seq<char>)>::empty());
        assert(h.index() =~= Seq::<(Seq<char>, Seq<char>)>::empty());
        let mut i: usize = 0;
        while i < headers.len()
            invariant
                i <= headers@.len(),
                src == pairs_view(headers@),
                h.wf(),
                (h.entries(), h.index()) == insert_all(Seq::empty(), Seq::empty(), src.take(i as int)),
            decreases headers.len() - i,
        {
            let (k, v) = (headers[i].0.clone(), headers[i].1.clone());
            h.insert(k, v);
            proof {
                lemma_insert_all_push(Seq::empty(), Seq::empty(), src.take(i as int), src[i as int]);
                assert(src.take(i + 1) =~= src.take(i as int).push(src[i as int]));
            }
            i = i + 1;
        }
        assert(src.take(src.len() as int) =~= src);
        h
    }

    /// Stores `value` under `key` as written: a header whose name differs
    /// only in case is the same header, so its entry is replaced, and the
    /// lowercased key points at this spelling.
    pub fn insert(&mut self, key: String, value: String)
        ensures
            final(self).wf(),
            final(self).index() == put(old(self).index(), str_lower(key@), key@),
            final(self).entries() == put(
                drop_spelling(old(self).entries(), old(self).index(), key@),
                key@,
                value@,
            ),
    {
        proof {
            use_type_invariant(&*self);
        }
        let lower = to_lower(key.as_str());
        let spelled = owned(key.as_str());
        let mut inner = zip_pairs(&self.names, &self.values);
        match position(&self.lowercase_map, lower.as_str()) {
            Some(i) => {
                proof {
                    lemma_del(pairs_view(inner@), self.lowercase_map@[i as int].1@);
                }
                del_pair(&mut inner, self.lowercase_map[i].1.as_str());
            },
            None => {},
        }
        proof {
            lemma_put_spells(self.index(), key@);
            lemma_put_distinct(self.index(), str_lower(key@), key@);
            lemma_put_distinct(pairs_view(inner@), key@, value@);
        }
        let mut index = crate::text::clone_pairs(&self.lowercase_map);
        put_pair(&mut index, lower, spelled);
        put_pair(&mut inner, key, value);
        let (names, values) = unzip_pairs(inner);
        *self = CaseInsensitiveHeaders { names, values, lowercase_map: index };
    }

    /// The value for `key`, compared case-insensitively.
    pub fn get(&self, key: &str) -> (r: Option<&String>)
        ensures
            match r {
                Some(s) => ci_lookup(self.entries(), self.index(), key@) == Some(s@),
                None => ci_lookup(self.entries(), self.index(), key@) is None,
            },
    {
        proof {
            use_type_invariant(self);
        }
        let lower = to_lower(key);
        match position(&self.lowercase_map, lower.as_str()) {
            Some(i) => {
                match name_position(&self.names, &self.values, self.lowercase_map[i].1.as_str()) {
                    Some(j) => Some(&self.values[j]),
                    None => None,
                }
            },
            None => None,
        }
    }

    /// A handle on the value for `key`, compared case-insensitively, through
    /// which the caller may change that value and nothing else.
    pub fn get_mut(&mut self, key: &str) -> (r: Option<&mut String>)
        ensures
            final(self).wf(),
            final(self).index() == old(self).index(),
            match ci_slot(old(self).entries(), old(self).index(), key@) {
                Some(j) => r is Some && (*r->0)@ == old(self).entries()[j].1
                    && final(self).entries() == old(self).entries().update(
                    j,
                    (old(self).entries()[j].0, (*final(r->0))@),
                ),
                None => r is None && final(self).entries() == old(self).entries(),
            },
    {
        proof {
            use_type_invariant(&*self);
        }
        let lower = to_lower(key);
        match position(&self.lowercase_map, lower.as_str()) {
            Some(i) => {
                match name_position(&self.names, &self.values, self.lowercase_map[i].1.as_str()) {
                    Some(j) => {
                        proof {
                            lemma_set_value_distinct(self.entries(), j as int);
                            lemma_zipped_set(self.names@, self.values@, j as int);
                        }
                        Some(&mut self.values[j])
                    },
                    None => None,
                }
            },
            None => None,
        }
    }

    /// Removes the header named `key` (case-insensitively); says whether it
    /// was there.
    pub fn remove(&mut self, key: &str) -> (present: bool)
        ensures
            final(self).wf(),
            present == lookup(old(self).index(), str_lower(key@)) is Some,
            match lookup(old(self).index(), str_lower(key@)) {
                Some(orig) => final(self).entries() == del(old(self).entries(), orig)
                    && final(self).index() == del(old(self).index(), str_lower(key@)),
                None => final(self).entries() == old(self).entries() && final(self).index()
                    == old(self).index(),
            },
    {
        proof {
            use_type_invariant(&*self);
        }
        let lower = to_lower(key);
        match position(&self.lowercase_map, lower.as_str()) {
            Some(i) => {
                let orig = self.lowercase_map[i].1.clone();
                proof {
                    lemma_del(self.entries(), orig@);
                    lemma_del(self.index(), lower@);
                    lemma_del_spells(self.index(), lower@);
                }
                let mut inner = zip_pairs(&self.names, &self.values);
                del_pair(&mut inner, orig.as_str());
                let mut index = crate::text::clone_pairs(&self.lowercase_map);
                del_pair(&mut index, lower.as_str());
                let (names, values) = unzip_pairs(inner);
                *self = CaseInsensitiveHeaders { names, values, lowercase_map: index };
                true
            },
            None => false,
        }
    }

    /// Removes every header.
    pub fn clear(&mut self)
        ensures
            final(self).wf(),
            final(self).entries().len() == 0,
            final(self).index().len() == 0,
    {
        *self = CaseInsensitiveHeaders::new();
    }

    /// The number of stored headers.
    pub fn len(&self) -> (n: usize)
        ensures
            n == self.entries().len(),
    {
        self.names.len()
    }

    /// Whether no header is stored.
    pub fn is_empty(&self) -> (b: bool)
        ensures
            b == (self.entries().len() == 0),
    {
        self.names.len() == 0
    }

    /// The stored (name, value) pairs.
    pub fn iter(&self) -> (r: Vec<(String, String)>)
        ensures
            pairs_view(r@) == self.entries(),
    {
        proof {
            use_type_invariant(self);
        }
        zip_pairs(&self.names, &self.values)
    }

    /// The stored names, as inserted.
    pub fn keys(&self) -> (r: Vec<String>)
        ensures
            crate::text::strings_view(r@) == keys_of(self.entries()),
    {
        proof {
            use_type_invariant(self);
        }
        let pairs = zip_pairs(&self.names, &self.values);
        let mut r: Vec<String> = Vec::new();
        let mut i: usize = 0;
        while i < pairs.len()
            invariant
                i <= pairs@.len(),
                pairs_view(pairs@) == self.entries(),
                crate::text::strings_view(r@) == keys_of(self.entries()).take(i as int),
            decreases pairs.len() - i,
        {
            let k = pairs[i].0.clone();
            assert(keys_of(self.entries())[i as int] == pairs@[i as int].0@);
            proof {
                crate::text::lemma_strings_view_push(r@, k);
            }
            r.push(k);
            i = i + 1;
            assert(crate::text::strings_view(r@) =~= keys_of(self.entries()).take(i as int));
        }
        assert(keys_of(self.entries()).take(i as int) =~= keys_of(self.entries()));
        r
    }

    /// The stored values.
    pub fn values(&self) -> (r: Vec<String>)
        ensures
            crate::text::strings_view(r@) == values_of(self.entries()),
    {
        proof {
            use_type_invariant(self);
        }
        let pairs = zip_pairs(&self.names, &self.values);
        let mut r: Vec<String> = Vec::new();
        let mut i: usize = 0;
        while i < pairs.len()
            invariant
                i <= pairs@.len(),
                pairs_view(pairs@) == self.entries(),
                crate::text::strings_view(r@) == values_of(self.entries()).take(i as int),
            decreases pairs.len() - i,
        {
            let v = pairs[i].1.clone();
            assert(values_of(self.entries())[i as int] == pairs@[i as int].1@);
            proof {
                crate::text::lemma_strings_view_push(r@, v);
            }
            r.push(v);
            i = i + 1;
            assert(crate::text::strings_view(r@) =~= values_of(self.entries()).take(i as int));
        }
        assert(values_of(self.entries()).take(i as int) =~= values_of(self.entries()));
        r
    }

    /// Whether a header named `key` exists (case-insensitively).
    pub fn contains_key(&self, key: &str) -> (b: bool)
        ensures
            b == lookup(self.index(), str_lower(key@)) is Some,
    {
        let lower = to_lower(key);
        position(&self.lowercase_map, lower.as_str()).is_some()
    }
}

impl Default for CaseInsensitiveHeaders {
    fn default() -> (h: Self)
        ensures
            h.wf(),
            h.entries().len() == 0,
            h.index().len() == 0,
    {
        CaseInsensitiveHeaders::new()
    }
}

/// The two tables after inserting each pair in order.
pub open spec fn insert_all(inner: Pairs, index: Pairs, src: Pairs) -> (Pairs, Pairs)
    decreases src.len(),
{
    if src.len() == 0 {
        (inner, index)
    } else {
        let (i2, x2) = insert_all(inner, index, src.drop_last());
        let (k, v) = src.last();
        (put(drop_spelling(i2, x2, k), k, v), put(x2, str_lower(k), k))
    }
}

proof fn lemma_insert_all_push(inner: Pairs, index: Pairs, src: Pairs, p: (Seq<char>, Seq<char>))
    ensures
        insert_all(inner, index, src.push(p)) == ({
            let (i2, x2) = insert_all(inner, index, src);
            (put(drop_spelling(i2, x2, p.0), p.0, p.1), put(x2, str_lower(p.0), p.0))
        }),
{
    assert(src.push(p).drop_last() =~= src);
}

/// Law: after inserting `value` under `key`, looking up any spelling of the
/// key that lowercases alike gives `value`.
pub proof fn law_get_after_insert(inner: Pairs, index: Pairs, key: Seq<char>, value: Seq<char>, other: Seq<char>)
    requires
        str_lower(other) == str_lower(key),
    ensures
        ci_lookup(
            put(drop_spelling(inner, index, key), key, value),
            put(index, str_lower(key), key),
            other,
        ) == Some(value),
{
    lemma_lookup_put_same(index, str_lower(key), key);
    lemma_lookup_put_same(drop_spelling(inner, index, key), key, value);
}

/// Law: inserting a header leaves the lookup of every name that lowercases
/// differently as it was.
pub proof fn law_insert_keeps_other_names(
    inner: Pairs,
    index: Pairs,
    key: Seq<char>,
    value: Seq<char>,
    other: Seq<char>,
)
    requires
        index_spells(index),
        str_lower(other) != str_lower(key),
    ensures
        ci_lookup(
            put(drop_spelling(inner, index, key), key, value),
            put(index, str_lower(key), key),
            other,
        ) == ci_lookup(inner, index, other),
{
    lemma_lookup_put_other(index, str_lower(key), key, str_lower(other));
    lemma_key_index(index, str_lower(other));
    lemma_key_index(index, str_lower(key));
    match lookup(index, str_lower(other)) {
        Some(orig) => {
            assert(orig != key);
            lemma_lookup_put_other(drop_spelling(inner, index, key), key, value, orig);
            match lookup(index, str_lower(key)) {
                Some(o) => {
                    assert(o != orig);
                    lemma_lookup_del_other(inner, o, orig);
                },
                None => {},
            }
        },
        None => {},
    }
}

/// Law: after removing a key, no spelling of it that lowercases alike is
/// found, when the index holds no key twice.
pub proof fn law_absent_after_remove(inner: Pairs, index: Pairs, key: Seq<char>, other: Seq<char>)
    requires
        distinct_keys(index),
        str_lower(other) == str_lower(key),
    ensures
        lookup(del(index, str_lower(key)), str_lower(other)) is None,
{
    lemma_del(index, str_lower(key));
}

} // verus!
