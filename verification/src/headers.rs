//! HTTP headers: an ordered list of (name, value) pairs that keeps duplicates
//! and looks names up case-insensitively.
use crate::text::{
    chars_of, clone_pairs, enc, join, join_strings, owned, pairs_view, split_bounds, split_char, str_eq, str_lower, string_of, strings_view, to_lower, trim,
    trim_all, trim_bounds, lemma_strings_view_push, lemma_pairs_view_push,
};
use vstd::prelude::*;

verus! {

/// Header pairs, viewed as plain text.
pub type Items = Seq<(Seq<char>, Seq<char>)>;

/// The values stored under the (lowercase) name `kl`, in order.
pub open spec fn values_of(items: Items, kl: Seq<char>) -> Seq<Seq<char>>
    decreases items.len(),
{
    if items.len() == 0 {
        Seq::empty()
    } else if str_lower(items.last().0) == kl {
        values_of(items.drop_last(), kl).push(items.last().1)
    } else {
        values_of(items.drop_last(), kl)
    }
}

/// The pairs whose name does not lowercase to `kl`.
pub open spec fn without_key(items: Items, kl: Seq<char>) -> Items
    decreases items.len(),
{
    if items.len() == 0 {
        Seq::empty()
    } else if str_lower(items.last().0) == kl {
        without_key(items.drop_last(), kl)
    } else {
        without_key(items.drop_last(), kl).push(items.last())
    }
}

/// Whether some pair's name lowercases to `kl`.
pub open spec fn has_key(items: Items, kl: Seq<char>) -> bool {
    exists|i: int| 0 <= i < items.len() && str_lower(#[trigger] items[i].0) == kl
}

/// Index of the first pair whose name lowercases to `kl`.
pub open spec fn first_index(items: Items, kl: Seq<char>) -> Option<int>
    decreases items.len(),
{
    if items.len() == 0 {
        None
    } else if str_lower(items[0].0) == kl {
        Some(0)
    } else {
        match first_index(items.drop_first(), kl) {
            Some(i) => Some(i + 1),
            None => None,
        }
    }
}

/// The names of the pairs, each name kept at its first occurrence only
/// (compared lowercased), in order, with their original spelling.
pub open spec fn unique_keys(items: Items) -> Seq<Seq<char>>
    decreases items.len(),
{
    if items.len() == 0 {
        Seq::empty()
    } else if has_key(items.drop_last(), str_lower(items.last().0)) {
        unique_keys(items.drop_last())
    } else {
        unique_keys(items.drop_last()).push(items.last().0)
    }
}

/// The value reported for a name: all its values joined with ", ".
pub open spec fn merged_value(items: Items, k: Seq<char>) -> Seq<char> {
    join(values_of(items, str_lower(k)), ", "@)
}

/// `items()`: one pair per distinct name, with merged values.
pub open spec fn merged_items(items: Items) -> Items {
    unique_keys(items).map_values(|k: Seq<char>| (k, merged_value(items, k)))
}

/// `values()`: the merged value of each distinct name.
pub open spec fn merged_values(items: Items) -> Seq<Seq<char>> {
    unique_keys(items).map_values(|k: Seq<char>| merged_value(items, k))
}

/// `set`: every pair with the name is removed, then the pair is appended
/// with the name lowercased.
pub open spec fn set_spec(items: Items, k: Seq<char>, v: Seq<char>) -> Items {
    without_key(items, str_lower(k)).push((str_lower(k), v))
}

/// `__setitem__`: the value replaces the first pair with the name (the name is
/// stored lowercased) and every later pair with the name is removed; a new
/// name is appended.
pub open spec fn set_item_spec(items: Items, kl: Seq<char>, v: Seq<char>) -> Items {
    match first_index(items, kl) {
        Some(p) => items.take(p) + seq![(kl, v)] + without_key(items.skip(p + 1), kl),
        None => items.push((kl, v)),
    }
}

/// Each value split at commas, each piece trimmed, all pieces in order.
pub open spec fn split_commas_all(vals: Seq<Seq<char>>) -> Seq<Seq<char>>
    decreases vals.len(),
{
    if vals.len() == 0 {
        Seq::empty()
    } else {
        split_commas_all(vals.drop_last()) + trim_all(split_char(vals.last(), ','))
    }
}

/// How bytes given for a header were decoded.
#[derive(Debug, Clone, Copy, PartialEq, Eq)]
pub enum HeaderEncoding {
    Ascii,
    Utf8,
    Latin1,
}

/// HTTP headers with case-insensitive names.
#[derive(Debug)]
pub struct Headers {
    /// The pairs, in order, duplicates kept.
    inner: Vec<(String, String)>,
    /// Whether the headers were given as a mapping (affects the repr).
    from_dict: bool,
    /// Encoding used to decode bytes ("ascii", "utf-8" or "iso-8859-1").
    encoding: String,
}

// ----- lemmas --------------------------------------------------------------

proof fn lemma_has_key_push(items: Items, p: (Seq<char>, Seq<char>), kl: Seq<char>)
    ensures
        has_key(items.push(p), kl) == (has_key(items, kl) || str_lower(p.0) == kl),
{
    if has_key(items, kl) {
        let i = choose|i: int| 0 <= i < items.len() && str_lower(#[trigger] items[i].0) == kl;
        assert(items.push(p)[i] == items[i]);
    }
    if str_lower(p.0) == kl {
        assert(items.push(p)[items.len() as int] == p);
    }
    if has_key(items.push(p), kl) {
        let i = choose|i: int|
            0 <= i < items.push(p).len() && str_lower(#[trigger] items.push(p)[i].0) == kl;
        if i < items.len() {
            assert(items[i] == items.push(p)[i]);
        }
    }
}

proof fn lemma_has_key_take(items: Items, i: int, kl: Seq<char>)
    requires
        0 <= i < items.len(),
    ensures
        has_key(items.take(i + 1), kl) == (has_key(items.take(i), kl) || str_lower(items[i].0)
            == kl),
{
    assert(items.take(i + 1) =~= items.take(i).push(items[i]));
    lemma_has_key_push(items.take(i), items[i], kl);
}

proof fn lemma_values_of_none(items: Items, kl: Seq<char>)
    requires
        !has_key(items, kl),
    ensures
        values_of(items, kl).len() == 0,
        without_key(items, kl) == items,
    decreases items.len(),
{
    if items.len() > 0 {
        assert(!has_key(items.drop_last(), kl)) by {
            if has_key(items.drop_last(), kl) {
                let i = choose|i: int|
                    0 <= i < items.drop_last().len() && str_lower(#[trigger] items.drop_last()[i].0)
                        == kl;
                assert(items[i] == items.drop_last()[i]);
            }
        }
        assert(str_lower(items[items.len() - 1].0) != kl);
        lemma_values_of_none(items.drop_last(), kl);
        assert(items.drop_last().push(items.last()) =~= items);
    }
}

proof fn lemma_first_index_take(items: Items, i: int, kl: Seq<char>)
    requires
        0 <= i <= items.len(),
        !has_key(items.take(i), kl),
        i < items.len() ==> str_lower(items[i].0) == kl,
    ensures
        first_index(items, kl) == if i < items.len() {
            Some(i)
        } else {
            None::<int>
        },
    decreases i,
{
    if i > 0 {
        assert(str_lower(items[0].0) != kl) by {
            assert(items.take(i)[0] == items[0]);
        }
        assert(!has_key(items.drop_first().take(i - 1), kl)) by {
            if has_key(items.drop_first().take(i - 1), kl) {
                let j = choose|j: int|
                    0 <= j < items.drop_first().take(i - 1).len() && str_lower(
                        #[trigger] items.drop_first().take(i - 1)[j].0,
                    ) == kl;
                assert(items.take(i)[j + 1] == items.drop_first().take(i - 1)[j]);
            }
        }
        if i < items.len() {
            assert(items.drop_first()[i - 1] == items[i]);
        }
        lemma_first_index_take(items.drop_first(), i - 1, kl);
    } else if items.len() > 0 {
    }
}

proof fn lemma_first_index_some(items: Items, kl: Seq<char>)
    ensures
        match first_index(items, kl) {
            Some(p) => 0 <= p < items.len() && str_lower(items[p].0) == kl && !has_key(
                items.take(p),
                kl,
            ),
            None => !has_key(items, kl),
        },
    decreases items.len(),
{
    if items.len() > 0 {
        lemma_first_index_some(items.drop_first(), kl);
        if str_lower(items[0].0) == kl {
            assert(items.take(0).len() == 0);
        } else {
            match first_index(items.drop_first(), kl) {
                Some(q) => {
                    assert(items[q + 1] == items.drop_first()[q]);
                    assert(!has_key(items.take(q + 1), kl)) by {
                        if has_key(items.take(q + 1), kl) {
                            let j = choose|j: int|
                                0 <= j < items.take(q + 1).len() && str_lower(
                                    #[trigger] items.take(q + 1)[j].0,
                                ) == kl;
                            if j > 0 {
                                assert(items.drop_first().take(q)[j - 1] == items.take(q + 1)[j]);
                            }
                        }
                    }
                },
                None => {
                    assert(!has_key(items, kl)) by {
                        if has_key(items, kl) {
                            let j = choose|j: int|
                                0 <= j < items.len() && str_lower(#[trigger] items[j].0) == kl;
                            if j > 0 {
                                assert(items.drop_first()[j - 1] == items[j]);
                            }
                        }
                    }
                },
            }
        }
    }
}

// ----- executable helpers --------------------------------------------------

fn name_matches(k: &String, kl: &String) -> (r: bool)
    ensures
        r == (str_lower(k@) == kl@),
{
    let lk = to_lower(k.as_str());
    str_eq(lk.as_str(), kl.as_str())
}

fn contains_string(v: &Vec<String>, s: &String) -> (r: bool)
    ensures
        r == strings_view(v@).contains(s@),
{
    let mut i: usize = 0;
    while i < v.len()
        invariant
            i <= v@.len(),
            forall|j: int| 0 <= j < i ==> v@[j]@ != s@,
        decreases v.len() - i,
    {
        if str_eq(v[i].as_str(), s.as_str()) {
            assert(strings_view(v@)[i as int] == s@);
            return true;
        }
        i = i + 1;
    }
    proof {
        if strings_view(v@).contains(s@) {
            let j = choose|j: int| 0 <= j < strings_view(v@).len() && strings_view(v@)[j] == s@;
            assert(v@[j]@ == s@);
        }
    }
    false
}

/// Appends the comma-separated pieces of `v`, each trimmed.
fn push_split_trimmed(r: &mut Vec<String>, v: &str)
    ensures
        strings_view(final(r)@) == strings_view(old(r)@) + trim_all(split_char(v@, ',')),
{
    let cs = chars_of(v);
    let parts = split_bounds(cs.as_slice(), ',', 0, cs.len());
    let ghost sp = split_char(cs@, ',');
    assert(cs@.subrange(0, cs@.len() as int) =~= cs@);
    let ghost before = strings_view(r@);
    let mut k: usize = 0;
    while k < parts.len()
        invariant
            k <= parts@.len(),
            parts@.len() == sp.len(),
            sp == split_char(v@, ','),
            cs@ == v@,
            forall|q: int|
                0 <= q < parts@.len() ==> 0 <= #[trigger] parts@[q].0 <= parts@[q].1 <= cs@.len()
                    && cs@.subrange(parts@[q].0 as int, parts@[q].1 as int) == sp[q],
            strings_view(r@) == before + trim_all(sp.take(k as int)),
        decreases parts.len() - k,
    {
        let (s, e) = parts[k];
        let (a, b) = trim_bounds(cs.as_slice(), s, e);
        let piece = string_of(cs.as_slice(), a, b);
        assert(piece@ == trim(sp[k as int]));
        let ghost old_r = r@;
        r.push(piece);
        proof {
            lemma_strings_view_push(old_r, piece);
        }
        k = k + 1;
        assert(trim_all(sp.take(k as int)) =~= trim_all(sp.take(k - 1)).push(trim(sp[k - 1])));
        assert(strings_view(r@) =~= before + trim_all(sp.take(k as int)));
    }
    assert(sp.take(sp.len() as int) =~= sp);
}

impl Headers {
    /// The pairs as plain text.
    pub closed spec fn items(&self) -> Items {
        pairs_view(self.inner@)
    }

    /// Whether the headers were built from a mapping.
    pub closed spec fn spec_from_dict(&self) -> bool {
        self.from_dict
    }

    /// The encoding name recorded for the headers.
    pub closed spec fn spec_encoding(&self) -> Seq<char> {
        self.encoding@
    }

    /// Empty headers (encoding "ascii").
    pub fn new() -> (h: Self)
        ensures
            h.items().len() == 0,
            !h.spec_from_dict(),
            h.spec_encoding() == "ascii"@,
    {
        Headers { inner: Vec::new(), from_dict: false, encoding: owned("ascii") }
    }

    /// Headers holding exactly the given pairs, in order.
    pub fn from_vec(headers: Vec<(String, String)>) -> (h: Self)
        ensures
            h.items() == pairs_view(headers@),
            !h.spec_from_dict(),
            h.spec_encoding() == "ascii"@,
    {
        Headers { inner: headers, from_dict: false, encoding: owned("ascii") }
    }

    /// Headers built from a mapping or a list of pairs (already decoded), with
    /// the encoding detected while decoding them.
    pub fn from_pairs(headers: Vec<(String, String)>, from_dict: bool, encoding: HeaderEncoding) -> (h: Self)
        ensures
            h.items() == pairs_view(headers@),
            h.spec_from_dict() == from_dict,
            h.spec_encoding() == encoding_name(encoding),
    {
        Headers { inner: headers, from_dict, encoding: encoding_string(encoding) }
    }

    /// The pairs.
    pub fn inner(&self) -> (r: &Vec<(String, String)>)
        ensures
            pairs_view(r@) == self.items(),
    {
        &self.inner
    }

    /// Whether the headers were given as a mapping.
    pub fn from_dict(&self) -> (r: bool)
        ensures
            r == self.spec_from_dict(),
    {
        self.from_dict
    }

    /// The pairs, copied (the order of iteration).
    pub fn iter_pairs(&self) -> (r: Vec<(String, String)>)
        ensures
            pairs_view(r@) == self.items(),
    {
        clone_pairs(&self.inner)
    }

    /// `multi_items()`: every pair, in order.
    pub fn multi_items(&self) -> (r: Vec<(String, String)>)
        ensures
            pairs_view(r@) == self.items(),
    {
        clone_pairs(&self.inner)
    }

    /// A copy of the headers.
    pub fn copy(&self) -> (r: Self)
        ensures
            r.items() == self.items(),
            r.spec_from_dict() == self.spec_from_dict(),
            r.spec_encoding() == self.spec_encoding(),
    {
        Headers { inner: clone_pairs(&self.inner), from_dict: self.from_dict, encoding: self.encoding.clone() }
    }

    /// All values for a name (case-insensitive), in order.
    pub fn get_all(&self, key: &str) -> (r: Vec<String>)
        ensures
            strings_view(r@) == values_of(self.items(), str_lower(key@)),
    {
        let kl = to_lower(key);
        let ghost items = self.items();
        let mut r: Vec<String> = Vec::new();
        let mut i: usize = 0;
        while i < self.inner.len()
            invariant
                i <= self.inner@.len(),
                items == pairs_view(self.inner@),
                kl@ == str_lower(key@),
                strings_view(r@) == values_of(items.take(i as int), kl@),
            decreases self.inner.len() - i,
        {
            assert(items.take(i + 1).drop_last() =~= items.take(i as int));
            if name_matches(&self.inner[i].0, &kl) {
                r.push(self.inner[i].1.clone());
            }
            i = i + 1;
            assert(strings_view(r@) =~= values_of(items.take(i as int), kl@));
        }
        assert(items.take(self.inner@.len() as int) =~= items);
        r
    }

    /// Whether a header with the name exists (case-insensitive).
    pub fn contains(&self, key: &str) -> (r: bool)
        ensures
            r == has_key(self.items(), str_lower(key@)),
    {
        let kl = to_lower(key);
        let ghost items = self.items();
        let mut i: usize = 0;
        while i < self.inner.len()
            invariant
                i <= self.inner@.len(),
                items == pairs_view(self.inner@),
                kl@ == str_lower(key@),
                !has_key(items.take(i as int), kl@),
            decreases self.inner.len() - i,
        {
            proof {
                lemma_has_key_take(items, i as int, kl@);
            }
            if name_matches(&self.inner[i].0, &kl) {
                assert(str_lower(items[i as int].0) == kl@);
                return true;
            }
            i = i + 1;
        }
        assert(items.take(self.inner@.len() as int) =~= items);
        false
    }

    /// The value of a header (all its values joined with ", "), or the
    /// default when it is absent.
    pub fn get(&self, key: &str, default: Option<&str>) -> (r: Option<String>)
        ensures
            ({
                let vals = values_of(self.items(), str_lower(key@));
                if vals.len() == 0 {
                    match default {
                        Some(d) => r matches Some(x) && x@ == d@,
                        None => r is None,
                    }
                } else {
                    r matches Some(x) && x@ == join(vals, ", "@)
                }
            }),
    {
        let vals = self.get_all(key);
        if vals.len() == 0 {
            match default {
                Some(d) => Some(owned(d)),
                None => None,
            }
        } else {
            Some(join_strings(&vals, ", "))
        }
    }

    /// The value of a header (`headers[key]`); `None` (a key error) when it is
    /// absent.
    pub fn get_item(&self, key: &str) -> (r: Option<String>)
        ensures
            ({
                let vals = values_of(self.items(), str_lower(key@));
                if vals.len() == 0 {
                    r is None
                } else {
                    r matches Some(x) && x@ == join(vals, ", "@)
                }
            }),
    {
        self.get(key, None)
    }

    /// Removes every header with the name (case-insensitive).
    pub fn remove(&mut self, key: &str)
        ensures
            final(self).items() == without_key(old(self).items(), str_lower(key@)),
            final(self).spec_from_dict() == old(self).spec_from_dict(),
            final(self).spec_encoding() == old(self).spec_encoding(),
    {
        let kl = to_lower(key);
        let ghost items = self.items();
        let mut kept: Vec<(String, String)> = Vec::new();
        let mut i: usize = 0;
        while i < self.inner.len()
            invariant
                i <= self.inner@.len(),
                items == pairs_view(self.inner@),
                kl@ == str_lower(key@),
                pairs_view(kept@) == without_key(items.take(i as int), kl@),
            decreases self.inner.len() - i,
        {
            assert(items.take(i + 1).drop_last() =~= items.take(i as int));
            if !name_matches(&self.inner[i].0, &kl) {
                kept.push((self.inner[i].0.clone(), self.inner[i].1.clone()));
            }
            i = i + 1;
            assert(pairs_view(kept@) =~= without_key(items.take(i as int), kl@));
        }
        assert(items.take(self.inner@.len() as int) =~= items);
        self.inner = kept;
    }

    /// Sets a header: removes every header with the name, then appends the
    /// pair with the name lowercased.
    pub fn set(&mut self, key: String, value: String)
        ensures
            final(self).items() == without_key(old(self).items(), str_lower(key@)).push(
                (str_lower(key@), value@),
            ),
            final(self).spec_from_dict() == old(self).spec_from_dict(),
            final(self).spec_encoding() == old(self).spec_encoding(),
    {
        let kl = to_lower(key.as_str());
        self.remove(key.as_str());
        self.inner.push((kl, value));
        assert(self.items() =~= without_key(old(self).items(), str_lower(key@)).push(
            (str_lower(key@), value@),
        ));
    }

    /// Appends a header, keeping existing ones with the same name; the name is
    /// stored lowercased.
    pub fn append(&mut self, key: String, value: String)
        ensures
            final(self).items() == old(self).items().push((str_lower(key@), value@)),
            final(self).spec_from_dict() == old(self).spec_from_dict(),
            final(self).spec_encoding() == old(self).spec_encoding(),
    {
        let kl = to_lower(key.as_str());
        self.inner.push((kl, value));
        assert(self.items() =~= old(self).items().push((str_lower(key@), value@)));
    }

    /// Puts a header before all others, with the name as given.
    pub fn insert_front(&mut self, key: String, value: String)
        ensures
            final(self).items() == seq![(key@, value@)] + old(self).items(),
            final(self).spec_from_dict() == old(self).spec_from_dict(),
            final(self).spec_encoding() == old(self).spec_encoding(),
    {
        let ghost items = self.items();
        self.inner.insert(0, (key, value));
        assert(self.items() =~= seq![(key@, value@)] + items);
    }

    /// `headers[key] = value`: replaces the first header with the name (keeping
    /// its position, name lowercased), drops later ones, or appends.
    pub fn set_item(&mut self, key: String, value: String)
        ensures
            final(self).items() == set_item_spec(old(self).items(), str_lower(key@), value@),
            final(self).spec_from_dict() == old(self).spec_from_dict(),
            final(self).spec_encoding() == old(self).spec_encoding(),
    {
        let kl = to_lower(key.as_str());
        let ghost items = self.items();
        let mut out: Vec<(String, String)> = Vec::new();
        let mut pos: Option<usize> = None;
        let mut i: usize = 0;
        while i < self.inner.len()
            invariant
                i <= self.inner@.len(),
                items == pairs_view(self.inner@),
                kl@ == str_lower(key@),
                match pos {
                    None => !has_key(items.take(i as int), kl@) && pairs_view(out@) == items.take(
                        i as int,
                    ),
                    Some(p) => {
                        &&& p < i
                        &&& !has_key(items.take(p as int), kl@)
                        &&& str_lower(items[p as int].0) == kl@
                        &&& pairs_view(out@) == items.take(p as int) + without_key(
                            items.subrange(p + 1, i as int),
                            kl@,
                        )
                        &&& out@.len() >= p
                    },
                },
            decreases self.inner.len() - i,
        {
            proof {
                lemma_has_key_take(items, i as int, kl@);
            }
            let m = name_matches(&self.inner[i].0, &kl);
            let ghost old_out = pairs_view(out@);
            if m {
                if pos.is_none() {
                    pos = Some(i);
                    proof {
                        assert(items.subrange(i + 1, i + 1) =~= Seq::<(Seq<char>, Seq<char>)>::empty());
                    }
                } else {
                    proof {
                        let p = pos.unwrap();
                        let sub = items.subrange(p + 1, i + 1);
                        assert(sub.drop_last() =~= items.subrange(p + 1, i as int));
                        assert(sub.last() == items[i as int]);
                        assert(without_key(sub, kl@) == without_key(sub.drop_last(), kl@));
                    }
                }
            } else {
                let ghost old_o = out@;
                let pair = (self.inner[i].0.clone(), self.inner[i].1.clone());
                out.push(pair);
                proof {
                    lemma_pairs_view_push(old_o, pair);
                    assert(pairs_view(out@) == old_out.push(items[i as int]));
                    match pos {
                        None => {
                            assert(pairs_view(out@) =~= items.take(i + 1));
                        },
                        Some(p) => {
                            let sub = items.subrange(p + 1, i + 1);
                            assert(sub.drop_last() =~= items.subrange(p + 1, i as int));
                            assert(sub.last() == items[i as int]);
                            assert(without_key(sub, kl@) == without_key(sub.drop_last(), kl@).push(
                                items[i as int],
                            ));
                            assert(pairs_view(out@) =~= items.take(p as int) + without_key(
                                items.subrange(p + 1, i + 1),
                                kl@,
                            ));
                        },
                    }
                }
            }
            i = i + 1;
        }
        let ghost n = self.inner@.len() as int;
        match pos {
            Some(p) => {
                let ghost before = out@;
                let ghost w = without_key(items.subrange(p + 1, n), kl@);
                let ghost nv = (kl@, value@);
                out.insert(p, (kl, value));
                proof {
                    lemma_first_index_take(items, p as int, kl@);
                    assert(items.subrange(p + 1, n) =~= items.skip(p + 1));
                    assert(pairs_view(before) == items.take(p as int) + w);
                    assert(pairs_view(out@) =~= pairs_view(before).insert(p as int, nv));
                    assert(pairs_view(out@) =~= items.take(p as int) + seq![nv] + w);
                }
            },
            None => {
                out.push((kl, value));
                proof {
                    assert(items.take(n) =~= items);
                    lemma_first_index_take(items, n, kl@);
                    assert(pairs_view(out@) =~= items.push((str_lower(key@), value@)));
                }
            },
        }
        self.inner = out;
    }

    /// `del headers[key]`: removes every header with the name; returns whether
    /// there was one (when not, the caller reports a key error).
    pub fn del_item(&mut self, key: &str) -> (r: bool)
        ensures
            final(self).items() == without_key(old(self).items(), str_lower(key@)),
            r == has_key(old(self).items(), str_lower(key@)),
            final(self).spec_from_dict() == old(self).spec_from_dict(),
            final(self).spec_encoding() == old(self).spec_encoding(),
    {
        let present = self.contains(key);
        self.remove(key);
        present
    }

    /// `setdefault(key, default)`: the first value of the header if present;
    /// otherwise appends (name lowercased, default or "") and returns it.
    pub fn setdefault(&mut self, key: String, default: Option<String>) -> (r: String)
        ensures
            match first_index(old(self).items(), str_lower(key@)) {
                Some(p) => r@ == old(self).items()[p].1 && final(self).items() == old(
                    self,
                ).items(),
                None => {
                    &&& r@ == match default {
                        Some(d) => d@,
                        None => Seq::empty(),
                    }
                    &&& final(self).items() == old(self).items().push((str_lower(key@), r@))
                },
            },
            final(self).spec_from_dict() == old(self).spec_from_dict(),
            final(self).spec_encoding() == old(self).spec_encoding(),
    {
        let kl = to_lower(key.as_str());
        let ghost items = self.items();
        let mut i: usize = 0;
        while i < self.inner.len()
            invariant
                i <= self.inner@.len(),
                items == pairs_view(self.inner@),
                kl@ == str_lower(key@),
                !has_key(items.take(i as int), kl@),
            decreases self.inner.len() - i,
        {
            proof {
                lemma_has_key_take(items, i as int, kl@);
            }
            if name_matches(&self.inner[i].0, &kl) {
                proof {
                    lemma_first_index_take(items, i as int, kl@);
                }
                return self.inner[i].1.clone();
            }
            i = i + 1;
        }
        proof {
            assert(items.take(self.inner@.len() as int) =~= items);
            lemma_first_index_take(items, self.inner@.len() as int, kl@);
        }
        let value = match default {
            Some(d) => d,
            None => String::new(),
        };
        let r = value.clone();
        self.inner.push((kl, value));
        assert(self.items() =~= items.push((str_lower(key@), r@)));
        r
    }

    fn unique_key_indices(&self) -> (r: Vec<usize>)
        ensures
            r@.len() == unique_keys(self.items()).len(),
            forall|m: int|
                0 <= m < r@.len() ==> #[trigger] r@[m] < self.items().len() && self.items()[r@[m] as int].0
                    == unique_keys(self.items())[m],
    {
        let ghost items = self.items();
        let mut seen: Vec<String> = Vec::new();
        let mut r: Vec<usize> = Vec::new();
        let mut i: usize = 0;
        while i < self.inner.len()
            invariant
                i <= self.inner@.len(),
                items == pairs_view(self.inner@),
                r@.len() == unique_keys(items.take(i as int)).len(),
                forall|m: int|
                    0 <= m < r@.len() ==> #[trigger] r@[m] < i && items[r@[m] as int].0
                        == unique_keys(items.take(i as int))[m],
                forall|kl: Seq<char>|
                    has_key(items.take(i as int), kl) == #[trigger] strings_view(seen@).contains(
                        kl,
                    ),
            decreases self.inner.len() - i,
        {
            let lk = to_lower(self.inner[i].0.as_str());
            let dup = contains_string(&seen, &lk);
            proof {
                assert(items.take(i + 1).drop_last() =~= items.take(i as int));
                assert(items.take(i + 1).last() == items[i as int]);
                assert forall|kl: Seq<char>|
                    has_key(items.take(i + 1), kl) == (has_key(items.take(i as int), kl) || str_lower(
                        items[i as int].0,
                    ) == kl) by {
                    lemma_has_key_take(items, i as int, kl);
                }
            }
            if !dup {
                r.push(i);
                let ghost sv = strings_view(seen@);
                seen.push(lk);
                proof {
                    assert(strings_view(seen@) =~= sv.push(str_lower(items[i as int].0)));
                    assert forall|kl: Seq<char>|
                        has_key(items.take(i + 1), kl) == #[trigger] strings_view(seen@).contains(
                            kl,
                        ) by {
                        if kl == str_lower(items[i as int].0) {
                            assert(strings_view(seen@)[sv.len() as int] == kl);
                        } else if sv.contains(kl) {
                            let j = choose|j: int| 0 <= j < sv.len() && sv[j] == kl;
                            assert(strings_view(seen@)[j] == kl);
                        } else if strings_view(seen@).contains(kl) {
                            let j = choose|j: int|
                                0 <= j < strings_view(seen@).len() && strings_view(seen@)[j] == kl;
                            assert(sv[j] == kl);
                        }
                    }
                }
            }
            i = i + 1;
        }
        assert(items.take(self.inner@.len() as int) =~= items);
        r
    }

    /// `keys()`: the distinct names (first spelling of each, compared
    /// lowercased), in order of first appearance.
    pub fn keys(&self) -> (r: Vec<String>)
        ensures
            strings_view(r@) == unique_keys(self.items()),
    {
        let idx = self.unique_key_indices();
        let mut r: Vec<String> = Vec::new();
        let mut m: usize = 0;
        while m < idx.len()
            invariant
                m <= idx@.len(),
                idx@.len() == unique_keys(self.items()).len(),
                forall|j: int|
                    0 <= j < idx@.len() ==> #[trigger] idx@[j] < self.items().len() && self.items()[idx@[j] as int].0
                        == unique_keys(self.items())[j],
                strings_view(r@) == unique_keys(self.items()).take(m as int),
            decreases idx.len() - m,
        {
            let j = idx[m];
            assert(j < self.items().len());
            assert(self.inner@[j as int].0@ == self.items()[j as int].0);
            let ghost old_r = r@;
            let kc = self.inner[j].0.clone();
            r.push(kc);
            proof {
                lemma_strings_view_push(old_r, kc);
            }
            m = m + 1;
            assert(strings_view(r@) =~= unique_keys(self.items()).take(m as int));
        }
        assert(unique_keys(self.items()).take(idx@.len() as int) =~= unique_keys(self.items()));
        r
    }

    /// `len(headers)`: the number of distinct names.
    pub fn len(&self) -> (r: usize)
        ensures
            r == unique_keys(self.items()).len(),
    {
        self.unique_key_indices().len()
    }

    /// `values()`: the merged value of each distinct name, in key order.
    pub fn values(&self) -> (r: Vec<String>)
        ensures
            strings_view(r@) == merged_values(self.items()),
    {
        let ks = self.keys();
        let mut r: Vec<String> = Vec::new();
        let mut m: usize = 0;
        while m < ks.len()
            invariant
                m <= ks@.len(),
                strings_view(ks@) == unique_keys(self.items()),
                strings_view(r@) == merged_values(self.items()).take(m as int),
            decreases ks.len() - m,
        {
            let vals = self.get_all(ks[m].as_str());
            assert(ks@[m as int]@ == unique_keys(self.items())[m as int]);
            let joined = join_strings(&vals, ", ");
            assert(joined@ == merged_values(self.items())[m as int]);
            let ghost old_r = r@;
            r.push(joined);
            proof {
                lemma_strings_view_push(old_r, joined);
            }
            m = m + 1;
            assert(strings_view(r@) =~= merged_values(self.items()).take(m as int));
        }
        assert(merged_values(self.items()).take(ks@.len() as int) =~= merged_values(self.items()));
        r
    }

    /// `items()`: each distinct name with its merged value, in key order.
    pub fn merged_items(&self) -> (r: Vec<(String, String)>)
        ensures
            pairs_view(r@) == merged_items(self.items()),
    {
        let ks = self.keys();
        let mut r: Vec<(String, String)> = Vec::new();
        let mut m: usize = 0;
        while m < ks.len()
            invariant
                m <= ks@.len(),
                strings_view(ks@) == unique_keys(self.items()),
                pairs_view(r@) == merged_items(self.items()).take(m as int),
            decreases ks.len() - m,
        {
            let vals = self.get_all(ks[m].as_str());
            assert(ks@[m as int]@ == unique_keys(self.items())[m as int]);
            let joined = join_strings(&vals, ", ");
            assert(joined@ == merged_items(self.items())[m as int].1);
            let ghost old_r = r@;
            let kc = ks[m].clone();
            r.push((kc, joined));
            proof {
                lemma_pairs_view_push(old_r, (kc, joined));
            }
            m = m + 1;
            assert(pairs_view(r@) =~= merged_items(self.items()).take(m as int));
        }
        assert(merged_items(self.items()).take(ks@.len() as int) =~= merged_items(self.items()));
        r
    }

    /// `get_list(key, split_commas)`: the values of a header; with
    /// `split_commas`, each value split at commas and each piece trimmed.
    pub fn get_list(&self, key: &str, split_commas: bool) -> (r: Vec<String>)
        ensures
            strings_view(r@) == if split_commas {
                split_commas_all(values_of(self.items(), str_lower(key@)))
            } else {
                values_of(self.items(), str_lower(key@))
            },
    {
        let vals = self.get_all(key);
        if !split_commas {
            return vals;
        }
        let ghost vv = strings_view(vals@);
        let mut r: Vec<String> = Vec::new();
        let mut m: usize = 0;
        while m < vals.len()
            invariant
                m <= vals@.len(),
                vv == strings_view(vals@),
                strings_view(r@) == split_commas_all(vv.take(m as int)),
            decreases vals.len() - m,
        {
            push_split_trimmed(&mut r, vals[m].as_str());
            assert(vv.take(m + 1).drop_last() =~= vv.take(m as int));
            m = m + 1;
        }
        assert(vv.take(vals@.len() as int) =~= vv);
        r
    }

    /// `raw`: the pairs as UTF-8 bytes.
    pub fn raw(&self) -> (r: Vec<(Vec<u8>, Vec<u8>)>)
        ensures
            r@.len() == self.items().len(),
            forall|i: int|
                0 <= i < r@.len() ==> (#[trigger] r@[i]).0@ == enc(self.items()[i].0) && r@[i].1@
                    == enc(self.items()[i].1),
    {
        let mut r: Vec<(Vec<u8>, Vec<u8>)> = Vec::new();
        let mut i: usize = 0;
        while i < self.inner.len()
            invariant
                i <= self.inner@.len(),
                r@.len() == i,
                forall|j: int|
                    0 <= j < i ==> (#[trigger] r@[j]).0@ == enc(self.items()[j].0) && r@[j].1@
                        == enc(self.items()[j].1),
            decreases self.inner.len() - i,
        {
            let k = vstd::slice::slice_to_vec(self.inner[i].0.as_str().as_bytes());
            let v = vstd::slice::slice_to_vec(self.inner[i].1.as_str().as_bytes());
            r.push((k, v));
            i = i + 1;
        }
        r
    }

    /// The encoding name used to decode bytes.
    pub fn encoding(&self) -> (r: &str)
        ensures
            r@ == self.spec_encoding(),
    {
        self.encoding.as_str()
    }

    /// Sets the encoding name.
    pub fn set_encoding(&mut self, encoding: &str)
        ensures
            final(self).spec_encoding() == encoding@,
            final(self).items() == old(self).items(),
            final(self).spec_from_dict() == old(self).spec_from_dict(),
    {
        self.encoding = owned(encoding);
    }

    /// `update(other)`: sets each pair of `other` in turn, as `headers[k] = v`.
    pub fn update(&mut self, other: &Vec<(String, String)>)
        ensures
            final(self).items() == update_spec(old(self).items(), pairs_view(other@)),
            final(self).spec_from_dict() == old(self).spec_from_dict(),
            final(self).spec_encoding() == old(self).spec_encoding(),
    {
        let ghost start = self.items();
        let ghost ov = pairs_view(other@);
        let mut i: usize = 0;
        while i < other.len()
            invariant
                i <= other@.len(),
                ov == pairs_view(other@),
                self.items() == update_spec(start, ov.take(i as int)),
                self.spec_from_dict() == old(self).spec_from_dict(),
                self.spec_encoding() == old(self).spec_encoding(),
            decreases other.len() - i,
        {
            self.set_item(other[i].0.clone(), other[i].1.clone());
            assert(ov.take(i + 1).drop_last() =~= ov.take(i as int));
            i = i + 1;
        }
        assert(ov.take(other@.len() as int) =~= ov);
    }
}

/// `update`: the pairs set one after another.
pub open spec fn update_spec(items: Items, other: Items) -> Items
    decreases other.len(),
{
    if other.len() == 0 {
        items
    } else {
        let prev = update_spec(items, other.drop_last());
        set_item_spec(prev, str_lower(other.last().0), other.last().1)
    }
}

/// The name of an encoding.
pub open spec fn encoding_name(e: HeaderEncoding) -> Seq<char> {
    match e {
        HeaderEncoding::Ascii => "ascii"@,
        HeaderEncoding::Utf8 => "utf-8"@,
        HeaderEncoding::Latin1 => "iso-8859-1"@,
    }
}

fn encoding_string(e: HeaderEncoding) -> (r: String)
    ensures
        r@ == encoding_name(e),
{
    match e {
        HeaderEncoding::Ascii => owned("ascii"),
        HeaderEncoding::Utf8 => owned("utf-8"),
        HeaderEncoding::Latin1 => owned("iso-8859-1"),
    }
}

/// The encoding of the headers after a pair whose name and value were decoded
/// with `k` and `v`: unchanged if both are ASCII; otherwise UTF-8 if either
/// is, else Latin-1 if either is.
pub open spec fn next_encoding(cur: HeaderEncoding, k: HeaderEncoding, v: HeaderEncoding) -> HeaderEncoding {
    if k == HeaderEncoding::Ascii && v == HeaderEncoding::Ascii {
        cur
    } else if k == HeaderEncoding::Utf8 || v == HeaderEncoding::Utf8 {
        HeaderEncoding::Utf8
    } else {
        HeaderEncoding::Latin1
    }
}

/// Updates the detected encoding for one decoded pair.
pub fn merge_encoding(cur: HeaderEncoding, k: HeaderEncoding, v: HeaderEncoding) -> (r: HeaderEncoding)
    ensures
        r == next_encoding(cur, k, v),
{
    if matches!(k, HeaderEncoding::Ascii) && matches!(v, HeaderEncoding::Ascii) {
        cur
    } else if matches!(k, HeaderEncoding::Utf8) || matches!(v, HeaderEncoding::Utf8) {
        HeaderEncoding::Utf8
    } else {
        HeaderEncoding::Latin1
    }
}

} // verus!
