//! Query parameters: an ordered list of (key, value) pairs with several
//! values per key, parsed from and serialised to a query string.
use crate::codecs::{percent_decoded_text, percent_encode, url_decode, url_encode};
use crate::text::{
    chars_of, clone_pairs, concat3, enc, find_from, join, lemma_pairs_view_push,
    lemma_strings_view_push, owned, pairs_view, push_char, split_bounds, split_char,
    str_eq, string_of, strings_view,
};
use vstd::prelude::*;

verus! {

/// A plain value given for a query parameter or a form field.
pub enum PlainValue {
    /// No value (`None`).
    Null,
    /// A boolean.
    Bool(bool),
    /// A signed integer.
    Int(i64),
    /// Text, used as it is.
    Text(String),
}

/// The text of a plain value: nothing for no value, "true"/"false",
/// the decimal form of an integer, and text as it is.
pub open spec fn plain_text(v: PlainValue) -> Seq<char> {
    match v {
        PlainValue::Null => Seq::empty(),
        PlainValue::Bool(b) => if b {
            "true"@
        } else {
            "false"@
        },
        PlainValue::Int(i) => crate::json::int_text(i),
        PlainValue::Text(t) => t@,
    }
}

/// The text of a plain value.
pub fn plain_value_text(v: PlainValue) -> (r: String)
    ensures
        r@ == plain_text(v),
{
    match v {
        PlainValue::Null => String::new(),
        PlainValue::Bool(b) => if b {
            owned("true")
        } else {
            owned("false")
        },
        PlainValue::Int(i) => {
            let mut r = String::new();
            crate::json::push_int(&mut r, i);
            r
        },
        PlainValue::Text(t) => t,
    }
}

/// Parameter pairs, viewed as plain text.
pub type Params = Seq<(Seq<char>, Seq<char>)>;

/// The values stored under `k`, in order.
pub open spec fn values_for(items: Params, k: Seq<char>) -> Seq<Seq<char>>
    decreases items.len(),
{
    if items.len() == 0 {
        Seq::empty()
    } else if items.last().0 == k {
        values_for(items.drop_last(), k).push(items.last().1)
    } else {
        values_for(items.drop_last(), k)
    }
}

/// The pairs whose key is not `k`.
pub open spec fn without(items: Params, k: Seq<char>) -> Params
    decreases items.len(),
{
    if items.len() == 0 {
        Seq::empty()
    } else if items.last().0 == k {
        without(items.drop_last(), k)
    } else {
        without(items.drop_last(), k).push(items.last())
    }
}

/// Whether some pair has key `k`.
pub open spec fn has(items: Params, k: Seq<char>) -> bool {
    exists|i: int| 0 <= i < items.len() && #[trigger] items[i].0 == k
}

/// The first pair of each distinct key, in order.
pub open spec fn firsts(items: Params) -> Params
    decreases items.len(),
{
    if items.len() == 0 {
        Seq::empty()
    } else if has(items.drop_last(), items.last().0) {
        firsts(items.drop_last())
    } else {
        firsts(items.drop_last()).push(items.last())
    }
}

/// All the keys of `other` removed, then its pairs appended (`merge`).
pub open spec fn merged(items: Params, other: Params) -> Params
    decreases other.len(),
{
    if other.len() == 0 {
        items
    } else {
        without(merged(items, other.drop_last()), other.last().0)
    }
}

/// `str::replace(s, "%20", "+")`: every "%20", scanning left to right, becomes "+".
pub open spec fn plus_for_space(s: Seq<char>) -> Seq<char>
    decreases s.len(),
{
    if s.len() >= 3 && s[0] == '%' && s[1] == '2' && s[2] == '0' {
        seq!['+'] + plus_for_space(s.skip(3))
    } else if s.len() == 0 {
        Seq::empty()
    } else {
        seq![s[0]] + plus_for_space(s.drop_first())
    }
}

/// Form encoding of one component: percent-encoded, spaces as "+".
pub open spec fn form_component(s: Seq<char>) -> Seq<char> {
    plus_for_space(percent_encode(enc(s)))
}

/// The "key=value" pieces of a query string.
pub open spec fn query_pieces(items: Params) -> Seq<Seq<char>> {
    items.map_values(|p: (Seq<char>, Seq<char>)| form_component(p.0) + "="@ + form_component(p.1))
}

/// The query string: the pieces joined with "&".
pub open spec fn spec_to_query_string(items: Params) -> Seq<char> {
    join(query_pieces(items), "&"@)
}

/// A component of a parsed query: percent-decoded when that gives valid
/// UTF-8, otherwise as written.
pub open spec fn decoded_or_raw(s: Seq<char>) -> Seq<char> {
    match percent_decoded_text(s) {
        Some(t) => t,
        None => s,
    }
}

/// Each "+" read as a space.
pub open spec fn space_for_plus(s: Seq<char>) -> Seq<char> {
    s.map_values(|c: char| if c == '+' { ' ' } else { c })
}

/// A form-encoded component read back: "+" is a space, then the text is
/// percent-decoded (kept as it stands when that fails).
pub open spec fn form_decoded(s: Seq<char>) -> Seq<char> {
    decoded_or_raw(space_for_plus(s))
}

/// One non-empty "key[=value]" piece of a query string, parsed: split at the
/// first "=" (no "=" means an empty value), both sides form-decoded.
pub open spec fn parse_piece(piece: Seq<char>) -> (Seq<char>, Seq<char>) {
    match crate::text::find_char(piece, '=') {
        Some(i) => (form_decoded(piece.take(i)), form_decoded(piece.skip(i + 1))),
        None => (form_decoded(piece), form_decoded(Seq::empty())),
    }
}

/// The pairs parsed from the pieces, empty pieces skipped.
pub open spec fn parse_pieces(pieces: Seq<Seq<char>>) -> Params
    decreases pieces.len(),
{
    if pieces.len() == 0 {
        Seq::empty()
    } else if pieces.last().len() == 0 {
        parse_pieces(pieces.drop_last())
    } else {
        parse_pieces(pieces.drop_last()).push(parse_piece(pieces.last()))
    }
}

/// The pairs of a query string.
pub open spec fn spec_parse_query(query: Seq<char>) -> Params {
    parse_pieces(split_char(query, '&'))
}

/// Query parameters, with several values per key.
#[derive(Debug)]
pub struct QueryParams {
    inner: Vec<(String, String)>,
}

pub(crate) fn decode_or_keep(s: &str) -> (r: String)
    ensures
        r@ == decoded_or_raw(s@),
{
    match url_decode(s) {
        Some(d) => d,
        None => owned(s),
    }
}

/// Reads a form-encoded component: "+" as a space, then percent-decoding.
fn form_decode(s: &str) -> (r: String)
    ensures
        r@ == form_decoded(s@),
{
    let cs = chars_of(s);
    let mut t = String::new();
    let mut i: usize = 0;
    while i < cs.len()
        invariant
            i <= cs@.len(),
            cs@ == s@,
            t@ == space_for_plus(s@.take(i as int)),
        decreases cs.len() - i,
    {
        let c = if cs[i] == '+' {
            ' '
        } else {
            cs[i]
        };
        push_char(&mut t, c);
        i = i + 1;
        assert(t@ =~= space_for_plus(s@.take(i as int)));
    }
    assert(s@.take(cs@.len() as int) =~= s@);
    decode_or_keep(t.as_str())
}

/// Replaces every "%20" with "+".
pub fn replace_pct20(s: &str) -> (r: String)
    ensures
        r@ == plus_for_space(s@),
{
    let cs = chars_of(s);
    let mut out = String::new();
    let mut i: usize = 0;
    assert(cs@.skip(0) =~= cs@);
    assert(out@ + plus_for_space(cs@) =~= plus_for_space(cs@));
    while i < cs.len()
        invariant
            i <= cs@.len(),
            cs@ == s@,
            plus_for_space(s@) == out@ + plus_for_space(cs@.skip(i as int)),
        decreases cs.len() - i,
    {
        let ghost rest = cs@.skip(i as int);
        if cs.len() - i >= 3 && cs[i] == '%' && cs[i + 1] == '2' && cs[i + 2] == '0' {
            push_char(&mut out, '+');
            assert(rest.skip(3) =~= cs@.skip(i + 3));
            i = i + 3;
        } else {
            push_char(&mut out, cs[i]);
            assert(rest.drop_first() =~= cs@.skip(i + 1));
            i = i + 1;
        }
    }
    assert(cs@.skip(cs@.len() as int) =~= Seq::<char>::empty());
    out
}

fn form_encode(s: &str) -> (r: String)
    ensures
        r@ == form_component(s@),
{
    let e = url_encode(s);
    replace_pct20(e.as_str())
}

impl QueryParams {
    /// The pairs as plain text.
    pub closed spec fn items(&self) -> Params {
        pairs_view(self.inner@)
    }

    /// No parameters.
    pub fn new() -> (q: Self)
        ensures
            q.items().len() == 0,
    {
        QueryParams { inner: Vec::new() }
    }

    /// Exactly the given pairs, in order.
    pub fn from_pairs(pairs: Vec<(String, String)>) -> (q: Self)
        ensures
            q.items() == pairs_view(pairs@),
    {
        QueryParams { inner: pairs }
    }

    /// A copy.
    pub fn copy(&self) -> (q: Self)
        ensures
            q.items() == self.items(),
    {
        QueryParams { inner: clone_pairs(&self.inner) }
    }

    /// Parses a query string: pieces between "&", empty ones skipped, each
    /// split at its first "=", both sides read with "+" as a space and then
    /// percent-decoded (kept as they stand when that fails).
    pub fn from_query_string(query: &str) -> (q: Self)
        ensures
            q.items() == spec_parse_query(query@),
    {
        let cs = chars_of(query);
        let parts = split_bounds(cs.as_slice(), '&', 0, cs.len());
        let ghost sp = split_char(query@, '&');
        assert(cs@.subrange(0, cs@.len() as int) =~= cs@);
        let mut inner: Vec<(String, String)> = Vec::new();
        let mut k: usize = 0;
        while k < parts.len()
            invariant
                k <= parts@.len(),
                parts@.len() == sp.len(),
                sp == split_char(query@, '&'),
                cs@ == query@,
                forall|q: int|
                    0 <= q < parts@.len() ==> 0 <= #[trigger] parts@[q].0 <= parts@[q].1
                        <= cs@.len() && cs@.subrange(parts@[q].0 as int, parts@[q].1 as int)
                        == sp[q],
                pairs_view(inner@) == parse_pieces(sp.take(k as int)),
            decreases parts.len() - k,
        {
            let (s, e) = parts[k];
            assert(sp.take(k + 1).drop_last() =~= sp.take(k as int));
            if s < e {
                let eq = find_from(cs.as_slice(), '=', s, e);
                let ghost piece_view = cs@.subrange(s as int, e as int);
                let (key, value) = if eq < e {
                    let ks = string_of(cs.as_slice(), s, eq);
                    let vs = string_of(cs.as_slice(), eq + 1, e);
                    assert(ks@ == piece_view.take(eq - s));
                    assert(vs@ =~= piece_view.skip(eq - s + 1));
                    (form_decode(ks.as_str()), form_decode(vs.as_str()))
                } else {
                    let ks = string_of(cs.as_slice(), s, e);
                    (form_decode(ks.as_str()), form_decode(""))
                };
                proof {
                    assert(""@ == Seq::<char>::empty()) by {
                        reveal_strlit("");
                    }
                }
                let ghost old_inner = inner@;
                let pair = (key, value);
                inner.push(pair);
                proof {
                    lemma_pairs_view_push(old_inner, pair);
                }
            }
            k = k + 1;
        }
        assert(sp.take(sp.len() as int) =~= sp);
        QueryParams { inner }
    }

    /// Serialises to a query string: "key=value" pieces joined with "&",
    /// each side percent-encoded with spaces as "+".
    pub fn to_query_string(&self) -> (r: String)
        ensures
            r@ == spec_to_query_string(self.items()),
    {
        let ghost items = self.items();
        let mut pieces: Vec<String> = Vec::new();
        let mut i: usize = 0;
        while i < self.inner.len()
            invariant
                i <= self.inner@.len(),
                items == pairs_view(self.inner@),
                strings_view(pieces@) == query_pieces(items).take(i as int),
            decreases self.inner.len() - i,
        {
            let k = form_encode(self.inner[i].0.as_str());
            let v = form_encode(self.inner[i].1.as_str());
            let piece = concat3(k.as_str(), "=", v.as_str());
            let ghost old_p = pieces@;
            pieces.push(piece);
            proof {
                lemma_strings_view_push(old_p, piece);
                assert(query_pieces(items).take(i + 1) =~= query_pieces(items).take(i as int).push(
                    piece@,
                ));
            }
            i = i + 1;
        }
        assert(query_pieces(items).take(self.inner@.len() as int) =~= query_pieces(items));
        crate::text::join_strings(&pieces, "&")
    }

    /// Sets a key: removes its pairs and appends (key, value).
    pub fn set(&mut self, key: &str, value: &str)
        ensures
            final(self).items() == without(old(self).items(), key@).push((key@, value@)),
    {
        self.remove(key);
        self.inner.push((owned(key), owned(value)));
        assert(self.items() =~= without(old(self).items(), key@).push((key@, value@)));
    }

    /// Appends (key, value), keeping existing pairs.
    pub fn add(&mut self, key: &str, value: &str)
        ensures
            final(self).items() == old(self).items().push((key@, value@)),
    {
        self.inner.push((owned(key), owned(value)));
        assert(self.items() =~= old(self).items().push((key@, value@)));
    }

    /// Removes every pair with the key.
    pub fn remove(&mut self, key: &str)
        ensures
            final(self).items() == without(old(self).items(), key@),
    {
        let ghost items = self.items();
        let mut kept: Vec<(String, String)> = Vec::new();
        let mut i: usize = 0;
        while i < self.inner.len()
            invariant
                i <= self.inner@.len(),
                items == pairs_view(self.inner@),
                pairs_view(kept@) == without(items.take(i as int), key@),
            decreases self.inner.len() - i,
        {
            assert(items.take(i + 1).drop_last() =~= items.take(i as int));
            if !str_eq(self.inner[i].0.as_str(), key) {
                let ghost old_k = kept@;
                let pair = (self.inner[i].0.clone(), self.inner[i].1.clone());
                kept.push(pair);
                proof {
                    lemma_pairs_view_push(old_k, pair);
                }
            }
            i = i + 1;
        }
        assert(items.take(self.inner@.len() as int) =~= items);
        self.inner = kept;
    }

    /// Appends all pairs of `other`.
    pub fn merge(&mut self, other: &QueryParams)
        ensures
            final(self).items() == old(self).items() + other.items(),
    {
        let ghost start = self.items();
        let mut i: usize = 0;
        while i < other.inner.len()
            invariant
                i <= other.inner@.len(),
                self.items() == start + other.items().take(i as int),
            decreases other.inner.len() - i,
        {
            let ghost old_i = self.inner@;
            let pair = (other.inner[i].0.clone(), other.inner[i].1.clone());
            self.inner.push(pair);
            proof {
                lemma_pairs_view_push(old_i, pair);
                assert(start + other.items().take(i + 1) =~= (start + other.items().take(
                    i as int,
                )).push(other.items()[i as int]));
            }
            i = i + 1;
        }
        assert(other.items().take(other.inner@.len() as int) =~= other.items());
    }

    /// A new set of parameters with the key set (`set` on a copy).
    pub fn with_set(&self, key: &str, value: &str) -> (q: Self)
        ensures
            q.items() == without(self.items(), key@).push((key@, value@)),
    {
        let mut q = self.copy();
        q.set(key, value);
        q
    }

    /// A new set of parameters with the pair added.
    pub fn with_added(&self, key: &str, value: &str) -> (q: Self)
        ensures
            q.items() == self.items().push((key@, value@)),
    {
        let mut q = self.copy();
        q.add(key, value);
        q
    }

    /// A new set of parameters without the key.
    pub fn with_removed(&self, key: &str) -> (q: Self)
        ensures
            q.items() == without(self.items(), key@),
    {
        let mut q = self.copy();
        q.remove(key);
        q
    }

    /// A new set of parameters merged with `other`: every key of `other`
    /// replaced, then all of `other`'s pairs appended.
    pub fn with_merged(&self, other: &QueryParams) -> (q: Self)
        ensures
            q.items() == merged(self.items(), other.items()) + other.items(),
    {
        let mut q = self.copy();
        let ghost start = q.items();
        let mut i: usize = 0;
        while i < other.inner.len()
            invariant
                i <= other.inner@.len(),
                start == self.items(),
                q.items() == merged(start, other.items().take(i as int)),
            decreases other.inner.len() - i,
        {
            q.remove(other.inner[i].0.as_str());
            assert(other.items().take(i + 1).drop_last() =~= other.items().take(i as int));
            i = i + 1;
        }
        assert(other.items().take(other.inner@.len() as int) =~= other.items());
        q.merge(other);
        q
    }

    /// The first value of the key, or the default.
    pub fn get(&self, key: &str, default: Option<&str>) -> (r: Option<String>)
        ensures
            ({
                let vals = values_for(self.items(), key@);
                if vals.len() > 0 {
                    r matches Some(x) && x@ == vals[0]
                } else {
                    match default {
                        Some(d) => r matches Some(x) && x@ == d@,
                        None => r is None,
                    }
                }
            }),
    {
        let vals = self.get_list(key);
        if vals.len() > 0 {
            Some(vals[0].clone())
        } else {
            match default {
                Some(d) => Some(owned(d)),
                None => None,
            }
        }
    }

    /// `params[key]`: the first value; `None` (a key error) when absent.
    pub fn get_item(&self, key: &str) -> (r: Option<String>)
        ensures
            ({
                let vals = values_for(self.items(), key@);
                if vals.len() > 0 {
                    r matches Some(x) && x@ == vals[0]
                } else {
                    r is None
                }
            }),
    {
        self.get(key, None)
    }

    /// All values of the key, in order.
    pub fn get_list(&self, key: &str) -> (r: Vec<String>)
        ensures
            strings_view(r@) == values_for(self.items(), key@),
    {
        let ghost items = self.items();
        let mut r: Vec<String> = Vec::new();
        let mut i: usize = 0;
        while i < self.inner.len()
            invariant
                i <= self.inner@.len(),
                items == pairs_view(self.inner@),
                strings_view(r@) == values_for(items.take(i as int), key@),
            decreases self.inner.len() - i,
        {
            assert(items.take(i + 1).drop_last() =~= items.take(i as int));
            if str_eq(self.inner[i].0.as_str(), key) {
                let ghost old_r = r@;
                let v = self.inner[i].1.clone();
                r.push(v);
                proof {
                    lemma_strings_view_push(old_r, v);
                }
            }
            i = i + 1;
        }
        assert(items.take(self.inner@.len() as int) =~= items);
        r
    }

    /// Whether the key is present.
    pub fn contains(&self, key: &str) -> (r: bool)
        ensures
            r == has(self.items(), key@),
    {
        let ghost items = self.items();
        let mut i: usize = 0;
        while i < self.inner.len()
            invariant
                i <= self.inner@.len(),
                items == pairs_view(self.inner@),
                forall|j: int| 0 <= j < i ==> #[trigger] items[j].0 != key@,
            decreases self.inner.len() - i,
        {
            if str_eq(self.inner[i].0.as_str(), key) {
                assert(items[i as int].0 == key@);
                return true;
            }
            i = i + 1;
        }
        false
    }

    /// The first pair of each distinct key, in order (`items()`).
    pub fn first_items(&self) -> (r: Vec<(String, String)>)
        ensures
            pairs_view(r@) == firsts(self.items()),
    {
        let ghost items = self.items();
        let mut r: Vec<(String, String)> = Vec::new();
        let mut seen = QueryParams::new();
        let mut i: usize = 0;
        while i < self.inner.len()
            invariant
                i <= self.inner@.len(),
                items == pairs_view(self.inner@),
                pairs_view(r@) == firsts(items.take(i as int)),
                forall|k: Seq<char>| #[trigger] has(seen.items(), k) == has(items.take(i as int), k),
            decreases self.inner.len() - i,
        {
            let k = self.inner[i].0.as_str();
            let dup = seen.contains(k);
            assert(items.take(i + 1).drop_last() =~= items.take(i as int));
            assert(items.take(i + 1).last() == items[i as int]);
            if !dup {
                let ghost old_r = r@;
                let pair = (self.inner[i].0.clone(), self.inner[i].1.clone());
                r.push(pair);
                proof {
                    lemma_pairs_view_push(old_r, pair);
                }
            }
            let ghost old_seen = seen.items();
            seen.add(k, "");
            proof {
                assert forall|kk: Seq<char>| #[trigger] has(seen.items(), kk) == has(
                    items.take(i + 1),
                    kk,
                ) by {
                    lemma_has_push(old_seen, (k@, ""@), kk);
                    lemma_has_push(items.take(i as int), items[i as int], kk);
                    assert(items.take(i + 1) =~= items.take(i as int).push(items[i as int]));
                }
            }
            i = i + 1;
        }
        assert(items.take(self.inner@.len() as int) =~= items);
        r
    }

    /// The distinct keys, in order of first appearance.
    pub fn keys(&self) -> (r: Vec<String>)
        ensures
            strings_view(r@) == firsts(self.items()).map_values(|p: (Seq<char>, Seq<char>)| p.0),
    {
        let f = self.first_items();
        let mut r: Vec<String> = Vec::new();
        let mut i: usize = 0;
        let ghost fv = pairs_view(f@);
        while i < f.len()
            invariant
                i <= f@.len(),
                fv == pairs_view(f@),
                strings_view(r@) == fv.take(i as int).map_values(|p: (Seq<char>, Seq<char>)| p.0),
            decreases f.len() - i,
        {
            let ghost old_r = r@;
            let k = f[i].0.clone();
            r.push(k);
            proof {
                lemma_strings_view_push(old_r, k);
                assert(fv.take(i + 1).map_values(|p: (Seq<char>, Seq<char>)| p.0) =~= fv.take(
                    i as int,
                ).map_values(|p: (Seq<char>, Seq<char>)| p.0).push(k@));
            }
            i = i + 1;
        }
        assert(fv.take(f@.len() as int) =~= fv);
        r
    }

    /// The first value of each distinct key, in key order.
    pub fn values(&self) -> (r: Vec<String>)
        ensures
            strings_view(r@) == firsts(self.items()).map_values(|p: (Seq<char>, Seq<char>)| p.1),
    {
        let f = self.first_items();
        let mut r: Vec<String> = Vec::new();
        let mut i: usize = 0;
        let ghost fv = pairs_view(f@);
        while i < f.len()
            invariant
                i <= f@.len(),
                fv == pairs_view(f@),
                strings_view(r@) == fv.take(i as int).map_values(|p: (Seq<char>, Seq<char>)| p.1),
            decreases f.len() - i,
        {
            let ghost old_r = r@;
            let v = f[i].1.clone();
            r.push(v);
            proof {
                lemma_strings_view_push(old_r, v);
                assert(fv.take(i + 1).map_values(|p: (Seq<char>, Seq<char>)| p.1) =~= fv.take(
                    i as int,
                ).map_values(|p: (Seq<char>, Seq<char>)| p.1).push(v@));
            }
            i = i + 1;
        }
        assert(fv.take(f@.len() as int) =~= fv);
        r
    }

    /// Every pair, in order.
    pub fn multi_items(&self) -> (r: Vec<(String, String)>)
        ensures
            pairs_view(r@) == self.items(),
    {
        clone_pairs(&self.inner)
    }

    /// The number of distinct keys.
    pub fn len(&self) -> (r: usize)
        ensures
            r == firsts(self.items()).len(),
    {
        self.first_items().len()
    }

    /// Equality: the same pairs, each the same number of times, in any order.
    pub fn eq_params(&self, other: &QueryParams) -> (r: bool)
        ensures
            r == (self.items().to_multiset() == other.items().to_multiset()),
    {
        crate::header_compare::same_multiset(&self.inner, &other.inner)
    }

    /// `str(params)`: the query string.
    pub fn to_str(&self) -> (r: String)
        ensures
            r@ == spec_to_query_string(self.items()),
    {
        self.to_query_string()
    }

    /// `repr(params)`: "QueryParams('<query string>')".
    pub fn repr(&self) -> (r: String)
        ensures
            r@ == "QueryParams('"@ + spec_to_query_string(self.items()) + "')"@,
    {
        let qs = self.to_query_string();
        concat3("QueryParams('", qs.as_str(), "')")
    }
}

proof fn lemma_has_push(items: Params, p: (Seq<char>, Seq<char>), k: Seq<char>)
    ensures
        has(items.push(p), k) == (has(items, k) || p.0 == k),
{
    if has(items, k) {
        let i = choose|i: int| 0 <= i < items.len() && #[trigger] items[i].0 == k;
        assert(items.push(p)[i] == items[i]);
    }
    if p.0 == k {
        assert(items.push(p)[items.len() as int] == p);
    }
    if has(items.push(p), k) {
        let i = choose|i: int| 0 <= i < items.push(p).len() && #[trigger] items.push(p)[i].0 == k;
        if i < items.len() {
            assert(items[i] == items.push(p)[i]);
        }
    }
}

} // verus!
