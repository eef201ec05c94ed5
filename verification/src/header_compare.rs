//! Comparing headers (order does not matter, names compare lowercased) and
//! their printed form (credentials masked).
use crate::ci_headers::{lemma_key_index, lookup, put, put_pair};
use crate::headers::{Headers, Items};
use crate::text::{
    concat2, join, join_strings, lemma_strings_view_push, owned, pairs_view, str_eq, str_lower,
    strings_view, to_lower,
};
use vstd::prelude::*;

verus! {

broadcast use vstd::seq_lib::group_to_multiset_ensures;

/// The pairs with lowercased names.
pub open spec fn lowered(items: Items) -> Items {
    items.map_values(|p: (Seq<char>, Seq<char>)| (str_lower(p.0), p.1))
}

/// The mapping the pairs give when each is inserted in turn (a later pair
/// replaces an earlier one with the same name).
pub open spec fn map_of(items: Items) -> Items
    decreases items.len(),
{
    if items.len() == 0 {
        Seq::empty()
    } else {
        put(map_of(items.drop_last()), items.last().0, items.last().1)
    }
}

fn lowered_pairs(v: &Vec<(String, String)>) -> (r: Vec<(String, String)>)
    ensures
        pairs_view(r@) == lowered(pairs_view(v@)),
{
    let ghost src = pairs_view(v@);
    let mut r: Vec<(String, String)> = Vec::new();
    let mut i: usize = 0;
    while i < v.len()
        invariant
            i <= v@.len(),
            src == pairs_view(v@),
            pairs_view(r@) == lowered(src.take(i as int)),
        decreases v.len() - i,
    {
        let k = to_lower(v[i].0.as_str());
        let val = v[i].1.clone();
        let ghost old = r@;
        r.push((k, val));
        proof {
            crate::text::lemma_pairs_view_push(old, r@.last());
            assert(r@.last().0@ == str_lower(src[i as int].0));
            assert(r@.last().1@ == src[i as int].1);
        }
        i = i + 1;
        assert(pairs_view(r@) =~= lowered(src.take(i as int)));
    }
    assert(src.take(v@.len() as int) =~= src);
    r
}

fn pair_eq(a: &(String, String), b: &(String, String)) -> (r: bool)
    ensures
        r == ((a.0@, a.1@) == (b.0@, b.1@)),
{
    str_eq(a.0.as_str(), b.0.as_str()) && str_eq(a.1.as_str(), b.1.as_str())
}

fn find_pair(v: &Vec<(String, String)>, p: &(String, String)) -> (r: Option<usize>)
    ensures
        match r {
            Some(j) => j < v@.len() && pairs_view(v@)[j as int] == (p.0@, p.1@),
            None => !pairs_view(v@).contains((p.0@, p.1@)),
        },
{
    let mut j: usize = 0;
    while j < v.len()
        invariant
            j <= v@.len(),
            forall|q: int| 0 <= q < j ==> #[trigger] pairs_view(v@)[q] != (p.0@, p.1@),
        decreases v.len() - j,
    {
        if pair_eq(&v[j], p) {
            return Some(j);
        }
        j = j + 1;
    }
    None
}

/// Whether two lists hold the same pairs the same number of times.
pub(crate) fn same_multiset(a: &Vec<(String, String)>, b: &Vec<(String, String)>) -> (r: bool)
    ensures
        r == (pairs_view(a@).to_multiset() == pairs_view(b@).to_multiset()),
{
    let ghost av = pairs_view(a@);
    let ghost bv = pairs_view(b@);
    let mut rest = crate::text::clone_pairs(b);
    let mut i: usize = 0;
    while i < a.len()
        invariant
            i <= a@.len(),
            av == pairs_view(a@),
            bv == pairs_view(b@),
            av.take(i as int).to_multiset().add(pairs_view(rest@).to_multiset()) == bv.to_multiset(),
        decreases a.len() - i,
    {
        let ghost x = av[i as int];
        let found = find_pair(&rest, &a[i]);
        assert(av.take(i + 1) =~= av.take(i as int).push(x));
        if found.is_none() {
            proof {
                let rv = pairs_view(rest@);
                assert(!rv.contains(x));
                assert(rv.to_multiset().count(x) == 0);
                vstd::seq_lib::lemma_multiset_commutative(av.take(i + 1), av.skip(i + 1));
                assert(av =~= av.take(i + 1) + av.skip(i + 1));
                assert(av.to_multiset().count(x) >= av.take(i + 1).to_multiset().count(x));
                assert(av.take(i + 1).to_multiset().count(x) == av.take(i as int).to_multiset().count(x) + 1);
                assert(bv.to_multiset().count(x) == av.take(i as int).to_multiset().count(x));
            }
            return false;
        }
        let j = match found {
            Some(j) => j,
            None => 0,
        };
        let ghost before = pairs_view(rest@);
        assert(before[j as int] == x);
        rest.remove(j);
        assert(pairs_view(rest@) =~= before.remove(j as int));
        proof {
            assert(av.take(i + 1).to_multiset().add(pairs_view(rest@).to_multiset()) =~= bv.to_multiset());
        }
        i = i + 1;
    }
    assert(av.take(i as int) =~= av);
    if rest.len() == 0 {
        assert(pairs_view(rest@) =~= Seq::<(Seq<char>, Seq<char>)>::empty());
        assert(av.to_multiset().add(Seq::<(Seq<char>, Seq<char>)>::empty().to_multiset()) =~= av.to_multiset());
        true
    } else {
        proof {
            let rv = pairs_view(rest@);
            assert(rv.to_multiset().len() > 0);
            assert(bv.to_multiset().len() == av.to_multiset().len() + rv.to_multiset().len());
        }
        false
    }
}

/// Compares headers with another list of pairs: equal when both hold the
/// same (lowercased name, value) pairs the same number of times.
pub fn eq_pairs(h: &Headers, other: &Vec<(String, String)>) -> (r: bool)
    ensures
        r == (lowered(h.items()).to_multiset() == lowered(pairs_view(other@)).to_multiset()),
{
    let a = lowered_pairs(h.inner());
    let b = lowered_pairs(other);
    same_multiset(&a, &b)
}

/// Compares two header collections the same way.
pub fn eq_headers(h: &Headers, other: &Headers) -> (r: bool)
    ensures
        r == (lowered(h.items()).to_multiset() == lowered(other.items()).to_multiset()),
{
    eq_pairs(h, other.inner())
}

fn map_pairs(v: &Vec<(String, String)>) -> (r: Vec<(String, String)>)
    ensures
        pairs_view(r@) == map_of(pairs_view(v@)),
{
    let ghost src = pairs_view(v@);
    let mut r: Vec<(String, String)> = Vec::new();
    let mut i: usize = 0;
    while i < v.len()
        invariant
            i <= v@.len(),
            src == pairs_view(v@),
            pairs_view(r@) == map_of(src.take(i as int)),
        decreases v.len() - i,
    {
        put_pair(&mut r, v[i].0.clone(), v[i].1.clone());
        assert(src.take(i + 1).drop_last() =~= src.take(i as int));
        i = i + 1;
    }
    assert(src.take(v@.len() as int) =~= src);
    r
}

fn lookup_in(v: &Vec<(String, String)>, k: &str) -> (r: Option<String>)
    ensures
        match lookup(pairs_view(v@), k@) {
            Some(x) => r matches Some(y) && y@ == x,
            None => r is None,
        },
{
    match crate::ci_headers::position(v, k) {
        Some(i) => Some(v[i].1.clone()),
        None => None,
    }
}

/// Every pair of `a` is what `b` maps its name to.
fn covered(a: &Vec<(String, String)>, b: &Vec<(String, String)>) -> (r: bool)
    ensures
        r == forall|i: int|
            0 <= i < a@.len() ==> lookup(pairs_view(b@), #[trigger] pairs_view(a@)[i].0) == Some(
                pairs_view(a@)[i].1,
            ),
{
    let mut i: usize = 0;
    while i < a.len()
        invariant
            i <= a@.len(),
            forall|q: int|
                0 <= q < i ==> lookup(pairs_view(b@), #[trigger] pairs_view(a@)[q].0) == Some(
                    pairs_view(a@)[q].1,
                ),
        decreases a.len() - i,
    {
        match lookup_in(b, a[i].0.as_str()) {
            Some(v) => {
                if !str_eq(v.as_str(), a[i].1.as_str()) {
                    assert(pairs_view(a@)[i as int].1 == a@[i as int].1@);
                    assert(lookup(pairs_view(b@), pairs_view(a@)[i as int].0) != Some(
                        pairs_view(a@)[i as int].1,
                    ));
                    return false;
                }
            },
            None => {
                assert(pairs_view(a@)[i as int].0 == a@[i as int].0@);
                return false;
            },
        }
        i = i + 1;
    }
    true
}

/// Every name maps to the same value (or to none) in both.
pub open spec fn same_mapping(a: Items, b: Items) -> bool {
    forall|k: Seq<char>| #[trigger] lookup(a, k) == lookup(b, k)
}

proof fn lemma_covered_both(a: Items, b: Items)
    requires
        forall|i: int| 0 <= i < a.len() ==> lookup(b, #[trigger] a[i].0) == Some(a[i].1),
        forall|i: int| 0 <= i < b.len() ==> lookup(a, #[trigger] b[i].0) == Some(b[i].1),
    ensures
        same_mapping(a, b),
{
    assert forall|k: Seq<char>| #[trigger] lookup(a, k) == lookup(b, k) by {
        lemma_key_index(a, k);
        lemma_key_index(b, k);
        match crate::ci_headers::key_index(a, k) {
            Some(i) => {
                assert(a[i].0 == k);
            },
            None => {
                match crate::ci_headers::key_index(b, k) {
                    Some(j) => {
                        assert(b[j].0 == k);
                        assert(lookup(a, b[j].0) == Some(b[j].1));
                    },
                    None => {},
                }
            },
        }
    }
}

proof fn lemma_same_mapping_covers(a: Items, b: Items, i: int)
    requires
        same_mapping(a, b),
        0 <= i < a.len(),
        crate::ci_headers::distinct_keys(a),
    ensures
        lookup(b, a[i].0) == Some(a[i].1),
{
    lemma_key_index(a, a[i].0);
    match crate::ci_headers::key_index(a, a[i].0) {
        Some(m) => {
            if m != i {
                if m < i {
                    assert(a[m].0 != a[i].0);
                } else {
                    assert(a[i].0 != a[m].0);
                }
            }
            assert(lookup(a, a[i].0) == lookup(b, a[i].0));
        },
        None => {
            assert(a[i].0 != a[i].0);
        },
    }
}

proof fn lemma_map_of_distinct(items: Items)
    ensures
        crate::ci_headers::distinct_keys(map_of(items)),
    decreases items.len(),
{
    if items.len() > 0 {
        lemma_map_of_distinct(items.drop_last());
        crate::ci_headers::lemma_put_distinct(map_of(items.drop_last()), items.last().0, items.last().1);
    }
}

/// Compares headers with a mapping: equal when, names lowercased and later
/// pairs replacing earlier ones, both map every name alike.
pub fn eq_mapping(h: &Headers, other: &Vec<(String, String)>) -> (r: bool)
    ensures
        r == same_mapping(map_of(lowered(h.items())), map_of(lowered(pairs_view(other@)))),
{
    let a = map_pairs(&lowered_pairs(h.inner()));
    let b = map_pairs(&lowered_pairs(other));
    let ghost av = pairs_view(a@);
    let ghost bv = pairs_view(b@);
    proof {
        lemma_map_of_distinct(lowered(h.items()));
        lemma_map_of_distinct(lowered(pairs_view(other@)));
    }
    let ab = covered(&a, &b);
    let ba = covered(&b, &a);
    proof {
        if ab && ba {
            lemma_covered_both(av, bv);
        }
        if !ab && same_mapping(av, bv) {
            assert forall|i: int| 0 <= i < av.len() implies lookup(bv, #[trigger] av[i].0) == Some(av[i].1) by {
                lemma_same_mapping_covers(av, bv, i);
            }
        }
        if !ba && same_mapping(av, bv) {
            assert(same_mapping(bv, av));
            assert forall|i: int| 0 <= i < bv.len() implies lookup(av, #[trigger] bv[i].0) == Some(bv[i].1) by {
                lemma_same_mapping_covers(bv, av, i);
            }
        }
    }
    ab && ba
}

// ----- printed form --------------------------------------------------------

/// A value as printed: credentials are masked.
pub open spec fn masked(k: Seq<char>, v: Seq<char>) -> Seq<char> {
    let l = str_lower(k);
    if l == "authorization"@ || l == "proxy-authorization"@ {
        "[secure]"@
    } else {
        v
    }
}

/// `'name': 'value'`.
pub open spec fn dict_entry(p: (Seq<char>, Seq<char>)) -> Seq<char> {
    "'"@ + p.0 + "': '"@ + masked(p.0, p.1) + "'"@
}

/// `('name', 'value')`.
pub open spec fn tuple_entry(p: (Seq<char>, Seq<char>)) -> Seq<char> {
    "('"@ + p.0 + "', '"@ + masked(p.0, p.1) + "')"@
}

/// Whether two pairs have names that lowercase alike.
pub open spec fn has_duplicate_names(items: Items) -> bool {
    exists|i: int, j: int|
        0 <= i < j < items.len() && #[trigger] str_lower(items[i].0) == #[trigger] str_lower(
            items[j].0,
        )
}

/// The printed form: a dict form for headers given as a mapping or without
/// repeated names, else a list of tuples.
pub open spec fn spec_repr(items: Items, from_dict: bool) -> Seq<char> {
    if from_dict || !has_duplicate_names(items) {
        "Headers({"@ + join(items.map_values(|p: (Seq<char>, Seq<char>)| dict_entry(p)), ", "@)
            + "})"@
    } else {
        "Headers(["@ + join(items.map_values(|p: (Seq<char>, Seq<char>)| tuple_entry(p)), ", "@)
            + "])"@
    }
}

fn masked_value(k: &str, v: &str) -> (r: String)
    ensures
        r@ == masked(k@, v@),
{
    let l = to_lower(k);
    if str_eq(l.as_str(), "authorization") || str_eq(l.as_str(), "proxy-authorization") {
        owned("[secure]")
    } else {
        owned(v)
    }
}

fn duplicate_names(v: &Vec<(String, String)>) -> (r: bool)
    ensures
        r == has_duplicate_names(pairs_view(v@)),
{
    let ghost items = pairs_view(v@);
    let lows = lowered_pairs(v);
    assert(lowered(items).len() == items.len());
    assert(pairs_view(lows@).len() == lows@.len());
    let mut j: usize = 0;
    while j < lows.len()
        invariant
            j <= lows@.len(),
            lows@.len() == v@.len(),
            items == pairs_view(v@),
            pairs_view(lows@) == lowered(items),
            forall|a: int, b: int|
                0 <= a < b < j ==> #[trigger] str_lower(items[a].0) != #[trigger] str_lower(items[b].0),
        decreases lows.len() - j,
    {
        let mut i: usize = 0;
        while i < j
            invariant
                i <= j < lows@.len(),
                lows@.len() == v@.len(),
                items == pairs_view(v@),
                pairs_view(lows@) == lowered(items),
                forall|a: int| 0 <= a < i ==> #[trigger] str_lower(items[a].0) != str_lower(items[j as int].0),
            decreases j - i,
        {
            assert(pairs_view(lows@)[i as int].0 == str_lower(items[i as int].0));
            assert(pairs_view(lows@)[j as int].0 == str_lower(items[j as int].0));
            if str_eq(lows[i].0.as_str(), lows[j].0.as_str()) {
                return true;
            }
            i = i + 1;
        }
        j = j + 1;
    }
    false
}

/// The printed form of headers.
pub fn repr(h: &Headers) -> (r: String)
    ensures
        r@ == spec_repr(h.items(), h.spec_from_dict()),
{
    let v = h.inner();
    let ghost items = pairs_view(v@);
    let dict_form = h.from_dict() || !duplicate_names(v);
    let mut pieces: Vec<String> = Vec::new();
    let mut i: usize = 0;
    while i < v.len()
        invariant
            i <= v@.len(),
            items == pairs_view(v@),
            strings_view(pieces@) == if dict_form {
                items.take(i as int).map_values(|p: (Seq<char>, Seq<char>)| dict_entry(p))
            } else {
                items.take(i as int).map_values(|p: (Seq<char>, Seq<char>)| tuple_entry(p))
            },
        decreases v.len() - i,
    {
        let k = v[i].0.as_str();
        let m = masked_value(k, v[i].1.as_str());
        let piece = if dict_form {
            let a = crate::text::concat3("'", k, "': '");
            let b = crate::text::concat3(a.as_str(), m.as_str(), "'");
            b
        } else {
            let a = crate::text::concat3("('", k, "', '");
            let b = crate::text::concat3(a.as_str(), m.as_str(), "')");
            b
        };
        proof {
            lemma_strings_view_push(pieces@, piece);
        }
        pieces.push(piece);
        i = i + 1;
        proof {
            if dict_form {
                assert(strings_view(pieces@) =~= items.take(i as int).map_values(
                    |p: (Seq<char>, Seq<char>)| dict_entry(p),
                ));
            } else {
                assert(strings_view(pieces@) =~= items.take(i as int).map_values(
                    |p: (Seq<char>, Seq<char>)| tuple_entry(p),
                ));
            }
        }
    }
    assert(items.take(v@.len() as int) =~= items);
    let body = join_strings(&pieces, ", ");
    if dict_form {
        let a = concat2("Headers({", body.as_str());
        concat2(a.as_str(), "})")
    } else {
        let a = concat2("Headers([", body.as_str());
        concat2(a.as_str(), "])")
    }
}

} // verus!
