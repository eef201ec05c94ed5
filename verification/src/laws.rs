//! Properties that relate several operations of the library: what a read
//! gives back after a write, what a removal leaves, and how status classes
//! and redirects behave.
use crate::cookies::{filtered, find_entry, set_spec as cookie_set, CookieView, Entries};
use crate::headers::{has_key, set_spec, values_of, without_key, Items};
use crate::queryparams::{has, values_for, without, Params};
use crate::redirect::{is_head, is_post, redirect_method, Method};
use crate::status::{
    spec_is_client_error, spec_is_informational, spec_is_redirect_class, spec_is_server_error,
    spec_is_success,
};
use crate::text::{ascii_text, join, lemma_ascii_lower_idempotent, str_lower};
use vstd::prelude::*;

verus! {

// ----- headers -------------------------------------------------------------

proof fn lemma_values_without(items: Items, kl: Seq<char>)
    ensures
        values_of(without_key(items, kl), kl).len() == 0,
    decreases items.len(),
{
    if items.len() > 0 {
        lemma_values_without(items.drop_last(), kl);
        let w0 = without_key(items.drop_last(), kl);
        assert(w0.push(items.last()).drop_last() =~= w0);
    }
}

/// Law: after `set(k, v)`, `get_all` of any name that lowercases like `k`
/// gives exactly `[v]`, and `get` gives `v`, for every ASCII name `k` (and
/// any other name that lowercasing a second time leaves alone).
pub proof fn law_headers_get_after_set(items: Items, k: Seq<char>, v: Seq<char>, k2: Seq<char>)
    requires
        str_lower(k2) == str_lower(k),
        ascii_text(k) || str_lower(str_lower(k)) == str_lower(k),
    ensures
        values_of(set_spec(items, k, v), str_lower(k2)) == seq![v],
        join(values_of(set_spec(items, k, v), str_lower(k2)), ", "@) == v,
{
    if ascii_text(k) {
        lemma_ascii_lower_idempotent(k);
    }
    lemma_values_without(items, str_lower(k));
    let s = set_spec(items, k, v);
    assert(s.drop_last() == without_key(items, str_lower(k)));
    assert(values_of(s, str_lower(k2)) =~= seq![v]);
}

proof fn lemma_has_key_without(items: Items, kl: Seq<char>)
    ensures
        !has_key(without_key(items, kl), kl),
    decreases items.len(),
{
    if items.len() > 0 {
        lemma_has_key_without(items.drop_last(), kl);
        let w = without_key(items, kl);
        let w0 = without_key(items.drop_last(), kl);
        if str_lower(items.last().0) != kl {
            assert forall|i: int| 0 <= i < w.len() implies str_lower(#[trigger] w[i].0) != kl by {
                if i < w0.len() {
                    assert(w[i] == w0[i]);
                }
            }
        }
    }
}

/// Law: after `remove(k)`, no header with a name that lowercases like `k`
/// is left.
pub proof fn law_headers_absent_after_remove(items: Items, k: Seq<char>)
    ensures
        !has_key(without_key(items, str_lower(k)), str_lower(k)),
{
    lemma_has_key_without(items, str_lower(k));
}

/// Law: `append(k, v)` keeps the earlier values of the name and adds `v`
/// last, for every ASCII name `k` (and any other name that lowercasing a
/// second time leaves alone).
pub proof fn law_headers_append_keeps_values(items: Items, k: Seq<char>, v: Seq<char>)
    requires
        ascii_text(k) || str_lower(str_lower(k)) == str_lower(k),
    ensures
        values_of(items.push((str_lower(k), v)), str_lower(k)) == values_of(items, str_lower(k)).push(
            v,
        ),
{
    if ascii_text(k) {
        lemma_ascii_lower_idempotent(k);
    }
    assert(items.push((str_lower(k), v)).drop_last() =~= items);
}

// ----- query parameters ----------------------------------------------------

proof fn lemma_values_for_without(items: Params, k: Seq<char>)
    ensures
        values_for(without(items, k), k).len() == 0,
    decreases items.len(),
{
    if items.len() > 0 {
        lemma_values_for_without(items.drop_last(), k);
        let w0 = without(items.drop_last(), k);
        assert(w0.push(items.last()).drop_last() =~= w0);
    }
}

/// Law: after `set(k, v)`, the values of `k` are exactly `[v]` (so `get(k)`
/// gives `v`).
pub proof fn law_query_get_after_set(items: Params, k: Seq<char>, v: Seq<char>)
    ensures
        values_for(without(items, k).push((k, v)), k) == seq![v],
{
    lemma_values_for_without(items, k);
    assert(without(items, k).push((k, v)).drop_last() =~= without(items, k));
    assert(values_for(without(items, k).push((k, v)), k) =~= seq![v]);
}

proof fn lemma_has_without(items: Params, k: Seq<char>)
    ensures
        has(without(items, k), k) == false,
    decreases items.len(),
{
    if items.len() > 0 {
        lemma_has_without(items.drop_last(), k);
        let w = without(items, k);
        let w0 = without(items.drop_last(), k);
        if items.last().0 != k {
            assert forall|i: int| 0 <= i < w.len() implies (#[trigger] w[i]).0 != k by {
                if i < w0.len() {
                    assert(w[i] == w0[i]);
                }
            }
        }
    }
}

/// Law: after `remove(k)`, `k` is not contained.
pub proof fn law_query_absent_after_remove(items: Params, k: Seq<char>)
    ensures
        has(without(items, k), k) == false,
{
    lemma_has_without(items, k);
}

/// Law: `add(k, v)` keeps the earlier values of `k` and adds `v` last.
pub proof fn law_query_add_keeps_values(items: Params, k: Seq<char>, v: Seq<char>)
    ensures
        values_for(items.push((k, v)), k) == values_for(items, k).push(v),
{
    assert(items.push((k, v)).drop_last() =~= items);
}

// ----- status codes and redirects ------------------------------------------

/// Law: every status code from 100 to 599 is in exactly one class.
pub proof fn law_status_classes_partition(code: u16)
    requires
        100 <= code < 600,
    ensures
        (spec_is_informational(code) as int) + (spec_is_success(code) as int) + (
        spec_is_redirect_class(code) as int) + (spec_is_client_error(code) as int) + (
        spec_is_server_error(code) as int) == 1,
{
}

/// Law: 307 and 308 redirects keep the method, whatever it is.
pub proof fn law_redirect_307_308_keep_method(m: Method, code: u16)
    requires
        code == 307 || code == 308,
    ensures
        redirect_method(m, code) is None,
{
}

/// Law: after a redirect the method is either kept or becomes GET; it
/// becomes GET exactly for 303 (except HEAD) and for POST under 301 and 302.
pub proof fn law_redirect_method_is_kept_or_get(m: Method, code: u16)
    ensures
        redirect_method(m, code) is None || redirect_method(m, code) == Some(Method::GET),
        redirect_method(m, code) == Some(Method::GET) <==> ((code == 303 && !is_head(m)) || ((code
            == 301 || code == 302) && is_post(m))),
{
}

// ----- cookies -------------------------------------------------------------

/// Whether an entry is the one identified by name, domain and path.
spec fn same_id(e: CookieView, n: Seq<char>, d: Seq<char>, p: Seq<char>) -> bool {
    e.name == n && e.domain == d && e.path == p
}

proof fn lemma_find_entry_facts(es: Entries, n: Seq<char>, d: Seq<char>, p: Seq<char>)
    ensures
        match find_entry(es, n, d, p) {
            Some(i) => 0 <= i < es.len() && same_id(es[i], n, d, p) && forall|j: int|
                0 <= j < i ==> !same_id(#[trigger] es[j], n, d, p),
            None => forall|j: int| 0 <= j < es.len() ==> !same_id(#[trigger] es[j], n, d, p),
        },
    decreases es.len(),
{
    if es.len() > 0 && !same_id(es[0], n, d, p) {
        lemma_find_entry_facts(es.drop_first(), n, d, p);
        match find_entry(es.drop_first(), n, d, p) {
            Some(i) => {
                assert forall|j: int| 0 <= j < i + 1 implies !same_id(#[trigger] es[j], n, d, p) by {
                    if j > 0 {
                        assert(es[j] == es.drop_first()[j - 1]);
                    }
                }
            },
            None => {
                assert forall|j: int| 0 <= j < es.len() implies !same_id(#[trigger] es[j], n, d, p) by {
                    if j > 0 {
                        assert(es[j] == es.drop_first()[j - 1]);
                    }
                }
            },
        }
    }
}

/// The first entry with the identity is what the filter on all three
/// yields first.
proof fn lemma_filtered_first(es: Entries, n: Seq<char>, d: Seq<char>, p: Seq<char>, i: int)
    requires
        0 <= i < es.len(),
        same_id(es[i], n, d, p),
        forall|j: int| 0 <= j < i ==> !same_id(#[trigger] es[j], n, d, p),
    ensures
        filtered(es, Some(n), Some(d), Some(p)).len() > 0,
        filtered(es, Some(n), Some(d), Some(p))[0] == es[i],
    decreases es.len(),
{
    let init = es.drop_last();
    if i < es.len() - 1 {
        assert forall|j: int| 0 <= j < i implies !same_id(#[trigger] init[j], n, d, p) by {
            assert(init[j] == es[j]);
        }
        lemma_filtered_first(init, n, d, p, i);
    } else {
        lemma_filtered_none(init, n, d, p);
    }
}

proof fn lemma_filtered_none(es: Entries, n: Seq<char>, d: Seq<char>, p: Seq<char>)
    requires
        forall|j: int| 0 <= j < es.len() ==> !same_id(#[trigger] es[j], n, d, p),
    ensures
        filtered(es, Some(n), Some(d), Some(p)).len() == 0,
    decreases es.len(),
{
    if es.len() > 0 {
        let init = es.drop_last();
        assert forall|j: int| 0 <= j < init.len() implies !same_id(#[trigger] init[j], n, d, p) by {
            assert(init[j] == es[j]);
        }
        assert(!same_id(es[es.len() - 1], n, d, p));
        lemma_filtered_none(init, n, d, p);
    }
}

/// Law: after setting a cookie for a name, domain and path, looking the name
/// up with that domain and path finds the value just set.
pub proof fn law_cookie_get_after_set(es: Entries, n: Seq<char>, v: Seq<char>, d: Seq<char>, p: Seq<char>)
    ensures
        filtered(cookie_set(es, n, v, d, p), Some(n), Some(d), Some(p)).len() > 0,
        filtered(cookie_set(es, n, v, d, p), Some(n), Some(d), Some(p))[0].value == v,
{
    lemma_find_entry_facts(es, n, d, p);
    let c = CookieView { name: n, value: v, domain: d, path: p };
    match find_entry(es, n, d, p) {
        Some(i) => {
            let t = es.update(i, c);
            assert forall|j: int| 0 <= j < i implies !same_id(#[trigger] t[j], n, d, p) by {
                assert(t[j] == es[j]);
            }
            lemma_filtered_first(t, n, d, p, i);
        },
        None => {
            let t = es.push(c);
            assert forall|j: int| 0 <= j < es.len() implies !same_id(#[trigger] t[j], n, d, p) by {
                assert(t[j] == es[j]);
            }
            lemma_filtered_first(t, n, d, p, es.len() as int);
        },
    }
}

} // verus!
