//! Cookies: a jar of (name, value, domain, path) entries, where a cookie is
//! identified by its name, domain and path, and Set-Cookie header parsing.
use crate::text::{
    chars_of, concat3, find_char, find_from, join, join_strings, lemma_strings_view_push,
    owned, push_str, split_bounds, split_char, str_eq, str_lower, string_of, strings_view, to_lower,
    trim, trim_bounds,
};
use vstd::prelude::*;

verus! {

/// A cookie entry as plain text.
pub struct CookieView {
    pub name: Seq<char>,
    pub value: Seq<char>,
    pub domain: Seq<char>,
    pub path: Seq<char>,
}

/// Internal cookie entry.
#[derive(Debug)]
struct CookieEntry {
    name: String,
    value: String,
    domain: String,
    path: String,
}

/// Plain view of entries.
spec fn entries_view(v: Seq<CookieEntry>) -> Entries {
    v.map_values(|e: CookieEntry| e.view())
}

proof fn lemma_entries_view_push(v: Seq<CookieEntry>, e: CookieEntry)
    ensures
        entries_view(v.push(e)) == entries_view(v).push(e.view()),
{
    assert(entries_view(v.push(e)) =~= entries_view(v).push(e.view()));
}

/// Plain view of cookies.
pub open spec fn cookies_view(v: Seq<Cookie>) -> Entries {
    v.map_values(|c: Cookie| c.view())
}

/// "name=value" of an entry.
pub open spec fn cookie_pair(e: CookieView) -> Seq<char> {
    e.name + "="@ + e.value
}

/// The "Cookie" request header for entries: "name=value" pairs joined by "; ".
pub open spec fn cookie_header(es: Entries) -> Seq<char> {
    join(es.map_values(|e: CookieView| cookie_pair(e)), "; "@)
}

/// The names of pairs.
pub open spec fn pair_names(v: Seq<(String, String)>) -> Seq<Seq<char>> {
    v.map_values(|p: (String, String)| p.0@)
}

impl CookieEntry {
    spec fn view(&self) -> CookieView {
        CookieView { name: self.name@, value: self.value@, domain: self.domain@, path: self.path@ }
    }

    fn copy(&self) -> (r: Self)
        ensures
            r.view() == self.view(),
    {
        CookieEntry {
            name: self.name.clone(),
            value: self.value.clone(),
            domain: self.domain.clone(),
            path: self.path.clone(),
        }
    }
}

/// The jar contents.
pub type Entries = Seq<CookieView>;

/// Index of the entry identified by (name, domain, path).
pub open spec fn find_entry(es: Entries, name: Seq<char>, domain: Seq<char>, path: Seq<char>) -> Option<
    int,
>
    decreases es.len(),
{
    if es.len() == 0 {
        None
    } else if es[0].name == name && es[0].domain == domain && es[0].path == path {
        Some(0)
    } else {
        match find_entry(es.drop_first(), name, domain, path) {
            Some(i) => Some(i + 1),
            None => None,
        }
    }
}

/// Setting a cookie: the entry with the same name, domain and path gets the
/// value; otherwise a new entry is appended.
pub open spec fn set_spec(es: Entries, name: Seq<char>, value: Seq<char>, domain: Seq<char>, path: Seq<
    char,
>) -> Entries {
    match find_entry(es, name, domain, path) {
        Some(i) => es.update(i, CookieView { name, value, domain, path }),
        None => es.push(CookieView { name, value, domain, path }),
    }
}

/// Whether an entry matches a name and the optional domain and path filters.
pub open spec fn matches_filter(
    e: CookieView,
    name: Option<Seq<char>>,
    domain: Option<Seq<char>>,
    path: Option<Seq<char>>,
) -> bool {
    &&& (name matches Some(n) ==> e.name == n)
    &&& (domain matches Some(d) ==> e.domain == d)
    &&& (path matches Some(p) ==> e.path == p)
}

/// The entries matching the filters, in order.
pub open spec fn filtered(
    es: Entries,
    name: Option<Seq<char>>,
    domain: Option<Seq<char>>,
    path: Option<Seq<char>>,
) -> Entries
    decreases es.len(),
{
    if es.len() == 0 {
        Seq::empty()
    } else if matches_filter(es.last(), name, domain, path) {
        filtered(es.drop_last(), name, domain, path).push(es.last())
    } else {
        filtered(es.drop_last(), name, domain, path)
    }
}

/// The entries not matching the filters, in order.
pub open spec fn rejected(
    es: Entries,
    name: Option<Seq<char>>,
    domain: Option<Seq<char>>,
    path: Option<Seq<char>>,
) -> Entries
    decreases es.len(),
{
    if es.len() == 0 {
        Seq::empty()
    } else if matches_filter(es.last(), name, domain, path) {
        rejected(es.drop_last(), name, domain, path)
    } else {
        rejected(es.drop_last(), name, domain, path).push(es.last())
    }
}

/// Distinct names, in order of first appearance.
pub open spec fn unique_names(es: Entries) -> Seq<Seq<char>>
    decreases es.len(),
{
    if es.len() == 0 {
        Seq::empty()
    } else if unique_names(es.drop_last()).contains(es.last().name) {
        unique_names(es.drop_last())
    } else {
        unique_names(es.drop_last()).push(es.last().name)
    }
}

/// The message of a cookie conflict for a name.
pub open spec fn conflict_message(name: Seq<char>) -> Seq<char> {
    "Multiple cookies with name '"@ + name + "' exist for different domains/paths"@
}

/// Errors of cookie lookups.
#[derive(Debug)]
pub enum CookieError {
    /// No cookie with the name (a key error).
    NotFound(String),
    /// Several cookies with the name and no domain or path to tell them apart.
    Conflict(String),
}

/// A single cookie (as iterated from a jar).
#[derive(Debug)]
pub struct Cookie {
    pub name: String,
    pub value: String,
    pub domain: String,
    pub path: String,
}

/// How a cookie is displayed: "<Cookie name=value for domain />", the domain
/// and its space omitted when the domain is empty.
pub open spec fn cookie_repr(e: CookieView) -> Seq<char> {
    "<Cookie "@ + e.name + "="@ + e.value + " for "@ + (if e.domain.len() == 0 {
        Seq::empty()
    } else {
        e.domain + " "@
    }) + "/>"@
}

fn cookie_repr_string(name: &str, value: &str, domain: &str) -> (r: String)
    ensures
        r@ == cookie_repr(CookieView { name: name@, value: value@, domain: domain@, path: Seq::empty() }),
{
    let mut r = concat3("<Cookie ", name, "=");
    push_str(&mut r, value);
    push_str(&mut r, " for ");
    if !domain.is_empty() {
        push_str(&mut r, domain);
        push_str(&mut r, " ");
    }
    push_str(&mut r, "/>");
    r
}

impl Cookie {
    /// The cookie as plain text.
    pub open spec fn view(&self) -> CookieView {
        CookieView { name: self.name@, value: self.value@, domain: self.domain@, path: self.path@ }
    }

    /// `repr(cookie)`.
    pub fn repr(&self) -> (r: String)
        ensures
            r@ == cookie_repr(self.view()),
    {
        cookie_repr_string(self.name.as_str(), self.value.as_str(), self.domain.as_str())
    }
}

/// A jar holding `Cookie` objects, for iteration.
#[derive(Debug)]
pub struct CookieJar {
    pub cookies: Vec<Cookie>,
}

impl CookieJar {
    /// Number of cookies.
    pub fn len(&self) -> (r: usize)
        ensures
            r == self.cookies@.len(),
    {
        self.cookies.len()
    }
}

/// HTTP cookies with domain and path.
#[derive(Debug)]
pub struct Cookies {
    entries: Vec<CookieEntry>,
}

/// The cookie parsed from a Set-Cookie header value, if it has a name: the
/// first `;`-separated part is "name=value" (both trimmed; no "=" means no
/// cookie); of the attributes (name lowercased), "domain" sets the domain
/// without leading dots and "path" the path; the domain defaults to
/// `default_domain` and the path to "/".
pub open spec fn parse_set_cookie(header: Seq<char>, default_domain: Seq<char>) -> Option<CookieView> {
    let parts = split_char(header, ';');
    let first = trim(parts[0]);
    match find_char(first, '=') {
        None => None,
        Some(i) => {
            let (d, p) = apply_attrs(parts.drop_first(), default_domain, "/"@);
            Some(CookieView { name: trim(first.take(i)), value: trim(first.skip(i + 1)), domain: d, path: p })
        },
    }
}

/// An attribute part split into (lowercased trimmed name, trimmed value).
pub open spec fn attr_of(part: Seq<char>) -> (Seq<char>, Seq<char>) {
    let t = trim(part);
    match find_char(t, '=') {
        Some(i) => (str_lower(trim(t.take(i))), trim(t.skip(i + 1))),
        None => (str_lower(t), Seq::empty()),
    }
}

/// `s` without leading dots.
pub open spec fn strip_leading_dots(s: Seq<char>) -> Seq<char>
    decreases s.len(),
{
    if s.len() > 0 && s[0] == '.' {
        strip_leading_dots(s.drop_first())
    } else {
        s
    }
}

/// The domain and path after applying the attributes in order.
pub open spec fn apply_attrs(parts: Seq<Seq<char>>, domain: Seq<char>, path: Seq<char>) -> (Seq<
    char,
>, Seq<char>)
    decreases parts.len(),
{
    if parts.len() == 0 {
        (domain, path)
    } else {
        let (d, p) = apply_attrs(parts.drop_last(), domain, path);
        let (an, av) = attr_of(parts.last());
        if an == "domain"@ {
            (strip_leading_dots(av), p)
        } else if an == "path"@ {
            (d, av)
        } else {
            (d, p)
        }
    }
}

fn leading_dots_end(cs: &[char], from: usize, to: usize) -> (r: usize)
    requires
        from <= to <= cs@.len(),
    ensures
        from <= r <= to,
        strip_leading_dots(cs@.subrange(from as int, to as int)) == cs@.subrange(r as int, to as int),
    decreases to - from,
{
    if from < to && cs[from] == '.' {
        assert(cs@.subrange(from as int, to as int).drop_first() =~= cs@.subrange(
            from + 1,
            to as int,
        ));
        leading_dots_end(cs, from + 1, to)
    } else {
        from
    }
}

/// Splits a part into its attribute name (lowercased) and value.
fn split_attr(cs: &Vec<char>, s: usize, e: usize) -> (r: (String, String))
    requires
        s <= e <= cs@.len(),
    ensures
        (r.0@, r.1@) == attr_of(cs@.subrange(s as int, e as int)),
{
    let (a, b) = trim_bounds(cs.as_slice(), s, e);
    let ghost t = cs@.subrange(a as int, b as int);
    let eq = find_from(cs.as_slice(), '=', a, b);
    if eq < b {
        let (x, y) = trim_bounds(cs.as_slice(), a, eq);
        let (u, v) = trim_bounds(cs.as_slice(), eq + 1, b);
        let n = string_of(cs.as_slice(), x, y);
        assert(cs@.subrange(a as int, eq as int) =~= t.take(eq - a));
        assert(cs@.subrange(eq + 1, b as int) =~= t.skip(eq - a + 1));
        (to_lower(n.as_str()), string_of(cs.as_slice(), u, v))
    } else {
        let n = string_of(cs.as_slice(), a, b);
        proof {
            reveal_strlit("");
        }
        (to_lower(n.as_str()), String::new())
    }
}

impl Cookies {
    /// The entries as plain text.
    pub closed spec fn entries(&self) -> Entries {
        entries_view(self.entries@)
    }

    /// An empty jar.
    pub fn new() -> (c: Self)
        ensures
            c.entries().len() == 0,
    {
        Cookies { entries: Vec::new() }
    }

    /// A copy of the jar.
    pub fn copy(&self) -> (c: Self)
        ensures
            c.entries() == self.entries(),
    {
        let mut v: Vec<CookieEntry> = Vec::new();
        let mut i: usize = 0;
        while i < self.entries.len()
            invariant
                i <= self.entries@.len(),
                entries_view(v@) == self.entries().take(i as int),
            decreases self.entries.len() - i,
        {
            let ghost old_v = v@;
            let e = self.entries[i].copy();
            v.push(e);
            proof {
                lemma_entries_view_push(old_v, e);
            }
            i = i + 1;
            assert(entries_view(v@) =~= self.entries().take(i as int));
        }
        assert(self.entries().take(self.entries@.len() as int) =~= self.entries());
        Cookies { entries: v }
    }

    /// The "Cookie" request header value: "name=value" pairs joined by "; ".
    pub fn to_header_value(&self) -> (r: String)
        ensures
            r@ == cookie_header(self.entries()),
    {
        let ghost es = self.entries();
        let ghost pieces = es.map_values(|e: CookieView| cookie_pair(e));
        let mut v: Vec<String> = Vec::new();
        let mut i: usize = 0;
        while i < self.entries.len()
            invariant
                i <= self.entries@.len(),
                es == self.entries(),
                pieces == es.map_values(|e: CookieView| cookie_pair(e)),
                strings_view(v@) == pieces.take(i as int),
            decreases self.entries.len() - i,
        {
            let p = concat3(self.entries[i].name.as_str(), "=", self.entries[i].value.as_str());
            let ghost old_v = v@;
            v.push(p);
            proof {
                lemma_strings_view_push(old_v, p);
                assert(pieces.take(i + 1) =~= pieces.take(i as int).push(p@));
            }
            i = i + 1;
        }
        assert(pieces.take(self.entries@.len() as int) =~= pieces);
        let r = join_strings(&v, "; ");
        assert(r@ == cookie_header(es));
        r
    }

    /// Sets a cookie with the default domain "" and path "/".
    pub fn set(&mut self, name: &str, value: &str)
        ensures
            final(self).entries() == set_spec(old(self).entries(), name@, value@, ""@, "/"@),
    {
        self.set_with_domain_path(name, value, "", "/");
    }

    /// Sets a cookie: updates the entry with the same name, domain and path,
    /// or appends a new one.
    pub fn set_with_domain_path(&mut self, name: &str, value: &str, domain: &str, path: &str)
        ensures
            final(self).entries() == set_spec(old(self).entries(), name@, value@, domain@, path@),
    {
        let ghost es = self.entries();
        let mut i: usize = 0;
        while i < self.entries.len()
            invariant
                i <= self.entries@.len(),
                es == self.entries(),
                es == old(self).entries(),
                forall|j: int| 0 <= j < i ==> !(#[trigger] es[j].name == name@ && es[j].domain == domain@ && es[j].path == path@),
            decreases self.entries.len() - i,
        {
            let e = &self.entries[i];
            if str_eq(e.name.as_str(), name) && str_eq(e.domain.as_str(), domain) && str_eq(
                e.path.as_str(),
                path,
            ) {
                let ghost old_entries = self.entries@;
                let updated = CookieEntry {
                    name: owned(name),
                    value: owned(value),
                    domain: owned(domain),
                    path: owned(path),
                };
                self.entries.set(i, updated);
                proof {
                    lemma_find_entry(es, i as int, name@, domain@, path@);
                    assert(entries_view(self.entries@) =~= entries_view(old_entries).update(
                        i as int,
                        CookieView { name: name@, value: value@, domain: domain@, path: path@ },
                    ));
                }
                return;
            }
            i = i + 1;
        }
        proof {
            lemma_find_entry(es, es.len() as int, name@, domain@, path@);
        }
        let ghost old_entries = self.entries@;
        self.entries.push(
            CookieEntry { name: owned(name), value: owned(value), domain: owned(domain), path: owned(path) },
        );
        assert(self.entries() =~= es.push(
            CookieView { name: name@, value: value@, domain: domain@, path: path@ },
        ));
    }

    fn entry_matches(e: &CookieEntry, name: Option<&str>, domain: Option<&str>, path: Option<&str>) -> (r: bool)
        ensures
            r == matches_filter(e.view(), opt_view(name), opt_view(domain), opt_view(path)),
    {
        let n_ok = match name {
            Some(n) => str_eq(e.name.as_str(), n),
            None => true,
        };
        let d_ok = match domain {
            Some(d) => str_eq(e.domain.as_str(), d),
            None => true,
        };
        let p_ok = match path {
            Some(p) => str_eq(e.path.as_str(), p),
            None => true,
        };
        n_ok && d_ok && p_ok
    }

    fn select(&self, name: Option<&str>, domain: Option<&str>, path: Option<&str>, keep_matching: bool) -> (r: Vec<CookieEntry>)
        ensures
            entries_view(r@) == if keep_matching {
                filtered(self.entries(), opt_view(name), opt_view(domain), opt_view(path))
            } else {
                rejected(self.entries(), opt_view(name), opt_view(domain), opt_view(path))
            },
    {
        let ghost es = self.entries();
        let ghost (n, d, p) = (opt_view(name), opt_view(domain), opt_view(path));
        let mut out: Vec<CookieEntry> = Vec::new();
        let mut i: usize = 0;
        while i < self.entries.len()
            invariant
                i <= self.entries@.len(),
                es == self.entries(),
                n == opt_view(name),
                d == opt_view(domain),
                p == opt_view(path),
                entries_view(out@) == if keep_matching {
                    filtered(es.take(i as int), n, d, p)
                } else {
                    rejected(es.take(i as int), n, d, p)
                },
            decreases self.entries.len() - i,
        {
            assert(es.take(i + 1).drop_last() =~= es.take(i as int));
            assert(es.take(i + 1).last() == es[i as int]);
            let m = Self::entry_matches(&self.entries[i], name, domain, path);
            if m == keep_matching {
                let ghost old_out = out@;
                let e = self.entries[i].copy();
                out.push(e);
                proof {
                    lemma_entries_view_push(old_out, e);
                }
            }
            i = i + 1;
        }
        assert(es.take(self.entries@.len() as int) =~= es);
        out
    }

    /// The value of a cookie; with several matches and no domain or path
    /// given, a conflict; with filters, the first match; the default when
    /// none matches.
    pub fn get(&self, name: &str, default: Option<&str>, domain: Option<&str>, path: Option<&str>) -> (r: Result<Option<String>, CookieError>)
        ensures
            ({
                let m = filtered(self.entries(), Some(name@), opt_view(domain), opt_view(path));
                if m.len() == 0 {
                    match default {
                        Some(dv) => r matches Ok(Some(x)) && x@ == dv@,
                        None => r matches Ok(None),
                    }
                } else if m.len() == 1 || domain.is_some() || path.is_some() {
                    r matches Ok(Some(x)) && x@ == m[0].value
                } else {
                    r matches Err(CookieError::Conflict(msg)) && msg@ == conflict_message(name@)
                }
            }),
    {
        let m = self.select(Some(name), domain, path, true);
        if m.len() == 0 {
            Ok(
                match default {
                    Some(dv) => Some(owned(dv)),
                    None => None,
                },
            )
        } else if m.len() == 1 || domain.is_some() || path.is_some() {
            Ok(Some(m[0].value.clone()))
        } else {
            Err(CookieError::Conflict(conflict(name)))
        }
    }

    /// `cookies.set(name, value, domain=None, path=None)`: domain defaults to
    /// "" and path to "/".
    pub fn set_py(&mut self, name: &str, value: &str, domain: Option<&str>, path: Option<&str>)
        ensures
            final(self).entries() == set_spec(
                old(self).entries(),
                name@,
                value@,
                match domain {
                    Some(d) => d@,
                    None => ""@,
                },
                match path {
                    Some(p) => p@,
                    None => "/"@,
                },
            ),
    {
        let d = match domain {
            Some(d) => d,
            None => "",
        };
        let p = match path {
            Some(p) => p,
            None => "/",
        };
        self.set_with_domain_path(name, value, d, p);
    }

    /// Deletes the cookies with the name and the given domain and path (when
    /// given).
    pub fn delete(&mut self, name: &str, domain: Option<&str>, path: Option<&str>)
        ensures
            final(self).entries() == rejected(old(self).entries(), Some(name@), opt_view(domain), opt_view(path)),
    {
        self.entries = self.select(Some(name), domain, path, false);
    }

    /// Clears the jar; with a domain and/or path, only the cookies that match
    /// them.
    pub fn clear(&mut self, domain: Option<&str>, path: Option<&str>)
        ensures
            final(self).entries() == rejected(old(self).entries(), None, opt_view(domain), opt_view(path)),
    {
        self.entries = self.select(None, domain, path, false);
        proof {
            if domain.is_none() && path.is_none() {
                lemma_rejected_all(old(self).entries());
            }
        }
    }

    /// The distinct names, in order of first appearance.
    pub fn keys(&self) -> (r: Vec<String>)
        ensures
            strings_view(r@) == unique_names(self.entries()),
    {
        let ghost es = self.entries();
        let mut r: Vec<String> = Vec::new();
        let mut i: usize = 0;
        while i < self.entries.len()
            invariant
                i <= self.entries@.len(),
                es == self.entries(),
                strings_view(r@) == unique_names(es.take(i as int)),
            decreases self.entries.len() - i,
        {
            assert(es.take(i + 1).drop_last() =~= es.take(i as int));
            assert(es.take(i + 1).last() == es[i as int]);
            if !contains_str(&r, self.entries[i].name.as_str()) {
                let ghost old_r = r@;
                let n = self.entries[i].name.clone();
                r.push(n);
                proof {
                    lemma_strings_view_push(old_r, n);
                }
            }
            i = i + 1;
        }
        assert(es.take(self.entries@.len() as int) =~= es);
        r
    }

    /// All values, in order.
    pub fn values(&self) -> (r: Vec<String>)
        ensures
            strings_view(r@) == self.entries().map_values(|e: CookieView| e.value),
    {
        let mut r: Vec<String> = Vec::new();
        let mut i: usize = 0;
        while i < self.entries.len()
            invariant
                i <= self.entries@.len(),
                strings_view(r@) == self.entries().take(i as int).map_values(|e: CookieView| e.value),
            decreases self.entries.len() - i,
        {
            let ghost old_r = r@;
            let v = self.entries[i].value.clone();
            r.push(v);
            proof {
                lemma_strings_view_push(old_r, v);
                assert(self.entries().take(i + 1).map_values(|e: CookieView| e.value) =~= self.entries().take(
                    i as int,
                ).map_values(|e: CookieView| e.value).push(v@));
            }
            i = i + 1;
        }
        assert(self.entries().take(self.entries@.len() as int) =~= self.entries());
        r
    }

    /// All (name, value) pairs, in order.
    pub fn items(&self) -> (r: Vec<(String, String)>)
        ensures
            crate::text::pairs_view(r@) == self.entries().map_values(|e: CookieView| (e.name, e.value)),
    {
        let mut r: Vec<(String, String)> = Vec::new();
        let mut i: usize = 0;
        while i < self.entries.len()
            invariant
                i <= self.entries@.len(),
                crate::text::pairs_view(r@) == self.entries().take(i as int).map_values(
                    |e: CookieView| (e.name, e.value),
                ),
            decreases self.entries.len() - i,
        {
            let ghost old_r = r@;
            let pair = (self.entries[i].name.clone(), self.entries[i].value.clone());
            r.push(pair);
            proof {
                crate::text::lemma_pairs_view_push(old_r, pair);
                assert(self.entries().take(i + 1).map_values(|e: CookieView| (e.name, e.value))
                    =~= self.entries().take(i as int).map_values(|e: CookieView| (e.name, e.value)).push(
                    (pair.0@, pair.1@),
                ));
            }
            i = i + 1;
        }
        assert(self.entries().take(self.entries@.len() as int) =~= self.entries());
        r
    }

    /// The name-to-value mapping: each distinct name (first appearance order)
    /// with the value of its last entry.
    pub fn inner(&self) -> (r: Vec<(String, String)>)
        ensures
            pair_names(r@) == unique_names(self.entries()),
            forall|j: int|
                0 <= j < r@.len() ==> (#[trigger] r@[j]).1@ == last_value(self.entries(), r@[j].0@),
    {
        let names = self.keys();
        let mut r: Vec<(String, String)> = Vec::new();
        let mut j: usize = 0;
        while j < names.len()
            invariant
                j <= names@.len(),
                strings_view(names@) == unique_names(self.entries()),
                pair_names(r@) == strings_view(names@).take(j as int),
                forall|q: int|
                    0 <= q < r@.len() ==> (#[trigger] r@[q]).1@ == last_value(self.entries(), r@[q].0@),
            decreases names.len() - j,
        {
            let v = self.last_value_of(names[j].as_str());
            let ghost old_r = r@;
            let nm = names[j].clone();
            r.push((nm, v));
            proof {
                assert(pair_names(r@) =~= pair_names(old_r).push(nm@));
                assert(pair_names(r@) =~= strings_view(names@).take(j + 1));
            }
            j = j + 1;
        }
        assert(strings_view(names@).take(names@.len() as int) =~= strings_view(names@));
        r
    }

    fn last_value_of(&self, name: &str) -> (r: String)
        ensures
            r@ == last_value(self.entries(), name@),
    {
        let ghost es = self.entries();
        let mut r = String::new();
        let mut i: usize = 0;
        while i < self.entries.len()
            invariant
                i <= self.entries@.len(),
                es == self.entries(),
                r@ == last_value(es.take(i as int), name@),
            decreases self.entries.len() - i,
        {
            assert(es.take(i + 1).drop_last() =~= es.take(i as int));
            if str_eq(self.entries[i].name.as_str(), name) {
                r = self.entries[i].value.clone();
            }
            i = i + 1;
        }
        assert(es.take(self.entries@.len() as int) =~= es);
        r
    }

    /// `cookies[name]`: the value when exactly one cookie has the name; a key
    /// error when none does; a conflict when several do.
    pub fn get_item(&self, name: &str) -> (r: Result<String, CookieError>)
        ensures
            ({
                let m = filtered(self.entries(), Some(name@), None, None);
                if m.len() == 0 {
                    r matches Err(CookieError::NotFound(k)) && k@ == name@
                } else if m.len() == 1 {
                    r matches Ok(x) && x@ == m[0].value
                } else {
                    r matches Err(CookieError::Conflict(msg)) && msg@ == conflict_message(name@)
                }
            }),
    {
        let m = self.select(Some(name), None, None, true);
        if m.len() == 0 {
            Err(CookieError::NotFound(owned(name)))
        } else if m.len() == 1 {
            Ok(m[0].value.clone())
        } else {
            Err(CookieError::Conflict(conflict(name)))
        }
    }

    /// `cookies[name] = value`: sets with the default domain and path.
    pub fn set_item(&mut self, name: &str, value: &str)
        ensures
            final(self).entries() == set_spec(old(self).entries(), name@, value@, ""@, "/"@),
    {
        self.set(name, value)
    }

    /// `del cookies[name]`: removes every cookie with the name; `false` (a key
    /// error) when there was none.
    pub fn del_item(&mut self, name: &str) -> (r: bool)
        ensures
            final(self).entries() == rejected(old(self).entries(), Some(name@), None, None),
            r == (filtered(old(self).entries(), Some(name@), None, None).len() > 0),
    {
        let found = self.select(Some(name), None, None, true).len() > 0;
        self.entries = self.select(Some(name), None, None, false);
        found
    }

    /// Whether a cookie has the name.
    pub fn contains(&self, name: &str) -> (r: bool)
        ensures
            r == (filtered(self.entries(), Some(name@), None, None).len() > 0),
    {
        self.select(Some(name), None, None, true).len() > 0
    }

    /// The number of cookies (entries).
    pub fn len(&self) -> (r: usize)
        ensures
            r == self.entries().len(),
    {
        self.entries.len()
    }

    /// Whether the jar has any cookie.
    pub fn is_nonempty(&self) -> (r: bool)
        ensures
            r == (self.entries().len() > 0),
    {
        self.entries.len() > 0
    }

    fn has_entry(&self, e: &CookieEntry) -> (r: bool)
        ensures
            r == self.entries().contains(e.view()),
    {
        let mut i: usize = 0;
        while i < self.entries.len()
            invariant
                i <= self.entries@.len(),
                forall|j: int| 0 <= j < i ==> self.entries()[j] != e.view(),
            decreases self.entries.len() - i,
        {
            let x = &self.entries[i];
            if str_eq(x.name.as_str(), e.name.as_str()) && str_eq(x.value.as_str(), e.value.as_str())
                && str_eq(x.domain.as_str(), e.domain.as_str()) && str_eq(x.path.as_str(), e.path.as_str()) {
                assert(self.entries()[i as int] == e.view());
                return true;
            }
            i = i + 1;
        }
        false
    }

    /// Equality with another jar: the same number of entries and every entry
    /// of this jar present in the other (order ignored).
    pub fn eq_cookies(&self, other: &Cookies) -> (r: bool)
        ensures
            r == (self.entries().len() == other.entries().len() && forall|j: int|
                0 <= j < self.entries().len() ==> other.entries().contains(#[trigger] self.entries()[j])),
    {
        if self.entries.len() != other.entries.len() {
            return false;
        }
        let mut i: usize = 0;
        while i < self.entries.len()
            invariant
                i <= self.entries@.len(),
                forall|j: int| 0 <= j < i ==> other.entries().contains(#[trigger] self.entries()[j]),
            decreases self.entries.len() - i,
        {
            if !other.has_entry(&self.entries[i]) {
                assert(!other.entries().contains(self.entries()[i as int]));
                return false;
            }
            i = i + 1;
        }
        true
    }

    /// `repr(cookies)`: "<Cookies[" and each cookie's repr joined by ", ", "]>".
    pub fn repr(&self) -> (r: String)
        ensures
            r@ == "<Cookies["@ + join(self.entries().map_values(|e: CookieView| cookie_repr(e)), ", "@) + "]>"@,
    {
        let ghost pieces = self.entries().map_values(|e: CookieView| cookie_repr(e));
        let mut v: Vec<String> = Vec::new();
        let mut i: usize = 0;
        while i < self.entries.len()
            invariant
                i <= self.entries@.len(),
                pieces == self.entries().map_values(|e: CookieView| cookie_repr(e)),
                strings_view(v@) == pieces.take(i as int),
            decreases self.entries.len() - i,
        {
            let e = &self.entries[i];
            let s = cookie_repr_string(e.name.as_str(), e.value.as_str(), e.domain.as_str());
            let ghost old_v = v@;
            v.push(s);
            proof {
                lemma_strings_view_push(old_v, s);
                assert(pieces.take(i + 1) =~= pieces.take(i as int).push(s@));
            }
            i = i + 1;
        }
        assert(pieces.take(self.entries@.len() as int) =~= pieces);
        let body = join_strings(&v, ", ");
        concat3("<Cookies[", body.as_str(), "]>")
    }

    /// `update(pairs)`: sets each pair with the default domain and path.
    pub fn update_pairs(&mut self, pairs: &Vec<(String, String)>)
        ensures
            final(self).entries() == set_all_spec(old(self).entries(), crate::text::pairs_view(pairs@)),
    {
        let ghost start = self.entries();
        let ghost pv = crate::text::pairs_view(pairs@);
        let mut i: usize = 0;
        while i < pairs.len()
            invariant
                i <= pairs@.len(),
                pv == crate::text::pairs_view(pairs@),
                self.entries() == set_all_spec(start, pv.take(i as int)),
            decreases pairs.len() - i,
        {
            self.set(pairs[i].0.as_str(), pairs[i].1.as_str());
            assert(pv.take(i + 1).drop_last() =~= pv.take(i as int));
            i = i + 1;
        }
        assert(pv.take(pairs@.len() as int) =~= pv);
    }

    /// `update(other_cookies)`: sets each entry of the other jar, keeping its
    /// domain and path.
    pub fn update_cookies(&mut self, other: &Cookies)
        ensures
            final(self).entries() == set_entries_spec(old(self).entries(), other.entries()),
    {
        let ghost start = self.entries();
        let mut i: usize = 0;
        while i < other.entries.len()
            invariant
                i <= other.entries@.len(),
                self.entries() == set_entries_spec(start, other.entries().take(i as int)),
            decreases other.entries.len() - i,
        {
            let e = &other.entries[i];
            self.set_with_domain_path(e.name.as_str(), e.value.as_str(), e.domain.as_str(), e.path.as_str());
            assert(other.entries().take(i + 1).drop_last() =~= other.entries().take(i as int));
            i = i + 1;
        }
        assert(other.entries().take(other.entries@.len() as int) =~= other.entries());
    }

    /// The jar of `Cookie` objects, in order.
    pub fn jar(&self) -> (r: CookieJar)
        ensures
            cookies_view(r.cookies@) == self.entries(),
    {
        let mut v: Vec<Cookie> = Vec::new();
        let mut i: usize = 0;
        while i < self.entries.len()
            invariant
                i <= self.entries@.len(),
                cookies_view(v@) == self.entries().take(i as int),
            decreases self.entries.len() - i,
        {
            let e = &self.entries[i];
            let ghost old_v = v@;
            let c = Cookie { name: e.name.clone(), value: e.value.clone(), domain: e.domain.clone(), path: e.path.clone() };
            v.push(c);
            assert(cookies_view(v@) =~= cookies_view(old_v).push(c.view()));
            assert(cookies_view(v@) =~= self.entries().take(i + 1));
            i = i + 1;
        }
        assert(self.entries().take(self.entries@.len() as int) =~= self.entries());
        CookieJar { cookies: v }
    }

    /// Parses a Set-Cookie header and stores the cookie (when it has a name),
    /// with `default_domain` as the domain unless the header gives one.
    pub fn parse_set_cookie(&mut self, cookie_str: &str, default_domain: &str)
        ensures
            match parse_set_cookie(cookie_str@, default_domain@) {
                Some(c) => final(self).entries() == set_spec(old(self).entries(), c.name, c.value, c.domain, c.path),
                None => final(self).entries() == old(self).entries(),
            },
    {
        let cs = chars_of(cookie_str);
        let parts = split_bounds(cs.as_slice(), ';', 0, cs.len());
        let ghost sp = split_char(cookie_str@, ';');
        assert(cs@.subrange(0, cs@.len() as int) =~= cs@);
        proof {
            crate::text::lemma_split_nonempty(cookie_str@, ';');
        }
        let (s0, e0) = parts[0];
        let (a, b) = trim_bounds(cs.as_slice(), s0, e0);
        let ghost first = cs@.subrange(a as int, b as int);
        let eq = find_from(cs.as_slice(), '=', a, b);
        if eq >= b {
            return;
        }
        let (nx, ny) = trim_bounds(cs.as_slice(), a, eq);
        let (vx, vy) = trim_bounds(cs.as_slice(), eq + 1, b);
        assert(cs@.subrange(a as int, eq as int) =~= first.take(eq - a));
        assert(cs@.subrange(eq + 1, b as int) =~= first.skip(eq - a + 1));
        let name = string_of(cs.as_slice(), nx, ny);
        let value = string_of(cs.as_slice(), vx, vy);
        let mut domain = owned(default_domain);
        let mut path = owned("/");
        let mut k: usize = 1;
        while k < parts.len()
            invariant
                1 <= k <= parts@.len(),
                parts@.len() == sp.len(),
                sp == split_char(cookie_str@, ';'),
                cs@ == cookie_str@,
                forall|q: int|
                    0 <= q < parts@.len() ==> 0 <= #[trigger] parts@[q].0 <= parts@[q].1
                        <= cs@.len() && cs@.subrange(parts@[q].0 as int, parts@[q].1 as int)
                        == sp[q],
                (domain@, path@) == apply_attrs(sp.drop_first().take(k - 1), default_domain@, "/"@),
            decreases parts.len() - k,
        {
            let (s, e) = parts[k];
            let (an, av) = split_attr(&cs, s, e);
            assert(sp.drop_first().take(k as int).drop_last() =~= sp.drop_first().take(k - 1));
            assert(sp.drop_first().take(k as int).last() == sp[k as int]);
            if str_eq(an.as_str(), "domain") {
                let vcs = chars_of(av.as_str());
                let st = leading_dots_end(vcs.as_slice(), 0, vcs.len());
                assert(vcs@.subrange(0, vcs@.len() as int) =~= vcs@);
                domain = string_of(vcs.as_slice(), st, vcs.len());
            } else if str_eq(an.as_str(), "path") {
                path = av;
            }
            k = k + 1;
        }
        assert(sp.drop_first().take(sp.len() - 1) =~= sp.drop_first());
        self.set_with_domain_path(name.as_str(), value.as_str(), domain.as_str(), path.as_str());
    }

    /// The cookies of a response's Set-Cookie header as the response exposes
    /// them: only the first "name=value" (both trimmed) of the header, with
    /// the default domain and path.
    pub fn from_set_cookie_header(header: Option<&str>) -> (r: Self)
        ensures
            match header {
                None => r.entries().len() == 0,
                Some(h) => match first_pair(split_char(h@, ';'), 0) {
                    Some((n, v)) => r.entries() == seq![CookieView { name: n, value: v, domain: ""@, path: "/"@ }],
                    None => r.entries().len() == 0,
                },
            },
    {
        let mut c = Cookies::new();
        match header {
            None => {},
            Some(h) => {
                let cs = chars_of(h);
                let parts = split_bounds(cs.as_slice(), ';', 0, cs.len());
                let ghost sp = split_char(h@, ';');
                assert(cs@.subrange(0, cs@.len() as int) =~= cs@);
                let mut k: usize = 0;
                while k < parts.len()
                    invariant
                        k <= parts@.len(),
                        parts@.len() == sp.len(),
                        sp == split_char(h@, ';'),
                        cs@ == h@,
                        c.entries().len() == 0,
                        forall|q: int|
                            0 <= q < parts@.len() ==> 0 <= #[trigger] parts@[q].0 <= parts@[q].1
                                <= cs@.len() && cs@.subrange(parts@[q].0 as int, parts@[q].1 as int)
                                == sp[q],
                        first_pair(sp, 0) == first_pair(sp, k as int),
                        header == Some(h),
                    decreases parts.len() - k,
                {
                    let (s, e) = parts[k];
                    let (a, b) = trim_bounds(cs.as_slice(), s, e);
                    let ghost t = cs@.subrange(a as int, b as int);
                    let eq = find_from(cs.as_slice(), '=', a, b);
                    assert(t == trim(sp[k as int]));
                    if eq < b {
                        let (nx, ny) = trim_bounds(cs.as_slice(), a, eq);
                        let (vx, vy) = trim_bounds(cs.as_slice(), eq + 1, b);
                        assert(cs@.subrange(a as int, eq as int) =~= t.take(eq - a));
                        assert(cs@.subrange(eq + 1, b as int) =~= t.skip(eq - a + 1));
                        let n = string_of(cs.as_slice(), nx, ny);
                        let v = string_of(cs.as_slice(), vx, vy);
                        c.set(n.as_str(), v.as_str());
                        assert(first_pair(sp, k as int) == Some((n@, v@)));
                        assert(c.entries() =~= seq![CookieView { name: n@, value: v@, domain: ""@, path: "/"@ }]);
                        return c;
                    }
                    assert(first_pair(sp, k as int) == first_pair(sp, k + 1));
                    k = k + 1;
                }
            },
        }
        c
    }
}

/// The first "name=value" among the parts from index `k` (trimmed, split at
/// the first "=", both sides trimmed).
pub open spec fn first_pair(parts: Seq<Seq<char>>, k: int) -> Option<(Seq<char>, Seq<char>)>
    decreases parts.len() - k,
{
    if k < 0 || k >= parts.len() {
        None
    } else {
        let t = trim(parts[k]);
        match find_char(t, '=') {
            Some(i) => Some((trim(t.take(i)), trim(t.skip(i + 1)))),
            None => first_pair(parts, k + 1),
        }
    }
}

/// The value of the last entry with the name ("" when none).
pub open spec fn last_value(es: Entries, name: Seq<char>) -> Seq<char>
    decreases es.len(),
{
    if es.len() == 0 {
        Seq::empty()
    } else if es.last().name == name {
        es.last().value
    } else {
        last_value(es.drop_last(), name)
    }
}

/// Pairs set one after another with the default domain and path.
pub open spec fn set_all_spec(es: Entries, pairs: Seq<(Seq<char>, Seq<char>)>) -> Entries
    decreases pairs.len(),
{
    if pairs.len() == 0 {
        es
    } else {
        let prev = set_all_spec(es, pairs.drop_last());
        set_spec(prev, pairs.last().0, pairs.last().1, ""@, "/"@)
    }
}

/// Entries set one after another, keeping their domain and path.
pub open spec fn set_entries_spec(es: Entries, other: Entries) -> Entries
    decreases other.len(),
{
    if other.len() == 0 {
        es
    } else {
        let prev = set_entries_spec(es, other.drop_last());
        let o = other.last();
        set_spec(prev, o.name, o.value, o.domain, o.path)
    }
}

/// Plain view of an optional string.
pub open spec fn opt_view(s: Option<&str>) -> Option<Seq<char>> {
    match s {
        Some(x) => Some(x@),
        None => None,
    }
}

/// Whether an attribute part of a Set-Cookie header is named `attr`
/// (case-insensitively, spaces around the name ignored).
pub open spec fn names_attr(part: Seq<char>, attr: Seq<char>) -> bool {
    attr_of(part).0 == attr
}

/// Whether `parts[i]` is the last of `parts` named `attr`.
pub open spec fn last_named(parts: Seq<Seq<char>>, attr: Seq<char>, i: int) -> bool {
    &&& 0 <= i < parts.len()
    &&& names_attr(parts[i], attr)
    &&& forall|j: int| i < j < parts.len() ==> !names_attr(#[trigger] parts[j], attr)
}

proof fn lemma_apply_attrs(parts: Seq<Seq<char>>, domain: Seq<char>, path: Seq<char>)
    ensures
        (forall|i: int| 0 <= i < parts.len() ==> !names_attr(#[trigger] parts[i], "domain"@))
            ==> apply_attrs(parts, domain, path).0 == domain,
        (forall|i: int| 0 <= i < parts.len() ==> !names_attr(#[trigger] parts[i], "path"@))
            ==> apply_attrs(parts, domain, path).1 == path,
        forall|i: int| #[trigger]
            last_named(parts, "domain"@, i) ==> apply_attrs(parts, domain, path).0
                == strip_leading_dots(attr_of(parts[i]).1),
        forall|i: int| #[trigger]
            last_named(parts, "path"@, i) ==> apply_attrs(parts, domain, path).1 == attr_of(
                parts[i],
            ).1,
    decreases parts.len(),
{
    reveal_strlit("domain");
    reveal_strlit("path");
    if parts.len() > 0 {
        let init = parts.drop_last();
        lemma_apply_attrs(init, domain, path);
        let n = parts.len() - 1;
        assert forall|i: int| #[trigger] last_named(parts, "domain"@, i) && i < n implies last_named(
            init,
            "domain"@,
            i,
        ) by {
            assert forall|j: int| i < j < init.len() implies !names_attr(#[trigger] init[j], "domain"@) by {
                assert(init[j] == parts[j]);
            }
        }
        assert forall|i: int| #[trigger] last_named(parts, "path"@, i) && i < n implies last_named(
            init,
            "path"@,
            i,
        ) by {
            assert forall|j: int| i < j < init.len() implies !names_attr(#[trigger] init[j], "path"@) by {
                assert(init[j] == parts[j]);
            }
        }
        if forall|i: int| 0 <= i < parts.len() ==> !names_attr(#[trigger] parts[i], "domain"@) {
            assert forall|i: int| 0 <= i < init.len() implies !names_attr(#[trigger] init[i], "domain"@) by {
                assert(init[i] == parts[i]);
            }
        }
        if forall|i: int| 0 <= i < parts.len() ==> !names_attr(#[trigger] parts[i], "path"@) {
            assert forall|i: int| 0 <= i < init.len() implies !names_attr(#[trigger] init[i], "path"@) by {
                assert(init[i] == parts[i]);
            }
        }
        assert(parts[n] == parts.last());
        let (d0, p0) = apply_attrs(init, domain, path);
        let (an, av) = attr_of(parts.last());
        assert forall|i: int| #[trigger] last_named(parts, "path"@, i) implies apply_attrs(
            parts,
            domain,
            path,
        ).1 == attr_of(parts[i]).1 by {
            if i < n {
                assert(!names_attr(parts[n], "path"@));
                assert(apply_attrs(parts, domain, path).1 == p0);
            } else {
                reveal_strlit("domain");
                reveal_strlit("path");
                assert(an == "path"@);
                assert("path"@.len() != "domain"@.len());
                assert(an != "domain"@);
            }
        }
    }
}

/// Law: the cookie stored from a Set-Cookie header (when its first part has
/// a name) has as its domain the `default_domain` argument when no attribute
/// part is named Domain, and otherwise the value of the last Domain
/// attribute without its leading dots; its path is "/" when no attribute part
/// is named Path, and otherwise the value of the last Path attribute.
pub proof fn law_set_cookie_domain_and_path(header: Seq<char>, default_domain: Seq<char>)
    ensures
        ({
            let attrs = split_char(header, ';').drop_first();
            parse_set_cookie(header, default_domain) matches Some(c) ==> {
                &&& (forall|i: int| 0 <= i < attrs.len() ==> !names_attr(#[trigger] attrs[i], "domain"@))
                    ==> c.domain == default_domain
                &&& forall|i: int| #[trigger]
                    last_named(attrs, "domain"@, i) ==> c.domain == strip_leading_dots(
                        attr_of(attrs[i]).1,
                    )
                &&& (forall|i: int| 0 <= i < attrs.len() ==> !names_attr(#[trigger] attrs[i], "path"@))
                    ==> c.path == "/"@
                &&& forall|i: int| #[trigger]
                    last_named(attrs, "path"@, i) ==> c.path == attr_of(attrs[i]).1
            }
        }),
{
    lemma_apply_attrs(split_char(header, ';').drop_first(), default_domain, "/"@);
}

proof fn lemma_find_entry(es: Entries, i: int, name: Seq<char>, domain: Seq<char>, path: Seq<char>)
    requires
        0 <= i <= es.len(),
        forall|j: int| 0 <= j < i ==> !(#[trigger] es[j].name == name && es[j].domain == domain && es[j].path == path),
        i < es.len() ==> es[i].name == name && es[i].domain == domain && es[i].path == path,
    ensures
        find_entry(es, name, domain, path) == if i < es.len() {
            Some(i)
        } else {
            None::<int>
        },
    decreases i,
{
    if i > 0 {
        assert forall|j: int| 0 <= j < i - 1 implies !(#[trigger] es.drop_first()[j].name == name
            && es.drop_first()[j].domain == domain && es.drop_first()[j].path == path) by {
            assert(es.drop_first()[j] == es[j + 1]);
        }
        if i < es.len() {
            assert(es.drop_first()[i - 1] == es[i]);
        }
        lemma_find_entry(es.drop_first(), i - 1, name, domain, path);
        assert(!(es[0].name == name && es[0].domain == domain && es[0].path == path));
    }
}

proof fn lemma_rejected_all(es: Entries)
    ensures
        rejected(es, None, None, None).len() == 0,
    decreases es.len(),
{
    if es.len() > 0 {
        lemma_rejected_all(es.drop_last());
    }
}

fn contains_str(v: &Vec<String>, s: &str) -> (r: bool)
    ensures
        r == strings_view(v@).contains(s@),
{
    let mut i: usize = 0;
    while i < v.len()
        invariant
            i <= v@.len(),
            forall|j: int| 0 <= j < i ==> v@[j]@ != s@,
        decreases v.len() - i,
    {
        if str_eq(v[i].as_str(), s) {
            assert(strings_view(v@)[i as int] == s@);
            return true;
        }
        i = i + 1;
    }
    proof {
        if strings_view(v@).contains(s@) {
            let j = choose|j: int| 0 <= j < strings_view(v@).len() && strings_view(v@)[j] == s@;
            assert(v@[j]@ == s@);
        }
    }
    false
}

fn conflict(name: &str) -> (r: String)
    ensures
        r@ == conflict_message(name@),
{
    concat3("Multiple cookies with name '", name, "' exist for different domains/paths")
}

} // verus!
