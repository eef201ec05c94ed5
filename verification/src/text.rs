//! Character-sequence helpers shared by the header, cookie, query and URL logic.
//!
//! Strings are reasoned about through their `Seq<char>` view.  The helpers here
//! give executable operations (conversion, trimming, splitting, searching,
//! case folding) together with the spec functions that their contracts use.
use vstd::prelude::*;
use vstd::string::StringExecFns;

verus! {

broadcast use vstd::string::group_string_axioms;

/// `str::to_lowercase` of a string that is not all ASCII: the Unicode
/// lowercase mapping, whose tables are not restated here.
pub uninterp spec fn unicode_lower(s: Seq<char>) -> Seq<char>;

/// `str::to_uppercase` of a string that is not all ASCII: the Unicode
/// uppercase mapping, whose tables are not restated here.
pub uninterp spec fn unicode_upper(s: Seq<char>) -> Seq<char>;

/// Every character is ASCII.
pub open spec fn ascii_text(s: Seq<char>) -> bool {
    forall|i: int| 0 <= i < s.len() ==> (#[trigger] s[i] as u32) < 128
}

/// An ASCII upper-case letter lowered; any other character as it is.
pub open spec fn lower_char(c: char) -> char {
    if 'A' <= c && c <= 'Z' {
        ((c as u32) + 32) as char
    } else {
        c
    }
}

/// An ASCII lower-case letter raised; any other character as it is.
pub open spec fn upper_char(c: char) -> char {
    if 'a' <= c && c <= 'z' {
        ((c as u32) - 32) as char
    } else {
        c
    }
}

/// The lowercase form of a string as `str::to_lowercase` computes it: on
/// ASCII text each letter `A`-`Z` becomes `a`-`z` and every other character
/// stays; beyond ASCII, the Unicode mapping.
pub open spec fn str_lower(s: Seq<char>) -> Seq<char> {
    if ascii_text(s) {
        s.map_values(|c: char| lower_char(c))
    } else {
        unicode_lower(s)
    }
}

/// The uppercase form of a string as `str::to_uppercase` computes it: on
/// ASCII text each letter `a`-`z` becomes `A`-`Z` and every other character
/// stays; beyond ASCII, the Unicode mapping.
pub open spec fn str_upper(s: Seq<char>) -> Seq<char> {
    if ascii_text(s) {
        s.map_values(|c: char| upper_char(c))
    } else {
        unicode_upper(s)
    }
}

/// Lowercasing ASCII text gives ASCII text that lowercasing leaves alone.
pub proof fn lemma_ascii_lower_idempotent(s: Seq<char>)
    requires
        ascii_text(s),
    ensures
        ascii_text(str_lower(s)),
        str_lower(str_lower(s)) == str_lower(s),
{
    let t = str_lower(s);
    assert forall|i: int| 0 <= i < t.len() implies (#[trigger] t[i] as u32) < 128 by {
        assert(t[i] == lower_char(s[i]));
    }
    assert(str_lower(t) =~= t);
}

/// Uppercasing ASCII text gives ASCII text that uppercasing leaves alone.
pub proof fn lemma_ascii_upper_idempotent(s: Seq<char>)
    requires
        ascii_text(s),
    ensures
        ascii_text(str_upper(s)),
        str_upper(str_upper(s)) == str_upper(s),
{
    let t = str_upper(s);
    assert forall|i: int| 0 <= i < t.len() implies (#[trigger] t[i] as u32) < 128 by {
        assert(t[i] == upper_char(s[i]));
    }
    assert(str_upper(t) =~= t);
}

/// Trusted: `str::to_lowercase`.  As std documents, ASCII letters `A`-`Z`
/// become `a`-`z` and every other ASCII character is kept; for other text the
/// result is named, the Unicode case tables not being restated.
#[verifier::external_body]
pub(crate) fn to_lower(s: &str) -> (r: String)
    ensures
        r@ == str_lower(s@),
        ascii_text(s@) ==> r@ == s@.map_values(|c: char| lower_char(c)),
        !ascii_text(s@) ==> r@ == unicode_lower(s@),
{
    s.to_lowercase()
}

/// Trusted: `str::to_uppercase`.  As std documents, ASCII letters `a`-`z`
/// become `A`-`Z` and every other ASCII character is kept; for other text the
/// result is named.
#[verifier::external_body]
pub(crate) fn to_upper(s: &str) -> (r: String)
    ensures
        r@ == str_upper(s@),
        ascii_text(s@) ==> r@ == s@.map_values(|c: char| upper_char(c)),
        !ascii_text(s@) ==> r@ == unicode_upper(s@),
{
    s.to_uppercase()
}

/// Trusted: `String::push`, which appends one character.
#[verifier::external_body]
pub(crate) fn push_char(s: &mut String, c: char)
    ensures
        final(s)@ == old(s)@.push(c),
{
    s.push(c)
}

/// Appends a string slice.
pub(crate) fn push_str(s: &mut String, t: &str)
    ensures
        final(s)@ == old(s)@ + t@,
{
    s.append(t)
}

/// The characters of a string slice, in order.
pub fn chars_of(s: &str) -> (v: Vec<char>)
    ensures
        v@ == s@,
{
    let mut v: Vec<char> = Vec::new();
    for c in it: s.chars()
        invariant
            it.seq() == s@,
            v@ == it.seq().take(it.index() as int),
    {
        v.push(c);
    }
    v
}

/// A string holding exactly the characters of `cs[from..to]`.
pub fn string_of(cs: &[char], from: usize, to: usize) -> (r: String)
    requires
        from <= to <= cs@.len(),
    ensures
        r@ == cs@.subrange(from as int, to as int),
{
    let mut r = String::new();
    let mut i = from;
    while i < to
        invariant
            from <= i <= to <= cs@.len(),
            r@ == cs@.subrange(from as int, i as int),
        decreases to - i,
    {
        push_char(&mut r, cs[i]);
        i = i + 1;
    }
    r
}

/// A string holding exactly the given characters.
pub fn string_from(cs: &Vec<char>) -> (r: String)
    ensures
        r@ == cs@,
{
    let r = string_of(cs.as_slice(), 0, cs.len());
    assert(cs@.subrange(0, cs@.len() as int) =~= cs@);
    r
}

/// A fresh string with the same characters as the slice.
pub fn owned(s: &str) -> (r: String)
    ensures
        r@ == s@,
{
    s.to_owned()
}

/// Concatenation of two strings.
pub fn concat2(a: &str, b: &str) -> (r: String)
    ensures
        r@ == a@ + b@,
{
    let mut r = a.to_owned();
    push_str(&mut r, b);
    r
}

/// Concatenation of three strings.
pub fn concat3(a: &str, b: &str, c: &str) -> (r: String)
    ensures
        r@ == a@ + b@ + c@,
{
    let mut r = a.to_owned();
    push_str(&mut r, b);
    push_str(&mut r, c);
    r
}

/// Equality of string slices by content.
pub fn str_eq(a: &str, b: &str) -> (r: bool)
    ensures
        r == (a@ == b@),
{
    let ca = chars_of(a);
    let cb = chars_of(b);
    seq_eq(&ca, &cb)
}

/// Equality of two character vectors.
pub fn seq_eq(a: &Vec<char>, b: &Vec<char>) -> (r: bool)
    ensures
        r == (a@ == b@),
{
    if a.len() != b.len() {
        return false;
    }
    let mut i: usize = 0;
    while i < a.len()
        invariant
            a@.len() == b@.len(),
            i <= a@.len(),
            forall|j: int| 0 <= j < i ==> a@[j] == b@[j],
        decreases a.len() - i,
    {
        if a[i] != b[i] {
            return false;
        }
        i = i + 1;
    }
    assert(a@ =~= b@);
    true
}

/// Whether `c` has the Unicode White_Space property (what `char::is_whitespace`
/// tests).
pub open spec fn is_ws(c: char) -> bool {
    ||| ('\u{9}' <= c && c <= '\u{d}')
    ||| c == ' '
    ||| c == '\u{85}'
    ||| c == '\u{a0}'
    ||| c == '\u{1680}'
    ||| ('\u{2000}' <= c && c <= '\u{200a}')
    ||| c == '\u{2028}'
    ||| c == '\u{2029}'
    ||| c == '\u{202f}'
    ||| c == '\u{205f}'
    ||| c == '\u{3000}'
}

/// Executable White_Space test.
pub fn char_is_ws(c: char) -> (r: bool)
    ensures
        r == is_ws(c),
{
    ('\u{9}' <= c && c <= '\u{d}') || c == ' ' || c == '\u{85}' || c == '\u{a0}' || c == '\u{1680}'
        || ('\u{2000}' <= c && c <= '\u{200a}') || c == '\u{2028}' || c == '\u{2029}' || c
        == '\u{202f}' || c == '\u{205f}' || c == '\u{3000}'
}

/// `s` with leading white space removed.
pub open spec fn trim_start(s: Seq<char>) -> Seq<char>
    decreases s.len(),
{
    if s.len() > 0 && is_ws(s[0]) {
        trim_start(s.drop_first())
    } else {
        s
    }
}

/// `s` with trailing white space removed.
pub open spec fn trim_end(s: Seq<char>) -> Seq<char>
    decreases s.len(),
{
    if s.len() > 0 && is_ws(s.last()) {
        trim_end(s.drop_last())
    } else {
        s
    }
}

/// `s` with white space removed at both ends (what `str::trim` returns).
pub open spec fn trim(s: Seq<char>) -> Seq<char> {
    trim_end(trim_start(s))
}

/// Index of the first character of `s[from..to]` that is not white space, or `to`.
pub fn skip_ws_forward(cs: &[char], from: usize, to: usize) -> (r: usize)
    requires
        from <= to <= cs@.len(),
    ensures
        from <= r <= to,
        trim_start(cs@.subrange(from as int, to as int)) == cs@.subrange(r as int, to as int),
    decreases to - from,
{
    if from < to && char_is_ws(cs[from]) {
        assert(cs@.subrange(from as int, to as int).drop_first() =~= cs@.subrange(
            from + 1,
            to as int,
        ));
        skip_ws_forward(cs, from + 1, to)
    } else {
        from
    }
}

/// Index one past the last character of `s[from..to]` that is not white space,
/// or `from`.
pub fn skip_ws_backward(cs: &[char], from: usize, to: usize) -> (r: usize)
    requires
        from <= to <= cs@.len(),
    ensures
        from <= r <= to,
        trim_end(cs@.subrange(from as int, to as int)) == cs@.subrange(from as int, r as int),
    decreases to - from,
{
    if from < to && char_is_ws(cs[to - 1]) {
        assert(cs@.subrange(from as int, to as int).drop_last() =~= cs@.subrange(
            from as int,
            to - 1,
        ));
        skip_ws_backward(cs, from, to - 1)
    } else {
        to
    }
}

/// Bounds `[a, b)` of `trim(s[from..to])` inside `cs`.
pub fn trim_bounds(cs: &[char], from: usize, to: usize) -> (r: (usize, usize))
    requires
        from <= to <= cs@.len(),
    ensures
        from <= r.0 <= r.1 <= to,
        trim(cs@.subrange(from as int, to as int)) == cs@.subrange(r.0 as int, r.1 as int),
{
    let a = skip_ws_forward(cs, from, to);
    let b = skip_ws_backward(cs, a, to);
    (a, b)
}

/// `str::trim` on a slice, as an owned string.
pub fn trimmed(s: &str) -> (r: String)
    ensures
        r@ == trim(s@),
{
    let cs = chars_of(s);
    let (a, b) = trim_bounds(cs.as_slice(), 0, cs.len());
    assert(cs@.subrange(0, cs@.len() as int) =~= cs@);
    string_of(cs.as_slice(), a, b)
}

/// Index of the first occurrence of `c` in `s`, if any.
pub open spec fn find_char(s: Seq<char>, c: char) -> Option<int>
    decreases s.len(),
{
    if s.len() == 0 {
        None
    } else if s[0] == c {
        Some(0)
    } else {
        match find_char(s.drop_first(), c) {
            Some(i) => Some(i + 1),
            None => None,
        }
    }
}

/// Facts about `find_char`.
pub proof fn lemma_find_char(s: Seq<char>, c: char)
    ensures
        match find_char(s, c) {
            Some(i) => 0 <= i < s.len() && s[i] == c && forall|j: int| 0 <= j < i ==> s[j] != c,
            None => forall|j: int| 0 <= j < s.len() ==> s[j] != c,
        },
    decreases s.len(),
{
    if s.len() > 0 && s[0] != c {
        lemma_find_char(s.drop_first(), c);
        match find_char(s.drop_first(), c) {
            Some(i) => {
                assert forall|j: int| 0 <= j < i + 1 implies s[j] != c by {
                    if j > 0 {
                        assert(s[j] == s.drop_first()[j - 1]);
                    }
                }
            },
            None => {
                assert forall|j: int| 0 <= j < s.len() implies s[j] != c by {
                    if j > 0 {
                        assert(s[j] == s.drop_first()[j - 1]);
                    }
                }
            },
        }
    }
}

/// The characterisation of `find_char` by its properties.
pub proof fn lemma_find_char_is(s: Seq<char>, c: char, i: int)
    requires
        0 <= i <= s.len(),
        i < s.len() ==> s[i] == c,
        forall|j: int| 0 <= j < i ==> s[j] != c,
    ensures
        find_char(s, c) == (if i < s.len() {
            Some(i)
        } else {
            None::<int>
        }),
    decreases s.len(),
{
    if s.len() > 0 && i > 0 {
        assert forall|j: int| 0 <= j < i - 1 implies s.drop_first()[j] != c by {
            assert(s.drop_first()[j] == s[j + 1]);
        }
        lemma_find_char_is(s.drop_first(), c, i - 1);
    }
}

/// First index `>= from` and `< to` holding `c`, or `to`.
pub fn find_from(cs: &[char], c: char, from: usize, to: usize) -> (r: usize)
    requires
        from <= to <= cs@.len(),
    ensures
        from <= r <= to,
        r < to ==> cs@[r as int] == c,
        forall|j: int| from <= j < r ==> cs@[j] != c,
        find_char(cs@.subrange(from as int, to as int), c) == (if r < to {
            Some(r - from)
        } else {
            None::<int>
        }),
{
    let mut i = from;
    while i < to && cs[i] != c
        invariant
            from <= i <= to <= cs@.len(),
            forall|j: int| from <= j < i ==> cs@[j] != c,
        decreases to - i,
    {
        i = i + 1;
    }
    proof {
        let sub = cs@.subrange(from as int, to as int);
        lemma_find_char_is(sub, c, i - from);
    }
    i
}

/// Index of the first occurrence of `p` in `s` at or after `i`.
pub open spec fn find_sub_from(s: Seq<char>, p: Seq<char>, i: int) -> Option<int>
    decreases s.len() + 1 - i,
{
    if i < 0 || i + p.len() > s.len() {
        None
    } else if starts_with(s.skip(i), p) {
        Some(i)
    } else {
        find_sub_from(s, p, i + 1)
    }
}

/// Index of the first occurrence of `p` in `s`.
pub open spec fn find_sub(s: Seq<char>, p: Seq<char>) -> Option<int> {
    find_sub_from(s, p, 0)
}

/// First index `>= from` where `p` occurs in `cs`.
pub fn find_sub_at(cs: &[char], p: &[char], from: usize) -> (r: Option<usize>)
    requires
        from <= cs@.len(),
    ensures
        match r {
            Some(k) => find_sub_from(cs@, p@, from as int) == Some(k as int) && k + p@.len()
                <= cs@.len(),
            None => find_sub_from(cs@, p@, from as int) is None,
        },
{
    if p.len() > cs.len() {
        return None;
    }
    let last = cs.len() - p.len();
    let mut i = from;
    while i <= last
        invariant
            from <= i,
            last + p@.len() == cs@.len(),
            find_sub_from(cs@, p@, from as int) == find_sub_from(cs@, p@, i as int),
        decreases last + 1 - i,
    {
        if has_prefix_at(cs, i, p) {
            return Some(i);
        }
        if i == last {
            assert(find_sub_from(cs@, p@, i + 1) is None);
            return None;
        }
        i = i + 1;
    }
    None
}

/// Whether `p` occurs in `s`.
pub fn str_contains(s: &str, p: &str) -> (r: bool)
    ensures
        r == find_sub(s@, p@) is Some,
{
    let cs = chars_of(s);
    let ps = chars_of(p);
    find_sub_at(cs.as_slice(), ps.as_slice(), 0).is_some()
}

/// The text before the first `c` (all of `s` when there is none): the first
/// piece that `split(c)` yields.
pub open spec fn first_piece(s: Seq<char>, c: char) -> Seq<char> {
    match find_char(s, c) {
        Some(i) => s.take(i),
        None => s,
    }
}

/// The second piece that `split(c)` yields, if there is one.
pub open spec fn second_piece(s: Seq<char>, c: char) -> Option<Seq<char>> {
    match find_char(s, c) {
        Some(i) => Some(first_piece(s.skip(i + 1), c)),
        None => None,
    }
}

/// The first piece of `cs[from..to]` split at `c`, as bounds.
pub fn first_piece_bounds(cs: &[char], c: char, from: usize, to: usize) -> (r: usize)
    requires
        from <= to <= cs@.len(),
    ensures
        from <= r <= to,
        cs@.subrange(from as int, r as int) == first_piece(cs@.subrange(from as int, to as int), c),
        r < to ==> find_char(cs@.subrange(from as int, to as int), c) == Some(r - from),
        r == to ==> find_char(cs@.subrange(from as int, to as int), c) is None,
{
    let r = find_from(cs, c, from, to);
    proof {
        let sub = cs@.subrange(from as int, to as int);
        if r < to {
            assert(cs@.subrange(from as int, r as int) =~= sub.take(r - from));
        } else {
            assert(cs@.subrange(from as int, r as int) =~= sub);
        }
    }
    r
}

/// Whether `s` contains `c`.
pub fn contains_char(s: &str, c: char) -> (r: bool)
    ensures
        r == s@.contains(c),
{
    let cs = chars_of(s);
    let i = find_from(cs.as_slice(), c, 0, cs.len());
    proof {
        if i < cs.len() {
            assert(s@[i as int] == c);
        } else {
            assert(!s@.contains(c));
        }
    }
    i < cs.len()
}

/// Splitting `s` at every occurrence of `c` (what `str::split` with a char
/// pattern yields).
pub open spec fn split_char(s: Seq<char>, c: char) -> Seq<Seq<char>>
    decreases s.len(),
{
    match find_char(s, c) {
        Some(i) => {
            if 0 <= i < s.len() {
                seq![s.take(i)] + split_char(s.skip(i + 1), c)
            } else {
                seq![s]
            }
        },
        None => seq![s],
    }
}

/// Splitting always yields at least one piece.
pub proof fn lemma_split_nonempty(s: Seq<char>, c: char)
    ensures
        split_char(s, c).len() >= 1,
    decreases s.len(),
{
    match find_char(s, c) {
        Some(i) => {
            if 0 <= i < s.len() {
                lemma_split_nonempty(s.skip(i + 1), c);
            }
        },
        None => {},
    }
}

/// Splitting `cs[from..to]` at every `c`, as boundaries `(start, end)` of the
/// pieces.
pub fn split_bounds(cs: &[char], c: char, from: usize, to: usize) -> (r: Vec<(usize, usize)>)
    requires
        from <= to <= cs@.len(),
    ensures
        r@.len() == split_char(cs@.subrange(from as int, to as int), c).len(),
        forall|k: int|
            0 <= k < r@.len() ==> from <= #[trigger] r@[k].0 <= r@[k].1 <= to && cs@.subrange(
                r@[k].0 as int,
                r@[k].1 as int,
            ) == split_char(cs@.subrange(from as int, to as int), c)[k],
    decreases to - from,
{
    let i = find_from(cs, c, from, to);
    let ghost sub = cs@.subrange(from as int, to as int);
    proof {
        lemma_find_char(sub, c);
    }
    if i < to {
        let rest = split_bounds(cs, c, i + 1, to);
        let mut r: Vec<(usize, usize)> = Vec::new();
        r.push((from, i));
        let mut k: usize = 0;
        proof {
            assert(sub.skip(i - from + 1) =~= cs@.subrange(i + 1, to as int));
            assert(sub.take(i - from) =~= cs@.subrange(from as int, i as int));
        }
        while k < rest.len()
            invariant
                k <= rest@.len(),
                r@.len() == k + 1,
                r@[0] == (from, i),
                forall|m: int| 0 <= m < k ==> r@[m + 1] == rest@[m],
            decreases rest.len() - k,
        {
            r.push(rest[k]);
            k = k + 1;
        }
        proof {
            let sp = split_char(sub, c);
            assert(sp == seq![sub.take(i - from)] + split_char(sub.skip(i - from + 1), c));
            assert forall|m: int| 0 <= m < r@.len() implies from <= #[trigger] r@[m].0 <= r@[m].1
                <= to && cs@.subrange(r@[m].0 as int, r@[m].1 as int) == sp[m] by {
                if m > 0 {
                    assert(r@[m] == rest@[m - 1]);
                }
            }
        }
        r
    } else {
        let mut r: Vec<(usize, usize)> = Vec::new();
        r.push((from, to));
        r
    }
}

/// Whether `p` is a prefix of `s`.
pub open spec fn starts_with(s: Seq<char>, p: Seq<char>) -> bool {
    p.len() <= s.len() && s.take(p.len() as int) == p
}

/// Whether `p` is a suffix of `s`.
pub open spec fn ends_with(s: Seq<char>, p: Seq<char>) -> bool {
    p.len() <= s.len() && s.skip(s.len() - p.len()) == p
}

/// Whether `cs[at..]` begins with `p`.
pub fn has_prefix_at(cs: &[char], at: usize, p: &[char]) -> (r: bool)
    requires
        at <= cs@.len(),
    ensures
        r == starts_with(cs@.skip(at as int), p@),
{
    if p.len() > cs.len() - at {
        return false;
    }
    let mut i: usize = 0;
    while i < p.len()
        invariant
            at + p@.len() <= cs@.len(),
            cs@.len() == cs.len(),
            p@.len() == p.len(),
            i <= p@.len(),
            forall|j: int| 0 <= j < i ==> cs@[at + j] == p@[j],
        decreases p.len() - i,
    {
        if cs[at + i] != p[i] {
            assert(cs@.skip(at as int).take(p@.len() as int)[i as int] != p@[i as int]);
            return false;
        }
        i = i + 1;
    }
    assert(cs@.skip(at as int).take(p@.len() as int) =~= p@);
    true
}

/// Whether `s` starts with `p`.
pub fn str_starts_with(s: &str, p: &str) -> (r: bool)
    ensures
        r == starts_with(s@, p@),
{
    let cs = chars_of(s);
    let ps = chars_of(p);
    let r = has_prefix_at(cs.as_slice(), 0, ps.as_slice());
    assert(cs@.skip(0) =~= cs@);
    r
}

/// Whether `s` ends with `p`.
pub fn str_ends_with(s: &str, p: &str) -> (r: bool)
    ensures
        r == ends_with(s@, p@),
{
    let cs = chars_of(s);
    let ps = chars_of(p);
    if ps.len() > cs.len() {
        return false;
    }
    let at = cs.len() - ps.len();
    let r = has_prefix_at(cs.as_slice(), at, ps.as_slice());
    assert(cs@.skip(at as int).take(ps@.len() as int) =~= cs@.skip(at as int));
    r
}

/// Joining pieces with a separator (what `[..].join(sep)` builds).
pub open spec fn join(parts: Seq<Seq<char>>, sep: Seq<char>) -> Seq<char>
    decreases parts.len(),
{
    if parts.len() == 0 {
        Seq::empty()
    } else if parts.len() == 1 {
        parts[0]
    } else {
        join(parts.drop_last(), sep) + sep + parts.last()
    }
}

/// Joins the strings with the separator.
pub fn join_strings(parts: &Vec<String>, sep: &str) -> (r: String)
    ensures
        r@ == join(strings_view(parts@), sep@),
{
    let ghost views = strings_view(parts@);
    let mut r = String::new();
    let mut i: usize = 0;
    while i < parts.len()
        invariant
            i <= parts@.len(),
            views == strings_view(parts@),
            r@ == join(views.take(i as int), sep@),
        decreases parts.len() - i,
    {
        proof {
            assert(views.take(i + 1).drop_last() =~= views.take(i as int));
        }
        if i > 0 {
            push_str(&mut r, sep);
        } else {
            assert(views.take(1) =~= seq![views[0]]);
        }
        push_str(&mut r, parts[i].as_str());
        i = i + 1;
    }
    assert(views.take(parts@.len() as int) =~= views);
    r
}

/// Decimal digits of a natural number.
pub open spec fn decimal(n: nat) -> Seq<char>
    decreases n,
{
    if n < 10 {
        seq![digit_char(n)]
    } else {
        decimal(n / 10).push(digit_char(n % 10))
    }
}

/// The decimal digit character for `d < 10`.
pub open spec fn digit_char(d: nat) -> char {
    if d == 0 {
        '0'
    } else if d == 1 {
        '1'
    } else if d == 2 {
        '2'
    } else if d == 3 {
        '3'
    } else if d == 4 {
        '4'
    } else if d == 5 {
        '5'
    } else if d == 6 {
        '6'
    } else if d == 7 {
        '7'
    } else if d == 8 {
        '8'
    } else {
        '9'
    }
}

pub fn digit(d: u64) -> (c: char)
    requires
        d < 10,
    ensures
        c == digit_char(d as nat),
{
    if d == 0 {
        '0'
    } else if d == 1 {
        '1'
    } else if d == 2 {
        '2'
    } else if d == 3 {
        '3'
    } else if d == 4 {
        '4'
    } else if d == 5 {
        '5'
    } else if d == 6 {
        '6'
    } else if d == 7 {
        '7'
    } else if d == 8 {
        '8'
    } else {
        '9'
    }
}

/// Appends the decimal form of `n` to `s` (what `n.to_string()` writes).
pub fn push_decimal(s: &mut String, n: u64)
    ensures
        final(s)@ == old(s)@ + decimal(n as nat),
    decreases n,
{
    if n < 10 {
        push_char(s, digit(n));
    } else {
        push_decimal(s, n / 10);
        push_char(s, digit(n % 10));
    }
}

/// The decimal form of `n`.
pub fn decimal_string(n: u64) -> (r: String)
    ensures
        r@ == decimal(n as nat),
{
    let mut r = String::new();
    push_decimal(&mut r, n);
    r
}

/// The UTF-8 bytes of a character sequence.
pub open spec fn enc(s: Seq<char>) -> Seq<u8> {
    vstd::utf8::encode_utf8(s)
}

/// Appends bytes to a byte vector.
pub fn append_bytes(v: &mut Vec<u8>, b: &[u8])
    ensures
        final(v)@ == old(v)@ + b@,
{
    let mut i: usize = 0;
    while i < b.len()
        invariant
            i <= b@.len(),
            v@ == old(v)@ + b@.take(i as int),
        decreases b.len() - i,
    {
        v.push(b[i]);
        i = i + 1;
        assert(b@.take(i as int) =~= b@.take(i - 1).push(b@[i - 1]));
    }
    assert(b@.take(b@.len() as int) =~= b@);
}

/// Appends the UTF-8 bytes of a string.
pub fn append_str(v: &mut Vec<u8>, s: &str)
    ensures
        final(v)@ == old(v)@ + enc(s@),
{
    append_bytes(v, s.as_bytes());
}

/// A copy of a byte slice.
pub fn bytes_vec(b: &[u8]) -> (r: Vec<u8>)
    ensures
        r@ == b@,
{
    let mut v: Vec<u8> = Vec::new();
    append_bytes(&mut v, b);
    assert(v@ =~= b@);
    v
}

/// The UTF-8 bytes of a string.
pub fn str_bytes(s: &str) -> (r: Vec<u8>)
    ensures
        r@ == enc(s@),
{
    let mut v: Vec<u8> = Vec::new();
    append_str(&mut v, s);
    assert(v@ =~= enc(s@));
    v
}

/// Plain view of a list of string pairs.
pub open spec fn pairs_view(v: Seq<(String, String)>) -> Seq<(Seq<char>, Seq<char>)> {
    v.map_values(|p: (String, String)| (p.0@, p.1@))
}

/// Every piece trimmed.
pub open spec fn trim_all(s: Seq<Seq<char>>) -> Seq<Seq<char>> {
    s.map_values(|p: Seq<char>| trim(p))
}

/// Plain view of a list of strings.
pub open spec fn strings_view(v: Seq<String>) -> Seq<Seq<char>> {
    v.map_values(|s: String| s@)
}

/// `strings_view` of a pushed list.
pub proof fn lemma_strings_view_push(v: Seq<String>, s: String)
    ensures
        strings_view(v.push(s)) == strings_view(v).push(s@),
{
    assert(strings_view(v.push(s)) =~= strings_view(v).push(s@));
}

/// `pairs_view` of a pushed list.
pub proof fn lemma_pairs_view_push(v: Seq<(String, String)>, p: (String, String))
    ensures
        pairs_view(v.push(p)) == pairs_view(v).push((p.0@, p.1@)),
{
    assert(pairs_view(v.push(p)) =~= pairs_view(v).push((p.0@, p.1@)));
}

/// A copy of a list of string pairs.
pub fn clone_pairs(v: &Vec<(String, String)>) -> (r: Vec<(String, String)>)
    ensures
        pairs_view(r@) == pairs_view(v@),
        r@.len() == v@.len(),
{
    let mut r: Vec<(String, String)> = Vec::new();
    let mut i: usize = 0;
    while i < v.len()
        invariant
            i <= v@.len(),
            pairs_view(r@) == pairs_view(v@).take(i as int),
            r@.len() == i,
        decreases v.len() - i,
    {
        r.push((v[i].0.clone(), v[i].1.clone()));
        i = i + 1;
        assert(pairs_view(r@) =~= pairs_view(v@).take(i as int));
    }
    assert(pairs_view(v@).take(v@.len() as int) =~= pairs_view(v@));
    r
}

} // verus!
