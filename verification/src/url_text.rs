//! Text-level URL helpers: fragment decoding, IPv4/IPv6/IDNA host checks,
//! userinfo encoding, and recovering the host and raw path exactly as they
//! were written.
use crate::codecs::{hex_upper, percent_decode_utf8, percent_decoded_text};
use crate::text::{
    chars_of, enc, find_char, find_sub, first_piece, owned, push_char, push_str, split_bounds,
    split_char, str_bytes, string_of,
};
use vstd::prelude::*;

verus! {

// ----- fragments -----------------------------------------------------------

/// A fragment percent-decoded, or as written when the result is not UTF-8.
pub open spec fn spec_decode_fragment(s: Seq<char>) -> Seq<char> {
    match percent_decoded_text(s) {
        Some(t) => t,
        None => s,
    }
}

/// Decodes a percent-encoded fragment.
pub fn decode_fragment(encoded: &str) -> (r: String)
    ensures
        r@ == spec_decode_fragment(encoded@),
{
    match percent_decode_utf8(encoded) {
        Some(s) => s,
        None => owned(encoded),
    }
}

// ----- host checks ---------------------------------------------------------

/// An ASCII digit.
pub open spec fn is_digit(c: char) -> bool {
    '0' <= c && c <= '9'
}

/// An ASCII hexadecimal digit.
pub open spec fn is_hex_char(c: char) -> bool {
    is_digit(c) || ('a' <= c && c <= 'f') || ('A' <= c && c <= 'F')
}

/// Non-empty, and only digits and dots.
pub open spec fn spec_looks_like_ipv4(s: Seq<char>) -> bool {
    s.len() > 0 && forall|i: int| 0 <= i < s.len() ==> is_digit(#[trigger] s[i]) || s[i] == '.'
}

/// Whether a string looks like an IPv4 address (digits and dots only).
pub fn looks_like_ipv4(s: &str) -> (r: bool)
    ensures
        r == spec_looks_like_ipv4(s@),
{
    let cs = chars_of(s);
    if cs.len() == 0 {
        return false;
    }
    let mut i: usize = 0;
    while i < cs.len()
        invariant
            i <= cs@.len(),
            cs@ == s@,
            forall|j: int| 0 <= j < i ==> is_digit(#[trigger] cs@[j]) || cs@[j] == '.',
        decreases cs.len() - i,
    {
        let c = cs[i];
        if !(('0' <= c && c <= '9') || c == '.') {
            return false;
        }
        i = i + 1;
    }
    true
}

/// The decimal value of digits.
pub open spec fn dec_value(d: Seq<char>) -> nat
    decreases d.len(),
{
    if d.len() == 0 {
        0
    } else {
        dec_value(d.drop_last()) * 10 + ((d.last() as u32 - '0' as u32) as nat)
    }
}

/// The digits `u32::from_str` reads: one leading '+' is allowed.
pub open spec fn octet_digits(p: Seq<char>) -> Seq<char> {
    if p.len() > 0 && p[0] == '+' {
        p.skip(1)
    } else {
        p
    }
}

/// A part of an IPv4 address: a number that parses and is at most 255.
pub open spec fn valid_octet(p: Seq<char>) -> bool {
    let d = octet_digits(p);
    d.len() > 0 && (forall|i: int| 0 <= i < d.len() ==> is_digit(#[trigger] d[i])) && dec_value(d)
        <= 255
}

/// Four dot-separated parts, each a number from 0 to 255.
pub open spec fn spec_is_valid_ipv4(s: Seq<char>) -> bool {
    let parts = split_char(s, '.');
    parts.len() == 4 && forall|i: int| 0 <= i < 4 ==> valid_octet(#[trigger] parts[i])
}

fn octet_ok(cs: &[char], from: usize, to: usize) -> (r: bool)
    requires
        from <= to <= cs@.len(),
    ensures
        r == valid_octet(cs@.subrange(from as int, to as int)),
{
    let ghost p = cs@.subrange(from as int, to as int);
    let start = if from < to && cs[from] == '+' {
        from + 1
    } else {
        from
    };
    let ghost d = octet_digits(p);
    assert(d =~= cs@.subrange(start as int, to as int));
    if start == to {
        return false;
    }
    let mut v: u32 = 0;
    let mut i = start;
    while i < to
        invariant
            start <= i <= to <= cs@.len(),
            d == cs@.subrange(start as int, to as int),
            d == octet_digits(cs@.subrange(from as int, to as int)),
            forall|j: int| 0 <= j < i - start ==> is_digit(#[trigger] d[j]),
            v as nat == if dec_value(d.take(i - start)) < 256 {
                dec_value(d.take(i - start))
            } else {
                256
            },
        decreases to - i,
    {
        let c = cs[i];
        if !('0' <= c && c <= '9') {
            assert(!is_digit(d[i - start]));
            return false;
        }
        let dig = (c as u32) - ('0' as u32);
        let ghost prev = dec_value(d.take(i - start));
        assert(d.take(i - start + 1).drop_last() =~= d.take(i - start));
        assert(dec_value(d.take(i - start + 1)) == prev * 10 + dig);
        v = if v >= 256 {
            256
        } else {
            let w = v * 10 + dig;
            if w >= 256 {
                256
            } else {
                w
            }
        };
        i = i + 1;
    }
    assert(d.take(d.len() as int) =~= d);
    v <= 255
}

/// Whether a string is a valid IPv4 address.
pub fn is_valid_ipv4(s: &str) -> (r: bool)
    ensures
        r == spec_is_valid_ipv4(s@),
{
    let cs = chars_of(s);
    let parts = split_bounds(cs.as_slice(), '.', 0, cs.len());
    let ghost sp = split_char(s@, '.');
    assert(cs@.subrange(0, cs@.len() as int) =~= cs@);
    if parts.len() != 4 {
        return false;
    }
    let mut k: usize = 0;
    while k < 4
        invariant
            k <= 4,
            parts@.len() == 4,
            sp.len() == 4,
            sp == split_char(s@, '.'),
            forall|q: int|
                0 <= q < parts@.len() ==> 0 <= #[trigger] parts@[q].0 <= parts@[q].1 <= cs@.len()
                    && cs@.subrange(parts@[q].0 as int, parts@[q].1 as int) == sp[q],
            forall|q: int| 0 <= q < k ==> valid_octet(#[trigger] sp[q]),
        decreases 4 - k,
    {
        let (a, b) = parts[k];
        if !octet_ok(cs.as_slice(), a, b) {
            return false;
        }
        k = k + 1;
    }
    true
}

/// Non-empty, holds ':', only hex digits, ':' and '.', and each group is
/// empty, a valid IPv4 address (when it holds '.'), or at most four
/// characters.
pub open spec fn spec_is_valid_ipv6(s: Seq<char>) -> bool {
    let groups = split_char(s, ':');
    &&& s.len() > 0
    &&& s.contains(':')
    &&& forall|i: int| 0 <= i < s.len() ==> is_hex_char(#[trigger] s[i]) || s[i] == ':' || s[i] == '.'
    &&& forall|i: int|
        0 <= i < groups.len() ==> (#[trigger] groups[i]).len() == 0 || (if groups[i].contains('.') {
            spec_is_valid_ipv4(groups[i])
        } else {
            groups[i].len() <= 4
        })
}

/// Whether a string is a valid IPv6 address (a basic check).
pub fn is_valid_ipv6(s: &str) -> (r: bool)
    ensures
        r == spec_is_valid_ipv6(s@),
{
    let cs = chars_of(s);
    if cs.len() == 0 {
        return false;
    }
    if !crate::text::contains_char(s, ':') {
        return false;
    }
    let mut i: usize = 0;
    while i < cs.len()
        invariant
            i <= cs@.len(),
            cs@ == s@,
            forall|j: int| 0 <= j < i ==> is_hex_char(#[trigger] cs@[j]) || cs@[j] == ':' || cs@[j] == '.',
        decreases cs.len() - i,
    {
        let c = cs[i];
        let hex = ('0' <= c && c <= '9') || ('a' <= c && c <= 'f') || ('A' <= c && c <= 'F');
        if !hex && c != ':' && c != '.' {
            return false;
        }
        i = i + 1;
    }
    let parts = split_bounds(cs.as_slice(), ':', 0, cs.len());
    let ghost sp = split_char(s@, ':');
    assert(cs@.subrange(0, cs@.len() as int) =~= cs@);
    let mut k: usize = 0;
    while k < parts.len()
        invariant
            k <= parts@.len(),
            parts@.len() == sp.len(),
            sp == split_char(s@, ':'),
            forall|q: int|
                0 <= q < parts@.len() ==> 0 <= #[trigger] parts@[q].0 <= parts@[q].1 <= cs@.len()
                    && cs@.subrange(parts@[q].0 as int, parts@[q].1 as int) == sp[q],
            forall|q: int|
                0 <= q < k ==> (#[trigger] sp[q]).len() == 0 || (if sp[q].contains('.') {
                    spec_is_valid_ipv4(sp[q])
                } else {
                    sp[q].len() <= 4
                }),
        decreases parts.len() - k,
    {
        let (a, b) = parts[k];
        if a < b {
            let g = string_of(cs.as_slice(), a, b);
            if crate::text::contains_char(g.as_str(), '.') {
                if !is_valid_ipv4(g.as_str()) {
                    return false;
                }
            } else if b - a > 4 {
                return false;
            }
        }
        k = k + 1;
    }
    true
}

/// Whether a character lies in the blocks that IDNA hosts may not use here:
/// Miscellaneous Symbols (U+2600..U+26FF) and emoji (U+1F300..U+1FFFF).
pub open spec fn idna_forbidden(c: char) -> bool {
    (0x2600 <= c as u32 && c as u32 <= 0x26FF) || (0x1F300 <= c as u32 && c as u32 <= 0x1FFFF)
}

/// Whether a host name avoids the forbidden blocks.
pub fn is_valid_idna(s: &str) -> (r: bool)
    ensures
        r == forall|i: int| 0 <= i < s@.len() ==> !idna_forbidden(#[trigger] s@[i]),
{
    let cs = chars_of(s);
    let mut i: usize = 0;
    while i < cs.len()
        invariant
            i <= cs@.len(),
            cs@ == s@,
            forall|j: int| 0 <= j < i ==> !idna_forbidden(#[trigger] cs@[j]),
        decreases cs.len() - i,
    {
        let cat = cs[i] as u32;
        if (0x2600 <= cat && cat <= 0x26FF) || (0x1F300 <= cat && cat <= 0x1FFFF) {
            assert(idna_forbidden(cs@[i as int]));
            return false;
        }
        i = i + 1;
    }
    true
}

// ----- userinfo ------------------------------------------------------------

/// Each byte as "%XX" with uppercase hex digits.
pub open spec fn pct_all(bs: Seq<u8>) -> Seq<char>
    decreases bs.len(),
{
    if bs.len() == 0 {
        Seq::empty()
    } else {
        pct_all(bs.drop_last()) + seq!['%', hex_upper(bs.last() / 16), hex_upper(bs.last() % 16)]
    }
}

/// An unreserved ASCII character: letter, digit, '-', '.', '_' or '~'.
pub open spec fn is_unreserved_char(c: char) -> bool {
    ('a' <= c && c <= 'z') || ('A' <= c && c <= 'Z') || is_digit(c) || c == '-' || c == '.' || c
        == '_' || c == '~'
}

/// How one character of a user name or password is written: the URL
/// delimiters are percent-encoded, '%' is kept (already encoded),
/// unreserved characters are kept, and anything else has each UTF-8 byte
/// percent-encoded.
pub open spec fn userinfo_char(c: char) -> Seq<char> {
    if c == '@' {
        "%40"@
    } else if c == ' ' {
        "%20"@
    } else if c == ':' {
        "%3A"@
    } else if c == '/' {
        "%2F"@
    } else if c == '?' {
        "%3F"@
    } else if c == '#' {
        "%23"@
    } else if c == '[' {
        "%5B"@
    } else if c == ']' {
        "%5D"@
    } else if c == '%' || is_unreserved_char(c) {
        seq![c]
    } else {
        pct_all(enc(seq![c]))
    }
}

/// A user name or password as written in a URL.
pub open spec fn spec_encode_userinfo(s: Seq<char>) -> Seq<char>
    decreases s.len(),
{
    if s.len() == 0 {
        Seq::empty()
    } else {
        spec_encode_userinfo(s.drop_last()) + userinfo_char(s.last())
    }
}

fn hex_digit_upper(d: u8) -> (c: char)
    requires
        d < 16,
    ensures
        c == hex_upper(d),
{
    if d < 10 {
        (48u8 + d) as char
    } else {
        (55u8 + d) as char
    }
}

fn push_pct_bytes(out: &mut String, bs: &[u8])
    ensures
        final(out)@ == old(out)@ + pct_all(bs@),
{
    let ghost start = out@;
    let mut i: usize = 0;
    while i < bs.len()
        invariant
            i <= bs@.len(),
            out@ == start + pct_all(bs@.take(i as int)),
        decreases bs.len() - i,
    {
        let b = bs[i];
        push_char(out, '%');
        push_char(out, hex_digit_upper(b / 16));
        push_char(out, hex_digit_upper(b % 16));
        assert(bs@.take(i + 1).drop_last() =~= bs@.take(i as int));
        i = i + 1;
        assert(out@ =~= start + pct_all(bs@.take(i as int)));
    }
    assert(bs@.take(bs@.len() as int) =~= bs@);
}

/// Encodes a user name or password for a URL, leaving '%' as it is.
pub fn encode_userinfo(s: &str) -> (r: String)
    ensures
        r@ == spec_encode_userinfo(s@),
{
    let cs = chars_of(s);
    let mut out = String::new();
    let mut i: usize = 0;
    while i < cs.len()
        invariant
            i <= cs@.len(),
            cs@ == s@,
            out@ == spec_encode_userinfo(cs@.take(i as int)),
        decreases cs.len() - i,
    {
        let c = cs[i];
        let ghost before = out@;
        if c == '@' {
            push_str(&mut out, "%40");
        } else if c == ' ' {
            push_str(&mut out, "%20");
        } else if c == ':' {
            push_str(&mut out, "%3A");
        } else if c == '/' {
            push_str(&mut out, "%2F");
        } else if c == '?' {
            push_str(&mut out, "%3F");
        } else if c == '#' {
            push_str(&mut out, "%23");
        } else if c == '[' {
            push_str(&mut out, "%5B");
        } else if c == ']' {
            push_str(&mut out, "%5D");
        } else if c == '%' || ('a' <= c && c <= 'z') || ('A' <= c && c <= 'Z') || ('0' <= c && c
            <= '9') || c == '-' || c == '.' || c == '_' || c == '~' {
            push_char(&mut out, c);
        } else {
            let mut one = String::new();
            push_char(&mut one, c);
            let bytes = str_bytes(one.as_str());
            assert(one@ =~= seq![c]);
            push_pct_bytes(&mut out, bytes.as_slice());
        }
        assert(out@ == before + userinfo_char(c));
        assert(cs@.take(i + 1).drop_last() =~= cs@.take(i as int));
        i = i + 1;
    }
    assert(cs@.take(cs@.len() as int) =~= cs@);
    out
}

// ----- raw path ------------------------------------------------------------

/// An ASCII hexadecimal digit byte.
pub open spec fn is_hex_byte(b: u8) -> bool {
    (48 <= b && b <= 57) || (65 <= b && b <= 70) || (97 <= b && b <= 102)
}

/// The raw path from byte `i` on: "%XX" escapes are kept, spaces become
/// "%20", bytes above 127 are percent-encoded, other bytes are kept.
pub open spec fn norm_from(bs: Seq<u8>, i: int) -> Seq<char>
    decreases bs.len() - i,
{
    if i < 0 || i >= bs.len() {
        Seq::empty()
    } else if bs[i] == 37 && i + 2 < bs.len() && is_hex_byte(bs[i + 1]) && is_hex_byte(bs[i + 2]) {
        seq!['%', bs[i + 1] as char, bs[i + 2] as char] + norm_from(bs, i + 3)
    } else if bs[i] == 32 {
        "%20"@ + norm_from(bs, i + 1)
    } else if bs[i] > 127 {
        seq!['%', hex_upper(bs[i] / 16), hex_upper(bs[i] % 16)] + norm_from(bs, i + 1)
    } else {
        seq![bs[i] as char] + norm_from(bs, i + 1)
    }
}

fn hex_byte(b: u8) -> (r: bool)
    ensures
        r == is_hex_byte(b),
{
    (48 <= b && b <= 57) || (65 <= b && b <= 70) || (97 <= b && b <= 102)
}

/// Normalises a raw path: spaces and non-ASCII bytes are percent-encoded,
/// existing "%XX" escapes and all other characters are kept.
pub fn normalize_raw_path(raw: &str) -> (r: String)
    ensures
        r@ == norm_from(enc(raw@), 0),
{
    let bytes = str_bytes(raw);
    let ghost bs = bytes@;
    let n = bytes.len();
    let mut out = String::new();
    let mut i: usize = 0;
    while i < n
        invariant
            i <= n,
            n == bs.len(),
            bs == bytes@,
            norm_from(bs, 0) == out@ + norm_from(bs, i as int),
        decreases n - i,
    {
        let b = bytes[i];
        let ghost before = out@;
        if b == 37 && n - i > 2 && hex_byte(bytes[i + 1]) && hex_byte(bytes[i + 2]) {
            push_char(&mut out, '%');
            push_char(&mut out, bytes[i + 1] as char);
            push_char(&mut out, bytes[i + 2] as char);
            assert(out@ =~= before + seq!['%', bs[i + 1] as char, bs[i + 2] as char]);
            i = i + 3;
        } else if b == 32 {
            push_str(&mut out, "%20");
            i = i + 1;
        } else if b > 127 {
            push_char(&mut out, '%');
            push_char(&mut out, hex_digit_upper(b / 16));
            push_char(&mut out, hex_digit_upper(b % 16));
            assert(out@ =~= before + seq!['%', hex_upper(b / 16), hex_upper(b % 16)]);
            i = i + 1;
        } else {
            push_char(&mut out, b as char);
            assert(out@ =~= before + seq![b as char]);
            i = i + 1;
        }
    }
    assert(norm_from(bs, i as int) =~= Seq::<char>::empty());
    assert(out@ + Seq::<char>::empty() =~= out@);
    out
}

// ----- original host and raw path ------------------------------------------

/// A character that ends a host: ':', '/', '?' or '#'.
pub open spec fn host_delim(c: char) -> bool {
    c == ':' || c == '/' || c == '?' || c == '#'
}

/// Index of the first host delimiter.
pub open spec fn find_host_end(s: Seq<char>) -> Option<int>
    decreases s.len(),
{
    if s.len() == 0 {
        None
    } else if host_delim(s[0]) {
        Some(0)
    } else {
        match find_host_end(s.drop_first()) {
            Some(i) => Some(i + 1),
            None => None,
        }
    }
}

/// All characters below 128.
pub open spec fn all_ascii(s: Seq<char>) -> bool {
    forall|i: int| 0 <= i < s.len() ==> (#[trigger] s[i] as u32) < 128
}

/// The host written after "://" (given the text after it): past any
/// userinfo, up to a delimiter; a bracketed IPv6 host without its brackets.
pub open spec fn host_text(after: Seq<char>) -> Seq<char> {
    let hs = match find_char(after, '@') {
        Some(p) => p + 1,
        None => 0,
    };
    let hp = after.skip(hs);
    let he = if hp.len() > 0 && hp[0] == '[' {
        match find_char(hp, ']') {
            Some(b) => b + 1,
            None => hp.len() as int,
        }
    } else {
        match find_host_end(hp) {
            Some(d) => d,
            None => hp.len() as int,
        }
    };
    let h0 = hp.take(he);
    if h0.len() > 0 && h0[0] == '[' && h0.last() == ']' {
        h0.subrange(1, h0.len() - 1)
    } else {
        h0
    }
}

/// The host of a URL exactly as written, kept only when it is not ASCII or
/// holds ':'.
pub open spec fn spec_original_host(url: Seq<char>) -> Option<Seq<char>> {
    match find_sub(url, "://"@) {
        None => None,
        Some(a) => {
            let host = host_text(url.skip(a + "://"@.len()));
            if !all_ascii(host) || host.contains(':') {
                Some(host)
            } else {
                None
            }
        },
    }
}

fn host_end(cs: &[char], from: usize, to: usize) -> (r: usize)
    requires
        from <= to <= cs@.len(),
    ensures
        from <= r <= to,
        find_host_end(cs@.subrange(from as int, to as int)) == if r < to {
            Some(r - from)
        } else {
            None::<int>
        },
{
    let mut i = from;
    while i < to && !(cs[i] == ':' || cs[i] == '/' || cs[i] == '?' || cs[i] == '#')
        invariant
            from <= i <= to <= cs@.len(),
            forall|j: int| from <= j < i ==> !host_delim(#[trigger] cs@[j]),
        decreases to - i,
    {
        i = i + 1;
    }
    proof {
        lemma_find_host_end(cs@.subrange(from as int, to as int), i - from);
    }
    i
}

proof fn lemma_find_host_end(s: Seq<char>, i: int)
    requires
        0 <= i <= s.len(),
        i < s.len() ==> host_delim(s[i]),
        forall|j: int| 0 <= j < i ==> !host_delim(#[trigger] s[j]),
    ensures
        find_host_end(s) == (if i < s.len() {
            Some(i)
        } else {
            None::<int>
        }),
    decreases s.len(),
{
    if s.len() > 0 && i > 0 {
        assert forall|j: int| 0 <= j < i - 1 implies !host_delim(#[trigger] s.drop_first()[j]) by {
            assert(s.drop_first()[j] == s[j + 1]);
        }
        lemma_find_host_end(s.drop_first(), i - 1);
    }
}

fn host_bounds(cs: &[char], start: usize) -> (r: (usize, usize))
    requires
        start <= cs@.len(),
    ensures
        start <= r.0 <= r.1 <= cs@.len(),
        cs@.subrange(r.0 as int, r.1 as int) == host_text(cs@.subrange(start as int, cs@.len() as int)),
{
    let n = cs.len();
    let ghost after = cs@.subrange(start as int, n as int);
    let at = crate::text::find_from(cs, '@', start, n);
    let hs = if at < n {
        at + 1
    } else {
        start
    };
    let ghost hp = after.skip(hs - start);
    assert(cs@.subrange(hs as int, n as int) =~= hp);
    let he = if hs < n && cs[hs] == '[' {
        let b = crate::text::find_from(cs, ']', hs, n);
        if b < n {
            b + 1
        } else {
            n
        }
    } else {
        host_end(cs, hs, n)
    };
    let ghost h0 = hp.take(he - hs);
    assert(cs@.subrange(hs as int, he as int) =~= h0);
    if he - hs >= 2 && cs[hs] == '[' && cs[he - 1] == ']' {
        assert(cs@.subrange(hs + 1, he - 1) =~= h0.subrange(1, h0.len() - 1));
        (hs + 1, he - 1)
    } else {
        (hs, he)
    }
}

fn needs_original(s: &str) -> (r: bool)
    ensures
        r == (!all_ascii(s@) || s@.contains(':')),
{
    let hcs = chars_of(s);
    let mut i: usize = 0;
    while i < hcs.len()
        invariant
            i <= hcs@.len(),
            hcs@ == s@,
            forall|j: int| 0 <= j < i ==> (#[trigger] hcs@[j] as u32) < 128 && hcs@[j] != ':',
        decreases hcs.len() - i,
    {
        let c = hcs[i];
        if (c as u32) >= 128 {
            return true;
        }
        if c == ':' {
            return true;
        }
        i = i + 1;
    }
    false
}

/// The host of a URL as written, when it is IDNA (not ASCII) or IPv6.
pub fn extract_original_host(url_str: &str) -> (r: Option<String>)
    ensures
        match spec_original_host(url_str@) {
            Some(h) => r matches Some(x) && x@ == h,
            None => r is None,
        },
{
    let cs = chars_of(url_str);
    let sep = chars_of("://");
    let n = cs.len();
    match crate::text::find_sub_at(cs.as_slice(), sep.as_slice(), 0) {
        None => None,
        Some(a) => {
            let m = sep.len();
            assert(a + m <= n);
            let start = a + m;
            assert(cs@.subrange(start as int, n as int) =~= url_str@.skip(start as int));
            let (x, y) = host_bounds(cs.as_slice(), start);
            let host = string_of(cs.as_slice(), x, y);
            if needs_original(host.as_str()) {
                Some(host)
            } else {
                None
            }
        },
    }
}

/// The raw path and query of a URL as written (from the first "/" after
/// "://", up to any "#"), normalised; `None` without "://" or a path.
pub open spec fn spec_original_raw_path(url: Seq<char>) -> Option<Seq<char>> {
    match find_sub(url, "://"@) {
        None => None,
        Some(a) => {
            let after = url.skip(a + "://"@.len());
            match find_char(after, '/') {
                Some(p) => Some(norm_from(enc(first_piece(after.skip(p), '#')), 0)),
                None => None,
            }
        },
    }
}

/// Recovers a URL's raw path and query as written.
pub fn extract_original_raw_path(url_str: &str) -> (r: Option<String>)
    ensures
        match spec_original_raw_path(url_str@) {
            Some(p) => r matches Some(x) && x@ == p,
            None => r is None,
        },
{
    let cs = chars_of(url_str);
    let sep = chars_of("://");
    let n = cs.len();
    match crate::text::find_sub_at(cs.as_slice(), sep.as_slice(), 0) {
        None => None,
        Some(a) => {
            let m = sep.len();
            assert(a + m <= n);
            let start = a + m;
            let ghost after = url_str@.skip(start as int);
            assert(cs@.subrange(start as int, n as int) =~= after);
            let p = crate::text::find_from(cs.as_slice(), '/', start, n);
            if p == n {
                return None;
            }
            let e = crate::text::first_piece_bounds(cs.as_slice(), '#', p, n);
            assert(cs@.subrange(p as int, n as int) =~= after.skip(p - start));
            let raw = string_of(cs.as_slice(), p, e);
            Some(normalize_raw_path(raw.as_str()))
        },
    }
}

} // verus!
