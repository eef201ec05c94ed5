//! The checks a URL's text passes before it is parsed: its length, control
//! characters, the port, and IPv4 / IPv6 / IDNA hosts; and the same checks on
//! the components a URL is built from.
use crate::text::{
    chars_of, decimal, find_char, find_sub, owned, push_char, push_decimal, push_str,
    string_of,
};
use crate::url_text::{
    find_host_end, host_delim, is_digit, is_valid_idna, is_valid_ipv4, is_valid_ipv6,
    idna_forbidden, looks_like_ipv4, spec_is_valid_ipv4, spec_is_valid_ipv6, spec_looks_like_ipv4,
};
use vstd::prelude::*;

verus! {

/// The longest URL text, and the longest component, accepted (in bytes).
pub const MAX_URL_LENGTH: usize = 65536;

// ----- characters ----------------------------------------------------------

/// A Unicode control character (general category Cc), as `char::is_control`
/// reports: U+0000..U+001F and U+007F..U+009F.
pub open spec fn is_control_char(c: char) -> bool {
    (c as u32) <= 0x1F || (0x7F <= (c as u32) && (c as u32) <= 0x9F)
}

/// A character a URL may not hold: a control character other than tab.
pub open spec fn non_printable(c: char) -> bool {
    is_control_char(c) && c != '\t'
}

/// Index of the first character a URL may not hold.
pub open spec fn find_non_printable(s: Seq<char>) -> Option<int>
    decreases s.len(),
{
    if s.len() == 0 {
        None
    } else if non_printable(s[0]) {
        Some(0)
    } else {
        match find_non_printable(s.drop_first()) {
            Some(i) => Some(i + 1),
            None => None,
        }
    }
}

proof fn lemma_find_non_printable_is(s: Seq<char>, i: int)
    requires
        0 <= i <= s.len(),
        i < s.len() ==> non_printable(s[i]),
        forall|j: int| 0 <= j < i ==> !non_printable(#[trigger] s[j]),
    ensures
        find_non_printable(s) == (if i < s.len() {
            Some(i)
        } else {
            None::<int>
        }),
    decreases s.len(),
{
    if s.len() > 0 && i > 0 {
        assert forall|j: int| 0 <= j < i - 1 implies !non_printable(#[trigger] s.drop_first()[j]) by {
            assert(s.drop_first()[j] == s[j + 1]);
        }
        lemma_find_non_printable_is(s.drop_first(), i - 1);
    }
}

/// Lowercase hexadecimal digits of a number, without leading zeros.
pub open spec fn hex_lower(n: nat) -> Seq<char>
    decreases n,
{
    if n < 16 {
        seq![hex_lower_digit(n)]
    } else {
        hex_lower(n / 16).push(hex_lower_digit(n % 16))
    }
}

/// The lowercase hexadecimal digit for `d < 16`.
pub open spec fn hex_lower_digit(d: nat) -> char {
    if d < 10 {
        crate::text::digit_char(d)
    } else if d == 10 {
        'a'
    } else if d == 11 {
        'b'
    } else if d == 12 {
        'c'
    } else if d == 13 {
        'd'
    } else if d == 14 {
        'e'
    } else {
        'f'
    }
}

fn hex_digit(d: u32) -> (c: char)
    requires
        d < 16,
    ensures
        c == hex_lower_digit(d as nat),
{
    if d < 10 {
        crate::text::digit(d as u64)
    } else if d == 10 {
        'a'
    } else if d == 11 {
        'b'
    } else if d == 12 {
        'c'
    } else if d == 13 {
        'd'
    } else if d == 14 {
        'e'
    } else {
        'f'
    }
}

fn push_hex_lower(s: &mut String, n: u32)
    ensures
        final(s)@ == old(s)@ + hex_lower(n as nat),
    decreases n,
{
    if n < 16 {
        push_char(s, hex_digit(n));
    } else {
        push_hex_lower(s, n / 16);
        push_char(s, hex_digit(n % 16));
    }
}

/// How `{:?}` writes a control character: quoted, as `\0`, `\t`, `\n`,
/// `\r`, or `\u{..}` with lowercase hex digits.
pub open spec fn debug_control(c: char) -> Seq<char> {
    let body = if c == '\0' {
        "\\0"@
    } else if c == '\t' {
        "\\t"@
    } else if c == '\n' {
        "\\n"@
    } else if c == '\r' {
        "\\r"@
    } else {
        "\\u{"@ + hex_lower(c as nat) + "}"@
    };
    "'"@ + body + "'"@
}

fn push_debug_control(s: &mut String, c: char)
    ensures
        final(s)@ == old(s)@ + debug_control(c),
{
    let ghost s0 = s@;
    push_str(s, "'");
    if c == '\0' {
        push_str(s, "\\0");
    } else if c == '\t' {
        push_str(s, "\\t");
    } else if c == '\n' {
        push_str(s, "\\n");
    } else if c == '\r' {
        push_str(s, "\\r");
    } else {
        push_str(s, "\\u{");
        push_hex_lower(s, c as u32);
        push_str(s, "}");
    }
    push_str(s, "'");
    assert(s@ =~= s0 + debug_control(c));
}

/// The message for a character a URL (or its path) may not hold.
pub open spec fn non_printable_message(prefix: Seq<char>, s: Seq<char>, i: int) -> Seq<char> {
    prefix + debug_control(s[i]) + " at position "@ + decimal(i as nat) + "."@
}

/// The first character a text may not hold, reported with the message prefix.
pub(crate) fn non_printable_check(s: &str, prefix: &str) -> (r: Option<String>)
    ensures
        match find_non_printable(s@) {
            Some(i) => r matches Some(m) && m@ == non_printable_message(prefix@, s@, i),
            None => r is None,
        },
{
    let cs = chars_of(s);
    let mut i: usize = 0;
    while i < cs.len()
        invariant
            i <= cs@.len(),
            cs@ == s@,
            forall|j: int| 0 <= j < i ==> !non_printable(#[trigger] cs@[j]),
        decreases cs.len() - i,
    {
        let c = cs[i];
        let u = c as u32;
        if (u <= 0x1F || (0x7F <= u && u <= 0x9F)) && c != '\t' {
            proof {
                lemma_find_non_printable_is(s@, i as int);
            }
            let mut m = owned(prefix);
            push_debug_control(&mut m, c);
            push_str(&mut m, " at position ");
            push_decimal(&mut m, i as u64);
            push_str(&mut m, ".");
            return Some(m);
        }
        i = i + 1;
    }
    proof {
        lemma_find_non_printable_is(s@, s@.len() as int);
    }
    None
}

// ----- scanning ------------------------------------------------------------

/// A character that ends a URL's authority: '/', '?' or '#'.
pub open spec fn auth_delim(c: char) -> bool {
    c == '/' || c == '?' || c == '#'
}

/// Index of the first authority delimiter.
pub open spec fn find_auth_end(s: Seq<char>) -> Option<int>
    decreases s.len(),
{
    if s.len() == 0 {
        None
    } else if auth_delim(s[0]) {
        Some(0)
    } else {
        match find_auth_end(s.drop_first()) {
            Some(i) => Some(i + 1),
            None => None,
        }
    }
}

proof fn lemma_find_auth_end_is(s: Seq<char>, i: int)
    requires
        0 <= i <= s.len(),
        i < s.len() ==> auth_delim(s[i]),
        forall|j: int| 0 <= j < i ==> !auth_delim(#[trigger] s[j]),
    ensures
        find_auth_end(s) == (if i < s.len() {
            Some(i)
        } else {
            None::<int>
        }),
    decreases s.len(),
{
    if s.len() > 0 && i > 0 {
        assert forall|j: int| 0 <= j < i - 1 implies !auth_delim(#[trigger] s.drop_first()[j]) by {
            assert(s.drop_first()[j] == s[j + 1]);
        }
        lemma_find_auth_end_is(s.drop_first(), i - 1);
    }
}

/// The length of the authority at the start of `s`.
pub open spec fn auth_len(s: Seq<char>) -> int {
    match find_auth_end(s) {
        Some(i) => i,
        None => s.len() as int,
    }
}

/// First index in `cs[from..to]` of an authority delimiter, or `to`.
pub fn auth_end(cs: &[char], from: usize, to: usize) -> (r: usize)
    requires
        from <= to <= cs@.len(),
    ensures
        from <= r <= to,
        r - from == auth_len(cs@.subrange(from as int, to as int)),
{
    let mut i = from;
    while i < to && !(cs[i] == '/' || cs[i] == '?' || cs[i] == '#')
        invariant
            from <= i <= to <= cs@.len(),
            forall|j: int| from <= j < i ==> !auth_delim(#[trigger] cs@[j]),
        decreases to - i,
    {
        i = i + 1;
    }
    proof {
        let sub = cs@.subrange(from as int, to as int);
        assert forall|j: int| 0 <= j < i - from implies !auth_delim(#[trigger] sub[j]) by {
            assert(sub[j] == cs@[from + j]);
        }
        lemma_find_auth_end_is(sub, i - from);
    }
    i
}

/// The length of the host at the start of `s`: up to ':', '/', '?' or '#'.
pub open spec fn host_len(s: Seq<char>) -> int {
    match find_host_end(s) {
        Some(i) => i,
        None => s.len() as int,
    }
}

proof fn lemma_find_host_end_is(s: Seq<char>, i: int)
    requires
        0 <= i <= s.len(),
        i < s.len() ==> host_delim(s[i]),
        forall|j: int| 0 <= j < i ==> !host_delim(#[trigger] s[j]),
    ensures
        find_host_end(s) == (if i < s.len() {
            Some(i)
        } else {
            None::<int>
        }),
    decreases s.len(),
{
    if s.len() > 0 && i > 0 {
        assert forall|j: int| 0 <= j < i - 1 implies !host_delim(#[trigger] s.drop_first()[j]) by {
            assert(s.drop_first()[j] == s[j + 1]);
        }
        lemma_find_host_end_is(s.drop_first(), i - 1);
    }
}

/// First index in `cs[from..to]` of ':', '/', '?' or '#', or `to`.
pub fn host_delim_end(cs: &[char], from: usize, to: usize) -> (r: usize)
    requires
        from <= to <= cs@.len(),
    ensures
        from <= r <= to,
        r - from == host_len(cs@.subrange(from as int, to as int)),
{
    let mut i = from;
    while i < to && !(cs[i] == ':' || cs[i] == '/' || cs[i] == '?' || cs[i] == '#')
        invariant
            from <= i <= to <= cs@.len(),
            forall|j: int| from <= j < i ==> !host_delim(#[trigger] cs@[j]),
        decreases to - i,
    {
        i = i + 1;
    }
    proof {
        let sub = cs@.subrange(from as int, to as int);
        assert forall|j: int| 0 <= j < i - from implies !host_delim(#[trigger] sub[j]) by {
            assert(sub[j] == cs@[from + j]);
        }
        lemma_find_host_end_is(sub, i - from);
    }
    i
}

/// Index of the last occurrence of `c` in `s`, if any.
pub open spec fn rfind_char(s: Seq<char>, c: char) -> Option<int>
    decreases s.len(),
{
    if s.len() == 0 {
        None
    } else if s.last() == c {
        Some(s.len() - 1)
    } else {
        rfind_char(s.drop_last(), c)
    }
}

proof fn lemma_rfind_char_is(s: Seq<char>, c: char, i: int)
    requires
        -1 <= i < s.len(),
        i >= 0 ==> s[i] == c,
        forall|j: int| i < j < s.len() ==> s[j] != c,
    ensures
        rfind_char(s, c) == (if i >= 0 {
            Some(i)
        } else {
            None::<int>
        }),
    decreases s.len(),
{
    if s.len() > 0 && i < s.len() - 1 {
        assert forall|j: int| i < j < s.drop_last().len() implies s.drop_last()[j] != c by {
            assert(s.drop_last()[j] == s[j]);
        }
        lemma_rfind_char_is(s.drop_last(), c, i);
    }
}

/// Last index in `cs[from..to]` holding `c`.
pub fn rfind_in(cs: &[char], c: char, from: usize, to: usize) -> (r: Option<usize>)
    requires
        from <= to <= cs@.len(),
    ensures
        match r {
            Some(x) => from <= x < to && rfind_char(cs@.subrange(from as int, to as int), c) == Some(
                x - from,
            ),
            None => rfind_char(cs@.subrange(from as int, to as int), c) is None,
        },
{
    let ghost sub = cs@.subrange(from as int, to as int);
    let mut k = to;
    while k > from && cs[k - 1] != c
        invariant
            from <= k <= to <= cs@.len(),
            sub == cs@.subrange(from as int, to as int),
            forall|j: int| k <= j < to ==> cs@[j] != c,
        decreases k - from,
    {
        k = k - 1;
    }
    proof {
        assert forall|j: int| k - from - 1 < j < sub.len() implies sub[j] != c by {
            assert(sub[j] == cs@[from + j]);
        }
        lemma_rfind_char_is(sub, c, k - from - 1);
    }
    if k > from {
        Some(k - 1)
    } else {
        None
    }
}

/// Only ASCII digits.
pub open spec fn all_digits(s: Seq<char>) -> bool {
    forall|i: int| 0 <= i < s.len() ==> is_digit(#[trigger] s[i])
}

/// Whether `cs[from..to]` holds only ASCII digits.
pub fn digits_only(cs: &[char], from: usize, to: usize) -> (r: bool)
    requires
        from <= to <= cs@.len(),
    ensures
        r == all_digits(cs@.subrange(from as int, to as int)),
{
    let mut i = from;
    while i < to
        invariant
            from <= i <= to <= cs@.len(),
            forall|j: int| from <= j < i ==> is_digit(#[trigger] cs@[j]),
        decreases to - i,
    {
        if !('0' <= cs[i] && cs[i] <= '9') {
            assert(!is_digit(cs@.subrange(from as int, to as int)[i - from]));
            return false;
        }
        i = i + 1;
    }
    assert forall|j: int| 0 <= j < to - from implies is_digit(
        #[trigger] cs@.subrange(from as int, to as int)[j],
    ) by {
        assert(cs@.subrange(from as int, to as int)[j] == cs@[from + j]);
    }
    true
}

/// Whether `c` occurs in `cs[from..to]`.
pub(crate) fn occurs_in(cs: &[char], c: char, from: usize, to: usize) -> (r: bool)
    requires
        from <= to <= cs@.len(),
    ensures
        r == cs@.subrange(from as int, to as int).contains(c),
{
    let i = crate::text::find_from(cs, c, from, to);
    proof {
        let sub = cs@.subrange(from as int, to as int);
        if i < to {
            assert(sub[i - from] == c);
        } else {
            assert forall|j: int| 0 <= j < sub.len() implies sub[j] != c by {
                assert(sub[j] == cs@[from + j]);
            }
        }
    }
    i < to
}

// ----- the URL text --------------------------------------------------------

/// The text after the first "://", if there is one.
pub open spec fn after_scheme(s: Seq<char>) -> Option<Seq<char>> {
    match find_sub(s, "://"@) {
        Some(a) => Some(s.skip(a + 3)),
        None => None,
    }
}

/// A port written after the host that is not a number: the message for it.
pub open spec fn port_error(s: Seq<char>) -> Option<Seq<char>> {
    match after_scheme(s) {
        None => None,
        Some(after) => {
            let auth = after.take(auth_len(after));
            if auth.len() > 0 && auth[0] == '[' {
                None
            } else {
                match rfind_char(auth, ':') {
                    None => None,
                    Some(cp) => {
                        let port = auth.skip(cp + 1);
                        if !port.contains('@') && port.len() > 0 && !all_digits(port) {
                            Some("Invalid port: '"@ + port + "'"@)
                        } else {
                            None
                        }
                    },
                }
            }
        },
    }
}

/// A malformed IPv6, IPv4 or IDNA host: the message for it.
pub open spec fn host_error(s: Seq<char>) -> Option<Seq<char>> {
    match after_scheme(s) {
        None => None,
        Some(after) => {
            let hs = match find_char(after, '@') {
                Some(p) => p + 1,
                None => 0,
            };
            let hp = after.skip(hs);
            if hp.len() > 0 && hp[0] == '[' {
                match find_char(hp, ']') {
                    Some(be) => if !spec_is_valid_ipv6(hp.subrange(1, be)) {
                        Some("Invalid IPv6 address: '"@ + hp.take(be + 1) + "'"@)
                    } else {
                        None
                    },
                    None => None,
                }
            } else {
                let host = hp.take(host_len(hp));
                if spec_looks_like_ipv4(host) && !spec_is_valid_ipv4(host) {
                    Some("Invalid IPv4 address: '"@ + host + "'"@)
                } else if host.len() > 0 && !vstd::utf8::is_ascii_chars(host) && !idna_ok(host) {
                    Some("Invalid IDNA hostname: '"@ + host + "'"@)
                } else {
                    None
                }
            }
        },
    }
}

/// A host name that avoids the blocks IDNA hosts may not use here.
pub open spec fn idna_ok(s: Seq<char>) -> bool {
    forall|i: int| 0 <= i < s.len() ==> !idna_forbidden(#[trigger] s[i])
}

/// Why a URL text is refused before parsing, if it is: too long (in
/// bytes), a control character, a port that is not a number, or a malformed
/// host.
pub open spec fn url_text_error(s: Seq<char>) -> Option<Seq<char>> {
    if crate::text::enc(s).len() > MAX_URL_LENGTH {
        Some("URL too long"@)
    } else {
        match find_non_printable(s) {
            Some(i) => Some(non_printable_message(
                "Invalid non-printable ASCII character in URL, "@,
                s,
                i,
            )),
            None => match port_error(s) {
                Some(m) => Some(m),
                None => host_error(s),
            },
        }
    }
}

/// The start of the text after the first "://" in `cs`, if any.
fn after_scheme_start(cs: &Vec<char>) -> (r: Option<usize>)
    ensures
        match find_sub(cs@, "://"@) {
            Some(a) => r matches Some(k) && k == a + 3 && a + 3 <= cs@.len(),
            None => r is None,
        },
{
    let sep = chars_of("://");
    proof {
        reveal_strlit("://");
    }
    assert(sep@.len() == 3);
    match crate::text::find_sub_at(cs.as_slice(), sep.as_slice(), 0) {
        Some(a) => {
            let m = sep.len();
            let n = cs.len();
            assert(a + m <= n);
            Some(a + m)
        },
        None => None,
    }
}

fn check_port(s: &str) -> (r: Option<String>)
    ensures
        match port_error(s@) {
            Some(m) => r matches Some(x) && x@ == m,
            None => r is None,
        },
{
    let cs = chars_of(s);
    let n = cs.len();
    match after_scheme_start(&cs) {
        None => None,
        Some(start) => {
            let ghost after = s@.skip(start as int);
            assert(cs@.subrange(start as int, n as int) =~= after);
            let ae = auth_end(cs.as_slice(), start, n);
            let ghost auth = after.take(auth_len(after));
            assert(cs@.subrange(start as int, ae as int) =~= auth);
            if ae > start && cs[start] == '[' {
                return None;
            }
            match rfind_in(cs.as_slice(), ':', start, ae) {
                None => None,
                Some(cp) => {
                    assert(cs@.subrange(cp + 1, ae as int) =~= auth.skip(cp + 1 - start));
                    if !occurs_in(cs.as_slice(), '@', cp + 1, ae) && cp + 1 < ae && !digits_only(
                        cs.as_slice(),
                        cp + 1,
                        ae,
                    ) {
                        let mut m = owned("Invalid port: '");
                        let port = string_of(cs.as_slice(), cp + 1, ae);
                        push_str(&mut m, port.as_str());
                        push_str(&mut m, "'");
                        Some(m)
                    } else {
                        None
                    }
                },
            }
        },
    }
}

fn check_host(s: &str) -> (r: Option<String>)
    ensures
        match host_error(s@) {
            Some(m) => r matches Some(x) && x@ == m,
            None => r is None,
        },
{
    let cs = chars_of(s);
    let n = cs.len();
    match after_scheme_start(&cs) {
        None => None,
        Some(start) => {
            let ghost after = s@.skip(start as int);
            assert(cs@.subrange(start as int, n as int) =~= after);
            let at = crate::text::find_from(cs.as_slice(), '@', start, n);
            let hs = if at < n {
                at + 1
            } else {
                start
            };
            let ghost hp = after.skip(hs - start);
            assert(cs@.subrange(hs as int, n as int) =~= hp);
            if hs < n && cs[hs] == '[' {
                let be = crate::text::find_from(cs.as_slice(), ']', hs, n);
                if be < n {
                    assert(cs@.subrange(hs + 1, be as int) =~= hp.subrange(1, be - hs));
                    let inner = string_of(cs.as_slice(), hs + 1, be);
                    if !is_valid_ipv6(inner.as_str()) {
                        assert(cs@.subrange(hs as int, be + 1) =~= hp.take(be - hs + 1));
                        let addr = string_of(cs.as_slice(), hs, be + 1);
                        let mut m = owned("Invalid IPv6 address: '");
                        push_str(&mut m, addr.as_str());
                        push_str(&mut m, "'");
                        return Some(m);
                    }
                }
                None
            } else {
                let he = host_delim_end(cs.as_slice(), hs, n);
                assert(cs@.subrange(hs as int, he as int) =~= hp.take(host_len(hp)));
                let host = string_of(cs.as_slice(), hs, he);
                if looks_like_ipv4(host.as_str()) && !is_valid_ipv4(host.as_str()) {
                    let mut m = owned("Invalid IPv4 address: '");
                    push_str(&mut m, host.as_str());
                    push_str(&mut m, "'");
                    return Some(m);
                }
                if he > hs && !host.as_str().is_ascii() && !is_valid_idna(host.as_str()) {
                    let mut m = owned("Invalid IDNA hostname: '");
                    push_str(&mut m, host.as_str());
                    push_str(&mut m, "'");
                    return Some(m);
                }
                None
            }
        },
    }
}

/// The length of a string in UTF-8 bytes.
pub fn byte_len(s: &str) -> (r: usize)
    ensures
        r == crate::text::enc(s@).len(),
{
    s.as_bytes().len()
}

/// Checks a URL's text before it is parsed.
pub fn check_url_text(s: &str) -> (r: Result<(), String>)
    ensures
        match url_text_error(s@) {
            Some(m) => r matches Err(e) && e@ == m,
            None => r is Ok,
        },
{
    if byte_len(s) > MAX_URL_LENGTH {
        return Err(owned("URL too long"));
    }
    match non_printable_check(s, "Invalid non-printable ASCII character in URL, ") {
        Some(m) => {
            return Err(m);
        },
        None => {},
    }
    match check_port(s) {
        Some(m) => {
            return Err(m);
        },
        None => {},
    }
    match check_host(s) {
        Some(m) => Err(m),
        None => Ok(()),
    }
}

} // verus!
