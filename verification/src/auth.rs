//! HTTP authentication: Basic credentials and Digest (RFC 2617 / RFC 7616)
//! responses.
use crate::codecs::{
    base64_encode, base64_standard, hex_encode, hex_string, md5_digest, md5_of, random_bytes_8,
    sha1_digest, sha1_of, sha256_digest, sha256_of, sha512_digest, sha512_of,
};
use crate::text::{
    ascii_text, chars_of, concat2, concat3, enc, ends_with, has_prefix_at, owned, push_str, seq_eq, split_bounds,
    split_char, str_eq, str_lower, str_upper, string_of, to_upper, trim, trim_bounds, lower_char,
    upper_char,
};
use vstd::prelude::*;

verus! {

// ----- Basic ---------------------------------------------------------------

/// The value of a Basic Authorization header: "Basic " and the Base64 of
/// "username:password".
pub open spec fn spec_basic_auth(username: Seq<char>, password: Seq<char>) -> Seq<char> {
    "Basic "@ + base64_standard(enc(username + ":"@ + password))
}

/// Builds a Basic auth header value: "Basic <base64(username:password)>".
pub fn basic_auth_header(username: &str, password: &str) -> (r: String)
    ensures
        r@ == spec_basic_auth(username@, password@),
{
    let credentials = concat3(username, ":", password);
    let encoded = base64_encode(credentials.as_str().as_bytes());
    concat2("Basic ", encoded.as_str())
}

/// Builds a Basic authentication header value from username and password.
pub fn build_basic_auth_header(username: &str, password: &str) -> (r: String)
    ensures
        r@ == spec_basic_auth(username@, password@),
{
    basic_auth_header(username, password)
}

// ----- Digest --------------------------------------------------------------

/// `s` with every trailing "-SESS" removed (what `trim_end_matches("-SESS")`
/// returns).
pub open spec fn strip_sess(s: Seq<char>) -> Seq<char>
    decreases s.len(),
{
    if s.len() >= 5 && ends_with(s, "-SESS"@) {
        strip_sess(s.take(s.len() - 5))
    } else {
        s
    }
}

/// The digest algorithm selected by a (case-insensitive) algorithm name; the
/// "-SESS" variants select the same algorithm and anything unknown selects
/// MD5.
pub enum DigestAlgorithm {
    Md5,
    Sha1,
    Sha256,
    Sha512,
}

/// The algorithm for a name.
pub open spec fn spec_algorithm(name: Seq<char>) -> DigestAlgorithm {
    let a = strip_sess(str_upper(name));
    if a == "SHA"@ {
        DigestAlgorithm::Sha1
    } else if a == "SHA-256"@ {
        DigestAlgorithm::Sha256
    } else if a == "SHA-512"@ {
        DigestAlgorithm::Sha512
    } else {
        DigestAlgorithm::Md5
    }
}

/// The digest of bytes with an algorithm.
pub open spec fn digest_with(alg: DigestAlgorithm, data: Seq<u8>) -> Seq<u8> {
    match alg {
        DigestAlgorithm::Md5 => md5_of(data),
        DigestAlgorithm::Sha1 => sha1_of(data),
        DigestAlgorithm::Sha256 => sha256_of(data),
        DigestAlgorithm::Sha512 => sha512_of(data),
    }
}

/// The lowercase hex digest of the UTF-8 text with the named algorithm.
pub open spec fn spec_digest_hash(data: Seq<char>, algorithm: Seq<char>) -> Seq<char> {
    hex_string(digest_with(spec_algorithm(algorithm), enc(data)))
}

/// Law: a "-sess" algorithm name hashes with the same algorithm as the name
/// without the suffix (the suffix in any letter case), and for ASCII names
/// the letter case of the name does not matter.
pub proof fn law_digest_algorithm_names(name: Seq<char>, suffix: Seq<char>)
    requires
        ascii_text(name),
        ascii_text(suffix),
        str_upper(suffix) == "-SESS"@,
    ensures
        spec_algorithm(name + suffix) == spec_algorithm(name),
        spec_algorithm(str_lower(name)) == spec_algorithm(name),
        forall|data: Seq<char>| #[trigger]
            spec_digest_hash(data, name + suffix) == spec_digest_hash(data, name),
        forall|data: Seq<char>| #[trigger]
            spec_digest_hash(data, str_lower(name)) == spec_digest_hash(data, name),
{
    reveal_strlit("-SESS");
    let s = name + suffix;
    assert(ascii_text(s)) by {
        assert forall|i: int| 0 <= i < s.len() implies (#[trigger] s[i] as u32) < 128 by {
            if i < name.len() {
                assert(s[i] == name[i]);
            } else {
                assert(s[i] == suffix[i - name.len()]);
            }
        }
    }
    let u = str_upper(s);
    assert(u =~= str_upper(name) + str_upper(suffix));
    assert(u.len() >= 5);
    assert(u.skip(u.len() - 5) =~= "-SESS"@);
    assert(u.take(u.len() - 5) =~= str_upper(name));
    let l = str_lower(name);
    assert(ascii_text(l)) by {
        assert forall|i: int| 0 <= i < l.len() implies (#[trigger] l[i] as u32) < 128 by {
            assert(l[i] == lower_char(name[i]));
        }
    }
    assert forall|i: int| 0 <= i < name.len() implies #[trigger] upper_char(lower_char(name[i]))
        == upper_char(name[i]) by {
        let c = name[i];
        if 'A' <= c && c <= 'Z' {
            assert(lower_char(c) as u32 == c as u32 + 32);
        }
    }
    assert(str_upper(l) =~= str_upper(name));
}

fn strip_sess_len(cs: &Vec<char>) -> (r: usize)
    ensures
        r <= cs@.len(),
        strip_sess(cs@) == cs@.take(r as int),
{
    let suffix = chars_of("-SESS");
    proof {
        reveal_strlit("-SESS");
    }
    let mut n = cs.len();
    assert(cs@.take(n as int) =~= cs@);
    while n >= 5 && has_prefix_at(cs.as_slice(), n - 5, suffix.as_slice())
        invariant
            n <= cs@.len(),
            suffix@ == "-SESS"@,
            suffix@.len() == 5,
            strip_sess(cs@) == strip_sess(cs@.take(n as int)),
        decreases n,
    {
        proof {
            let t = cs@.take(n as int);
            assert(cs@.skip(n - 5).take(5) =~= t.skip(t.len() - 5));
            assert(t.take(t.len() - 5) =~= cs@.take(n - 5));
        }
        n = n - 5;
    }
    proof {
        let t = cs@.take(n as int);
        if n >= 5 {
            assert(cs@.skip(n - 5).take(5) =~= t.skip(t.len() - 5));
        }
    }
    n
}

/// Which algorithm a name selects.
pub fn algorithm_for(algorithm: &str) -> (r: DigestAlgorithm)
    ensures
        r == spec_algorithm(algorithm@),
{
    let upper = to_upper(algorithm);
    let cs = chars_of(upper.as_str());
    let n = strip_sess_len(&cs);
    let a = string_of(cs.as_slice(), 0, n);
    assert(a@ == strip_sess(str_upper(algorithm@)));
    let s = a.as_str();
    if str_eq(s, "SHA") {
        DigestAlgorithm::Sha1
    } else if str_eq(s, "SHA-256") {
        DigestAlgorithm::Sha256
    } else if str_eq(s, "SHA-512") {
        DigestAlgorithm::Sha512
    } else {
        DigestAlgorithm::Md5
    }
}

/// Computes a digest hash using the specified algorithm (MD5, SHA, SHA-256,
/// SHA-512 and their -SESS variants; MD5 for anything else), as lowercase hex.
pub fn digest_hash(data: &str, algorithm: &str) -> (r: String)
    ensures
        r@ == spec_digest_hash(data@, algorithm@),
{
    let bytes = data.as_bytes();
    let d = match algorithm_for(algorithm) {
        DigestAlgorithm::Md5 => md5_digest(bytes),
        DigestAlgorithm::Sha1 => sha1_digest(bytes),
        DigestAlgorithm::Sha256 => sha256_digest(bytes),
        DigestAlgorithm::Sha512 => sha512_digest(bytes),
    };
    hex_encode(d.as_slice())
}

/// A client nonce: the first 8 bytes of the SHA-1 of 8 random bytes, as 16
/// lowercase hex characters.
pub open spec fn is_cnonce(s: Seq<char>) -> bool {
    exists|b: Seq<u8>| b.len() == 8 && s == hex_string(#[trigger] sha1_of(b).take(8))
}

/// The client nonce made from given bytes: the first 8 bytes of their
/// SHA-1, as lowercase hex.
pub fn cnonce_of(bytes: &[u8]) -> (r: String)
    ensures
        r@ == hex_string(sha1_of(bytes@).take(8)),
{
    let d = sha1_digest(bytes);
    let first = slice_prefix(&d, 8);
    hex_encode(first.as_slice())
}

/// Generates a client nonce for Digest auth (16 hex characters) from 8
/// random bytes.
pub fn generate_cnonce() -> (r: String)
    ensures
        is_cnonce(r@),
{
    let bytes = random_bytes_8();
    let r = cnonce_of(bytes.as_slice());
    assert(r@ == hex_string(sha1_of(bytes@).take(8)));
    r
}

fn slice_prefix(v: &Vec<u8>, n: usize) -> (r: Vec<u8>)
    requires
        n <= v@.len(),
    ensures
        r@ == v@.take(n as int),
{
    let mut r: Vec<u8> = Vec::new();
    let mut i: usize = 0;
    while i < n
        invariant
            i <= n <= v@.len(),
            r@ == v@.take(i as int),
        decreases n - i,
    {
        r.push(v[i]);
        i = i + 1;
        assert(r@ =~= v@.take(i as int));
    }
    r
}

/// Why a Digest response could not be computed.
#[derive(Debug)]
pub enum DigestError {
    /// The server offered only qop "auth-int", which is not implemented.
    AuthIntNotImplemented,
    /// The server's qop value offers neither "auth" nor "auth-int"; the text
    /// is the message to report.
    UnsupportedQop(String),
}

/// Whether the comma-separated qop options (each trimmed) include `opt`.
pub open spec fn qop_offers(qop: Seq<char>, opt: Seq<char>) -> bool {
    exists|i: int|
        0 <= i < split_char(qop, ',').len() && #[trigger] trim(split_char(qop, ',')[i]) == opt
}

/// HA1: the hash of "username:realm:password", rehashed with
/// ":nonce:cnonce" for the -SESS algorithms.
pub open spec fn spec_ha1(
    username: Seq<char>,
    password: Seq<char>,
    realm: Seq<char>,
    nonce: Seq<char>,
    cnonce: Seq<char>,
    algorithm: Seq<char>,
) -> Seq<char> {
    let h = spec_digest_hash(username + ":"@ + realm + ":"@ + password, algorithm);
    if ends_with(str_upper(algorithm), "-SESS"@) {
        spec_digest_hash(h + ":"@ + nonce + ":"@ + cnonce, algorithm)
    } else {
        h
    }
}

/// The Digest response for the request: `Ok((response, qop used))`, or why
/// none could be computed.
pub open spec fn spec_digest_response(
    username: Seq<char>,
    password: Seq<char>,
    realm: Seq<char>,
    nonce: Seq<char>,
    nc: Seq<char>,
    cnonce: Seq<char>,
    qop: Seq<char>,
    method: Seq<char>,
    uri: Seq<char>,
    algorithm: Seq<char>,
) -> Result<(Seq<char>, Option<Seq<char>>), ()> {
    let ha1 = spec_ha1(username, password, realm, nonce, cnonce, algorithm);
    let ha2 = spec_digest_hash(method + ":"@ + uri, algorithm);
    if qop.len() == 0 {
        Ok((spec_digest_hash(ha1 + ":"@ + nonce + ":"@ + ha2, algorithm), None))
    } else if qop_offers(qop, "auth"@) {
        Ok(
            (
                spec_digest_hash(
                    ha1 + ":"@ + nonce + ":"@ + nc + ":"@ + cnonce + ":"@ + "auth"@ + ":"@ + ha2,
                    algorithm,
                ),
                Some("auth"@),
            ),
        )
    } else {
        Err(())
    }
}

/// Law (RFC 7616 3.4.2, RFC 2617 3.2.2.1): with qop "auth" offered, the
/// response is H(HA1 ":" nonce ":" nc ":" cnonce ":auth:" HA2), and with no
/// qop it is H(HA1 ":" nonce ":" HA2), where H is the hex digest of the named
/// algorithm, HA2 = H(method ":" uri), and HA1 = H(username ":" realm ":"
/// password), for a "-sess" algorithm hashed once more as
/// H(HA1 ":" nonce ":" cnonce).
pub proof fn law_digest_response(
    username: Seq<char>,
    password: Seq<char>,
    realm: Seq<char>,
    nonce: Seq<char>,
    nc: Seq<char>,
    cnonce: Seq<char>,
    qop: Seq<char>,
    method: Seq<char>,
    uri: Seq<char>,
    algorithm: Seq<char>,
)
    ensures
        ({
            let credentials = spec_digest_hash(
                username + ":"@ + realm + ":"@ + password,
                algorithm,
            );
            let ha1 = if ends_with(str_upper(algorithm), "-SESS"@) {
                spec_digest_hash(credentials + ":"@ + nonce + ":"@ + cnonce, algorithm)
            } else {
                credentials
            };
            let ha2 = spec_digest_hash(method + ":"@ + uri, algorithm);
            &&& qop.len() == 0 ==> spec_digest_response(
                username,
                password,
                realm,
                nonce,
                nc,
                cnonce,
                qop,
                method,
                uri,
                algorithm,
            ) == Ok::<(Seq<char>, Option<Seq<char>>), ()>(
                (spec_digest_hash(ha1 + ":"@ + nonce + ":"@ + ha2, algorithm), None),
            )
            &&& qop.len() > 0 && qop_offers(qop, "auth"@) ==> spec_digest_response(
                username,
                password,
                realm,
                nonce,
                nc,
                cnonce,
                qop,
                method,
                uri,
                algorithm,
            ) == Ok::<(Seq<char>, Option<Seq<char>>), ()>(
                (
                    spec_digest_hash(
                        ha1 + ":"@ + nonce + ":"@ + nc + ":"@ + cnonce + ":auth:"@ + ha2,
                        algorithm,
                    ),
                    Some("auth"@),
                ),
            )
        }),
{
    reveal_strlit(":");
    reveal_strlit("auth");
    reveal_strlit(":auth:");
    let ha1 = spec_ha1(username, password, realm, nonce, cnonce, algorithm);
    let ha2 = spec_digest_hash(method + ":"@ + uri, algorithm);
    assert(ha1 + ":"@ + nonce + ":"@ + nc + ":"@ + cnonce + ":"@ + "auth"@ + ":"@ + ha2 =~= ha1
        + ":"@ + nonce + ":"@ + nc + ":"@ + cnonce + ":auth:"@ + ha2);
}


fn qop_has(qop: &str, opt: &str) -> (r: bool)
    ensures
        r == qop_offers(qop@, opt@),
{
    let cs = chars_of(qop);
    let parts = split_bounds(cs.as_slice(), ',', 0, cs.len());
    let ghost sp = split_char(qop@, ',');
    assert(cs@.subrange(0, cs@.len() as int) =~= cs@);
    let o = chars_of(opt);
    let mut k: usize = 0;
    while k < parts.len()
        invariant
            k <= parts@.len(),
            parts@.len() == sp.len(),
            sp == split_char(qop@, ','),
            cs@ == qop@,
            o@ == opt@,
            forall|m: int|
                0 <= m < parts@.len() ==> 0 <= #[trigger] parts@[m].0 <= parts@[m].1 <= cs@.len()
                    && cs@.subrange(parts@[m].0 as int, parts@[m].1 as int) == sp[m],
            forall|m: int| 0 <= m < k ==> trim(#[trigger] sp[m]) != opt@,
        decreases parts.len() - k,
    {
        let (s, e) = parts[k];
        let (a, b) = trim_bounds(cs.as_slice(), s, e);
        let piece = string_of(cs.as_slice(), a, b);
        let pc = chars_of(piece.as_str());
        if seq_eq(&pc, &o) {
            assert(trim(sp[k as int]) == opt@);
            return true;
        }
        k = k + 1;
    }
    false
}

fn ends_with_sess(algorithm: &str) -> (r: bool)
    ensures
        r == ends_with(str_upper(algorithm@), "-SESS"@),
{
    let upper = to_upper(algorithm);
    crate::text::str_ends_with(upper.as_str(), "-SESS")
}

/// Builds the Digest auth response value; returns the response hash and the
/// qop value used (if any).
pub fn compute_digest_response(
    username: &str,
    password: &str,
    realm: &str,
    nonce: &str,
    nc: &str,
    cnonce: &str,
    qop: &str,
    method: &str,
    uri: &str,
    algorithm: &str,
) -> (r: Result<(String, Option<String>), DigestError>)
    ensures
        match spec_digest_response(
            username@,
            password@,
            realm@,
            nonce@,
            nc@,
            cnonce@,
            qop@,
            method@,
            uri@,
            algorithm@,
        ) {
            Ok((resp, q)) => r matches Ok((x, y)) && x@ == resp && match q {
                Some(qv) => y matches Some(yv) && yv@ == qv,
                None => y is None,
            },
            Err(_) => if qop_offers(qop@, "auth-int"@) {
                r matches Err(DigestError::AuthIntNotImplemented)
            } else {
                r matches Err(DigestError::UnsupportedQop(m)) && m@
                    == "Unsupported Digest auth qop value: "@ + qop@
            },
        },
        ends_with(str_upper(algorithm@), "-SESS"@) && qop@.len() > 0 && qop_offers(qop@, "auth"@)
            ==> (r matches Ok((x, _)) && x@ == spec_digest_hash(
            spec_digest_hash(
                spec_digest_hash(username@ + ":"@ + realm@ + ":"@ + password@, algorithm@) + ":"@
                    + nonce@ + ":"@ + cnonce@,
                algorithm@,
            ) + ":"@ + nonce@ + ":"@ + nc@ + ":"@ + cnonce@ + ":auth:"@ + spec_digest_hash(
                method@ + ":"@ + uri@,
                algorithm@,
            ),
            algorithm@,
        )),
{
    proof {
        law_digest_response(
            username@,
            password@,
            realm@,
            nonce@,
            nc@,
            cnonce@,
            qop@,
            method@,
            uri@,
            algorithm@,
        );
    }
    let mut a1 = concat3(username, ":", realm);
    push_str(&mut a1, ":");
    push_str(&mut a1, password);
    let ha1_base = digest_hash(a1.as_str(), algorithm);
    let ha1 = if ends_with_sess(algorithm) {
        let mut s = concat3(ha1_base.as_str(), ":", nonce);
        push_str(&mut s, ":");
        push_str(&mut s, cnonce);
        digest_hash(s.as_str(), algorithm)
    } else {
        ha1_base
    };
    let a2 = concat3(method, ":", uri);
    let ha2 = digest_hash(a2.as_str(), algorithm);
    if !qop.is_empty() {
        if qop_has(qop, "auth") {
            let mut data = concat3(ha1.as_str(), ":", nonce);
            push_str(&mut data, ":");
            push_str(&mut data, nc);
            push_str(&mut data, ":");
            push_str(&mut data, cnonce);
            push_str(&mut data, ":");
            push_str(&mut data, "auth");
            push_str(&mut data, ":");
            push_str(&mut data, ha2.as_str());
            Ok((digest_hash(data.as_str(), algorithm), Some(owned("auth"))))
        } else if qop_has(qop, "auth-int") {
            Err(DigestError::AuthIntNotImplemented)
        } else {
            Err(DigestError::UnsupportedQop(concat2("Unsupported Digest auth qop value: ", qop)))
        }
    } else {
        proof {
            assert(qop@.len() == 0);
        }
        let mut data = concat3(ha1.as_str(), ":", nonce);
        push_str(&mut data, ":");
        push_str(&mut data, ha2.as_str());
        Ok((digest_hash(data.as_str(), algorithm), None))
    }
}

} // verus!
