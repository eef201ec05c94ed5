//! Reading back a query string: parsing what serialisation wrote gives the
//! same parameters (a space is written as "+" and read back as a space; a
//! "+" is written as "%2B").
use crate::codecs::{hex_upper, hex_value, is_unreserved, percent_decode, percent_decoded_text, percent_encode};
use crate::queryparams::{
    decoded_or_raw, form_component, form_decoded, parse_piece, parse_pieces, plus_for_space,
    query_pieces, space_for_plus, spec_parse_query, spec_to_query_string, Params,
};
use crate::text::{enc, find_char, join, lemma_find_char_is, split_char};
use crate::url_parts::{query_safe_char, query_safe_text};
use vstd::prelude::*;
use vstd::utf8::{encode_utf8_decode_utf8, encode_utf8_valid_utf8, is_ascii_chars, is_ascii_chars_encode_utf8};

verus! {

/// The token percent-encoding writes for one byte.
spec fn token(b: u8) -> Seq<char> {
    if is_unreserved(b) {
        seq![b as char]
    } else {
        seq!['%', hex_upper(b / 16), hex_upper(b % 16)]
    }
}

/// Characters of percent-encoded text: ASCII, never '&' or '='.
spec fn safe_char(c: char) -> bool {
    '\0' <= c <= '\u{7f}' && c != '&' && c != '='
}

spec fn safe_text(t: Seq<char>) -> bool {
    forall|i: int| 0 <= i < t.len() ==> safe_char(#[trigger] t[i])
}

/// Each character as its byte.
spec fn ascii_bytes(t: Seq<char>) -> Seq<u8> {
    t.map_values(|c: char| c as u8)
}

proof fn lemma_hex_upper(d: u8)
    requires
        d < 16,
    ensures
        safe_char(hex_upper(d)),
        hex_upper(d) != '%',
        hex_value(hex_upper(d) as u8) == Some(d),
        hex_upper(d) != '0' || d == 0,
        hex_upper(d) != '2' || d == 2,
{
    if d < 10 {
        assert(((48 + d) as u8) as char as u8 == (48 + d) as u8);
    } else {
        assert(((55 + d) as u8) as char as u8 == (55 + d) as u8);
    }
}

proof fn lemma_token(b: u8)
    ensures
        safe_text(token(b)),
        token(b).len() >= 1,
        token(b)[0] != '%' <==> is_unreserved(b),
        is_unreserved(b) ==> token(b) == seq![b as char] && (b as char) as u8 == b,
        !is_unreserved(b) ==> token(b).len() == 3 && token(b)[1] != '%' && token(b)[2] != '%',
        !is_unreserved(b) ==> hex_value(token(b)[1] as u8) == Some(b / 16) && hex_value(
            token(b)[2] as u8,
        ) == Some(b % 16),
        !is_unreserved(b) && b != 32 ==> !(token(b)[1] == '2' && token(b)[2] == '0'),
{
    if is_unreserved(b) {
        assert((b as char) as u8 == b);
    } else {
        lemma_hex_upper(b / 16);
        lemma_hex_upper(b % 16);
        assert(b == (b / 16) * 16 + b % 16);
    }
}

proof fn lemma_pe_front(bs: Seq<u8>)
    requires
        bs.len() > 0,
    ensures
        percent_encode(bs) == token(bs[0]) + percent_encode(bs.drop_first()),
{
}

proof fn lemma_ascii_enc(t: Seq<char>)
    requires
        safe_text(t),
    ensures
        enc(t) == ascii_bytes(t),
{
    assert(is_ascii_chars(t)) by {
        assert forall|i| 0 <= i < t.len() implies '\0' <= #[trigger] t[i] <= '\u{7f}' by {
            assert(safe_char(t[i]));
        }
    }
    is_ascii_chars_encode_utf8(t);
    assert(enc(t) =~= ascii_bytes(t));
}

proof fn lemma_pfs_token(t: Seq<char>, r: Seq<char>, b: u8)
    requires
        t == token(b),
        b != 32,
    ensures
        plus_for_space(t + r) == t + plus_for_space(r),
{
    lemma_token(b);
    if is_unreserved(b) {
        assert((t + r).drop_first() =~= r);
    } else {
        let s = t + r;
        assert(s[0] == '%');
        assert(s.drop_first() =~= seq![t[1], t[2]] + r);
        let s1 = seq![t[1], t[2]] + r;
        assert(s1.drop_first() =~= seq![t[2]] + r);
        let s2 = seq![t[2]] + r;
        assert(s2.drop_first() =~= r);
        assert(plus_for_space(s2) =~= seq![t[2]] + plus_for_space(r));
        assert(plus_for_space(s1) =~= seq![t[1], t[2]] + plus_for_space(r));
        assert(plus_for_space(s) =~= t + plus_for_space(r));
    }
}

/// What form encoding writes for one byte: "+" for a space, otherwise its
/// percent-encoding token.
spec fn plus_token(b: u8) -> Seq<char> {
    if b == 32 {
        seq!['+']
    } else {
        token(b)
    }
}

/// What reading "+" as a space leaves of `plus_token(b)`.
spec fn space_token(b: u8) -> Seq<char> {
    if b == 32 {
        seq![' ']
    } else {
        token(b)
    }
}

proof fn lemma_token_space()
    ensures
        token(32) == seq!['%', '2', '0'],
{
    assert(!is_unreserved(32));
    assert(hex_upper(2) == '2') by {
        assert(((48 + 2u8) as u8) as char == '2');
    }
    assert(hex_upper(0) == '0') by {
        assert(((48 + 0u8) as u8) as char == '0');
    }
    assert(token(32) =~= seq!['%', '2', '0']);
}

proof fn lemma_pfs_front(bs: Seq<u8>)
    requires
        bs.len() > 0,
    ensures
        plus_for_space(percent_encode(bs)) == plus_token(bs[0]) + plus_for_space(
            percent_encode(bs.drop_first()),
        ),
{
    lemma_pe_front(bs);
    let r = percent_encode(bs.drop_first());
    if bs[0] == 32 {
        lemma_token_space();
        let s = token(32) + r;
        assert(s[0] == '%' && s[1] == '2' && s[2] == '0');
        assert(s.skip(3) =~= r);
        assert(plus_for_space(s) =~= seq!['+'] + plus_for_space(r));
    } else {
        lemma_pfs_token(token(bs[0]), r, bs[0]);
    }
}

proof fn lemma_sfp_concat(a: Seq<char>, b: Seq<char>)
    ensures
        space_for_plus(a + b) == space_for_plus(a) + space_for_plus(b),
{
    assert(space_for_plus(a + b) =~= space_for_plus(a) + space_for_plus(b));
}

proof fn lemma_plus_token(b: u8)
    ensures
        space_for_plus(plus_token(b)) == space_token(b),
        safe_text(plus_token(b)),
        safe_text(space_token(b)),
        query_safe_text(plus_token(b)),
{
    if b == 32 {
        assert(space_for_plus(seq!['+']) =~= seq![' ']);
        assert(query_safe_char('+'));
    } else {
        lemma_token(b);
        lemma_token_query_safe(b);
        let t = token(b);
        assert forall|i: int| 0 <= i < t.len() implies #[trigger] t[i] != '+' by {
            if is_unreserved(b) {
                assert(t[i] == b as char);
                assert((b as char) as u8 == b);
            } else if i == 0 {
            } else {
                assert(hex_value(t[i] as u8) is Some);
                assert(hex_value('+' as u8) is None);
            }
        }
        assert(space_for_plus(t) =~= t);
    }
}

proof fn lemma_safe_concat(a: Seq<char>, b: Seq<char>)
    requires
        safe_text(a),
        safe_text(b),
    ensures
        safe_text(a + b),
{
    assert forall|i: int| 0 <= i < (a + b).len() implies safe_char(#[trigger] (a + b)[i]) by {
        if i < a.len() {
            assert((a + b)[i] == a[i]);
        } else {
            assert((a + b)[i] == b[i - a.len()]);
        }
    }
}

/// Form encoding of bytes holds no '&' or '=', only characters the url crate
/// keeps in a query, and reading its "+" as spaces then percent-decoding
/// gives the bytes back.
proof fn lemma_form_bytes(bs: Seq<u8>)
    ensures
        safe_text(plus_for_space(percent_encode(bs))),
        query_safe_text(plus_for_space(percent_encode(bs))),
        safe_text(space_for_plus(plus_for_space(percent_encode(bs)))),
        percent_decode(ascii_bytes(space_for_plus(plus_for_space(percent_encode(bs))))) == bs,
    decreases bs.len(),
{
    if bs.len() == 0 {
        assert(percent_encode(bs) =~= Seq::<char>::empty());
        assert(plus_for_space(Seq::<char>::empty()) =~= Seq::<char>::empty());
        assert(space_for_plus(Seq::<char>::empty()) =~= Seq::<char>::empty());
        assert(ascii_bytes(Seq::<char>::empty()) =~= Seq::<u8>::empty());
    } else {
        let b = bs[0];
        let rest = bs.drop_first();
        lemma_form_bytes(rest);
        lemma_pfs_front(bs);
        lemma_plus_token(b);
        let r = plus_for_space(percent_encode(rest));
        lemma_sfp_concat(plus_token(b), r);
        lemma_safe_concat(plus_token(b), r);
        lemma_concat_query_safe(plus_token(b), r);
        lemma_safe_concat(space_token(b), space_for_plus(r));
        let t = space_token(b);
        let sr = space_for_plus(r);
        let all = ascii_bytes(t + sr);
        assert(all =~= ascii_bytes(t) + ascii_bytes(sr));
        if b == 32 {
            assert(all[0] == 32u8);
            assert(all.drop_first() =~= ascii_bytes(sr));
            assert(percent_decode(all) =~= seq![b] + percent_decode(ascii_bytes(sr)));
        } else {
            lemma_token(b);
            if is_unreserved(b) {
                assert(all[0] == b);
                assert(b != 37);
                assert(all.drop_first() =~= ascii_bytes(sr));
                assert(percent_decode(all) =~= seq![b] + percent_decode(ascii_bytes(sr)));
            } else {
                assert(all[0] == 37u8);
                assert(all[1] == t[1] as u8);
                assert(all[2] == t[2] as u8);
                assert(all.skip(3) =~= ascii_bytes(sr));
                assert(((b / 16) * 16 + b % 16) as u8 == b);
                assert(percent_decode(all) =~= seq![b] + percent_decode(ascii_bytes(sr)));
            }
        }
        assert(bs =~= seq![b] + rest);
    }
}

/// Serialising then reading back a component gives it back.
proof fn lemma_component(s: Seq<char>)
    ensures
        safe_text(form_component(s)),
        query_safe_text(form_component(s)),
        form_decoded(form_component(s)) == s,
{
    lemma_form_bytes(enc(s));
    let d = space_for_plus(form_component(s));
    lemma_ascii_enc(d);
    encode_utf8_valid_utf8(s);
    encode_utf8_decode_utf8(s);
    assert(percent_decoded_text(d) == Some(s));
}

proof fn lemma_find_eq(a: Seq<char>, b: Seq<char>)
    requires
        safe_text(a),
    ensures
        find_char(a + "="@ + b, '=') == Some(a.len() as int),
        (a + "="@ + b).take(a.len() as int) == a,
        (a + "="@ + b).skip(a.len() as int + 1) == b,
{
    reveal_strlit("=");
    let s = a + "="@ + b;
    assert forall|j: int| 0 <= j < a.len() implies s[j] != '=' by {
        assert(s[j] == a[j]);
        assert(safe_char(a[j]));
    }
    assert(s[a.len() as int] == '=');
    lemma_find_char_is(s, '=', a.len() as int);
    assert(s.take(a.len() as int) =~= a);
    assert(s.skip(a.len() as int + 1) =~= b);
}

/// The pieces written for the pairs.
proof fn lemma_piece(p: (Seq<char>, Seq<char>))
    ensures
        parse_piece(form_component(p.0) + "="@ + form_component(p.1)) == p,
        safe_text(form_component(p.0)),
        safe_text(form_component(p.1)),
        (form_component(p.0) + "="@ + form_component(p.1)).len() > 0,
        forall|i: int|
            0 <= i < (form_component(p.0) + "="@ + form_component(p.1)).len() ==> #[trigger] (
            form_component(p.0) + "="@ + form_component(p.1))[i] != '&',
{
    reveal_strlit("=");
    lemma_component(p.0);
    lemma_component(p.1);
    lemma_find_eq(form_component(p.0), form_component(p.1));
    let a = form_component(p.0);
    let b = form_component(p.1);
    let s = a + "="@ + b;
    assert forall|i: int| 0 <= i < s.len() implies #[trigger] s[i] != '&' by {
        if i < a.len() {
            assert(s[i] == a[i]);
            assert(safe_char(a[i]));
        } else if i == a.len() {
            assert(s[i] == '=');
        } else {
            assert(s[i] == b[i - a.len() - 1]);
            assert(safe_char(b[i - a.len() - 1]));
        }
    }
}

/// The front form of `join`.
proof fn lemma_join_front(parts: Seq<Seq<char>>, sep: Seq<char>)
    requires
        parts.len() >= 2,
    ensures
        join(parts, sep) == parts[0] + sep + join(parts.drop_first(), sep),
    decreases parts.len(),
{
    if parts.len() > 2 {
        lemma_join_front(parts.drop_last(), sep);
        assert(parts.drop_last().drop_first() =~= parts.drop_first().drop_last());
        assert(parts.drop_first().last() == parts.last());
        assert(parts.drop_last()[0] == parts[0]);
        let x = join(parts.drop_first().drop_last(), sep);
        assert(join(parts.drop_first(), sep) == x + sep + parts.last());
        assert(join(parts, sep) == join(parts.drop_last(), sep) + sep + parts.last());
        assert(join(parts.drop_last(), sep) == parts[0] + sep + x);
        assert((parts[0] + sep + x) + sep + parts.last() =~= parts[0] + sep + (x + sep + parts.last()));
    } else {
        assert(parts.drop_last() =~= seq![parts[0]]);
        assert(parts.drop_first() =~= seq![parts[1]]);
        assert(join(seq![parts[0]], sep) == parts[0]);
        assert(join(seq![parts[1]], sep) == parts[1]);
    }
}

/// Splitting at '&' what was joined with "&" gives the pieces back.
proof fn lemma_split_join(parts: Seq<Seq<char>>)
    requires
        parts.len() >= 1,
        forall|k: int, i: int| 0 <= k < parts.len() && 0 <= i < parts[k].len() ==> #[trigger] parts[k][i] != '&',
    ensures
        split_char(join(parts, "&"@), '&') == parts,
    decreases parts.len(),
{
    reveal_strlit("&");
    if parts.len() == 1 {
        let a = parts[0];
        assert forall|j: int| 0 <= j < a.len() implies a[j] != '&' by {
            assert(parts[0][j] != '&');
        }
        lemma_find_char_is(a, '&', a.len() as int);
        assert(split_char(a, '&') =~= seq![a]);
        assert(parts =~= seq![a]);
    } else {
        lemma_join_front(parts, "&"@);
        let a = parts[0];
        let rest = parts.drop_first();
        assert forall|k: int, i: int| 0 <= k < rest.len() && 0 <= i < rest[k].len() implies #[trigger] rest[k][i] != '&' by {
            assert(rest[k] == parts[k + 1]);
        }
        lemma_split_join(rest);
        let s = a + "&"@ + join(rest, "&"@);
        assert forall|j: int| 0 <= j < a.len() implies s[j] != '&' by {
            assert(s[j] == a[j]);
            assert(parts[0][j] != '&');
        }
        assert(s[a.len() as int] == '&');
        lemma_find_char_is(s, '&', a.len() as int);
        assert(s.take(a.len() as int) =~= a);
        assert(s.skip(a.len() as int + 1) =~= join(rest, "&"@));
        assert(split_char(s, '&') =~= seq![a] + rest);
        assert(parts =~= seq![a] + rest);
    }
}

proof fn lemma_parse_pieces(items: Params)
    ensures
        parse_pieces(query_pieces(items)) == items,
    decreases items.len(),
{
    if items.len() > 0 {
        let init = items.drop_last();
        lemma_parse_pieces(init);
        let ps = query_pieces(items);
        assert(ps.drop_last() =~= query_pieces(init));
        let p = items.last();
        lemma_piece(p);
        assert(ps.last() == form_component(p.0) + "="@ + form_component(p.1));
        assert(items =~= init.push(p));
    }
}

/// Law: a query string written from any parameters parses back to the same
/// parameters, in the same order.
pub proof fn law_query_string_round_trip(items: Params)
    ensures
        spec_parse_query(spec_to_query_string(items)) == items,
{
    let ps = query_pieces(items);
    if items.len() == 0 {
        reveal_strlit("");
        assert(ps =~= Seq::<Seq<char>>::empty());
        assert(join(ps, "&"@) =~= Seq::<char>::empty());
        lemma_find_char_is(Seq::<char>::empty(), '&', 0);
        assert(split_char(Seq::<char>::empty(), '&') =~= seq![Seq::<char>::empty()]);
        let one = seq![Seq::<char>::empty()];
        assert(one.len() == 1);
        assert(one.last().len() == 0);
        assert(one.drop_last() =~= Seq::<Seq<char>>::empty());
        assert(parse_pieces(Seq::<Seq<char>>::empty()) == Seq::<(Seq<char>, Seq<char>)>::empty());
        assert(parse_pieces(one) == parse_pieces(one.drop_last()));
    } else {
        assert forall|k: int, i: int| 0 <= k < ps.len() && 0 <= i < ps[k].len() implies #[trigger] ps[k][i] != '&' by {
            lemma_piece(items[k]);
            assert(ps[k] == form_component(items[k].0) + "="@ + form_component(items[k].1));
        }
        lemma_split_join(ps);
        lemma_parse_pieces(items);
    }
}


proof fn lemma_token_query_safe(b: u8)
    ensures
        query_safe_text(token(b)),
{
    if is_unreserved(b) {
        assert(query_safe_char(b as char));
    } else {
        let hi = b / 16;
        let lo = b % 16;
        assert(query_safe_char(hex_upper(hi))) by {
            if hi < 10 {
                assert(((48 + hi) as u8) as char as u32 == 48 + hi);
            } else {
                assert(((55 + hi) as u8) as char as u32 == 55 + hi);
            }
        }
        assert(query_safe_char(hex_upper(lo))) by {
            if lo < 10 {
                assert(((48 + lo) as u8) as char as u32 == 48 + lo);
            } else {
                assert(((55 + lo) as u8) as char as u32 == 55 + lo);
            }
        }
    }
}

proof fn lemma_concat_query_safe(a: Seq<char>, b: Seq<char>)
    requires
        query_safe_text(a),
        query_safe_text(b),
    ensures
        query_safe_text(a + b),
{
    assert forall|i: int| 0 <= i < (a + b).len() implies query_safe_char(#[trigger] (a + b)[i]) by {
        if i < a.len() {
            assert((a + b)[i] == a[i]);
        } else {
            assert((a + b)[i] == b[i - a.len()]);
        }
    }
}

proof fn lemma_join_query_safe(parts: Seq<Seq<char>>, sep: Seq<char>)
    requires
        forall|k: int| 0 <= k < parts.len() ==> query_safe_text(#[trigger] parts[k]),
        query_safe_text(sep),
    ensures
        query_safe_text(join(parts, sep)),
    decreases parts.len(),
{
    if parts.len() > 1 {
        lemma_join_query_safe(parts.drop_last(), sep);
        assert(query_safe_text(parts.last()));
        lemma_concat_query_safe(join(parts.drop_last(), sep), sep);
        lemma_concat_query_safe(join(parts.drop_last(), sep) + sep, parts.last());
    } else if parts.len() == 1 {
        assert(query_safe_text(parts[0]));
    }
}

/// A query string written from any parameters holds only characters the url
/// crate stores in a query as they are.
pub proof fn lemma_query_string_query_safe(items: Params)
    ensures
        query_safe_text(spec_to_query_string(items)),
{
    let ps = query_pieces(items);
    assert(query_safe_text("="@)) by {
        reveal_strlit("=");
    }
    assert(query_safe_text("&"@)) by {
        reveal_strlit("&");
    }
    assert forall|k: int| 0 <= k < ps.len() implies query_safe_text(#[trigger] ps[k]) by {
        let p = items[k];
        lemma_component(p.0);
        lemma_component(p.1);
        lemma_concat_query_safe(form_component(p.0), "="@);
        lemma_concat_query_safe(form_component(p.0) + "="@, form_component(p.1));
    }
    lemma_join_query_safe(ps, "&"@);
}

} // verus!
