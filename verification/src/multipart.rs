//! Multipart form-data encoding (RFC 7578): boundaries, content types of
//! uploaded files, filename escaping and the encoded body.
use crate::text::{
    append_bytes, append_str, chars_of, concat3, enc, owned, push_char,
    push_str, str_eq, str_lower, string_of, to_lower, trim, trim_bounds, split_bounds, split_char,
    starts_with, has_prefix_at, pairs_view,
};
use vstd::prelude::*;

verus! {

/// A form field: its name and the encoded values sent under it (a list value
/// gives one part per element).
pub struct DataField {
    pub name: String,
    pub values: Vec<Vec<u8>>,
}

/// A file field: field name, optional filename, content, the content type
/// chosen for it, and extra part headers.
pub struct FileField {
    pub field_name: String,
    pub filename: Option<String>,
    pub content: Vec<u8>,
    pub content_type: String,
    pub headers: Vec<(String, String)>,
}

/// Plain view of a file field.
pub struct FileView {
    pub field_name: Seq<char>,
    pub filename: Option<Seq<char>>,
    pub content: Seq<u8>,
    pub content_type: Seq<char>,
    pub headers: Seq<(Seq<char>, Seq<char>)>,
}

impl FileField {
    pub open spec fn view(&self) -> FileView {
        FileView {
            field_name: self.field_name@,
            filename: match self.filename {
                Some(f) => Some(f@),
                None => None,
            },
            content: self.content@,
            content_type: self.content_type@,
            headers: pairs_view(self.headers@),
        }
    }
}

// ----- content types -------------------------------------------------------

/// Index just after the last `.` of `s`, or 0 when there is none.
pub open spec fn after_last_dot(s: Seq<char>) -> int
    decreases s.len(),
{
    if s.len() == 0 {
        0
    } else if s.last() == '.' {
        s.len() as int
    } else {
        after_last_dot(s.drop_last())
    }
}

/// The text after the last dot (the whole name when it has no dot): the
/// first item of `rsplit('.')`.
pub open spec fn extension(s: Seq<char>) -> Seq<char> {
    s.skip(after_last_dot(s))
}

/// The content type guessed for a file extension (already lowercased).
pub open spec fn type_for_extension(ext: Seq<char>) -> Seq<char> {
    if ext == "json"@ {
        "application/json"@
    } else if ext == "txt"@ {
        "text/plain"@
    } else if ext == "html"@ || ext == "htm"@ {
        "text/html"@
    } else if ext == "xml"@ {
        "application/xml"@
    } else if ext == "jpg"@ || ext == "jpeg"@ {
        "image/jpeg"@
    } else if ext == "png"@ {
        "image/png"@
    } else if ext == "gif"@ {
        "image/gif"@
    } else if ext == "pdf"@ {
        "application/pdf"@
    } else if ext == "zip"@ {
        "application/zip"@
    } else if ext == "css"@ {
        "text/css"@
    } else if ext == "js"@ {
        "application/javascript"@
    } else {
        "application/octet-stream"@
    }
}

/// The content type guessed from a filename: by its lowercased extension.
pub open spec fn spec_guess_content_type(filename: Seq<char>) -> Seq<char> {
    type_for_extension(str_lower(extension(filename)))
}

fn last_dot_end(cs: &Vec<char>) -> (r: usize)
    ensures
        r == after_last_dot(cs@),
        r <= cs@.len(),
{
    let mut i = cs.len();
    assert(cs@.take(cs@.len() as int) =~= cs@);
    while i > 0 && cs[i - 1] != '.'
        invariant
            i <= cs@.len(),
            after_last_dot(cs@) == after_last_dot(cs@.take(i as int)),
        decreases i,
    {
        assert(cs@.take(i as int).drop_last() =~= cs@.take(i - 1));
        i = i - 1;
    }
    assert(cs@.take(cs@.len() as int) =~= cs@);
    i
}

/// Guesses the content type of a file from its name.
pub fn guess_content_type(filename: &str) -> (r: String)
    ensures
        r@ == spec_guess_content_type(filename@),
{
    let cs = chars_of(filename);
    let at = last_dot_end(&cs);
    let ext_s = string_of(cs.as_slice(), at, cs.len());
    assert(ext_s@ == extension(filename@));
    let lower = to_lower(ext_s.as_str());
    let e = lower.as_str();
    let t = if str_eq(e, "json") {
        "application/json"
    } else if str_eq(e, "txt") {
        "text/plain"
    } else if str_eq(e, "html") || str_eq(e, "htm") {
        "text/html"
    } else if str_eq(e, "xml") {
        "application/xml"
    } else if str_eq(e, "jpg") || str_eq(e, "jpeg") {
        "image/jpeg"
    } else if str_eq(e, "png") {
        "image/png"
    } else if str_eq(e, "gif") {
        "image/gif"
    } else if str_eq(e, "pdf") {
        "application/pdf"
    } else if str_eq(e, "zip") {
        "application/zip"
    } else if str_eq(e, "css") {
        "text/css"
    } else if str_eq(e, "js") {
        "application/javascript"
    } else {
        "application/octet-stream"
    };
    owned(t)
}

/// The file field for a `(filename, content[, content_type[, headers]])`
/// upload: the content type is the one given, or else guessed from the
/// filename (from "" when there is none).
pub fn file_field_from_tuple(
    field_name: String,
    filename: Option<String>,
    content: Vec<u8>,
    content_type: Option<String>,
    headers: Vec<(String, String)>,
) -> (r: FileField)
    ensures
        r.field_name == field_name,
        r.filename == filename,
        r.content == content,
        r.headers == headers,
        r.content_type@ == match content_type {
            Some(ct) => ct@,
            None => spec_guess_content_type(
                match filename {
                    Some(f) => f@,
                    None => ""@,
                },
            ),
        },
{
    let ct = match content_type {
        Some(ct) => ct,
        None => match &filename {
            Some(f) => guess_content_type(f.as_str()),
            None => guess_content_type(""),
        },
    };
    FileField { field_name, filename, content, content_type: ct, headers }
}

/// The file field for a file-like object: filename "upload", type
/// "application/octet-stream", no extra headers.
pub fn file_field_from_reader(field_name: String, content: Vec<u8>) -> (r: FileField)
    ensures
        r.field_name == field_name,
        r.filename matches Some(f) && f@ == "upload"@,
        r.content == content,
        r.content_type@ == "application/octet-stream"@,
        r.headers@.len() == 0,
{
    FileField {
        field_name,
        filename: Some(owned("upload")),
        content,
        content_type: owned("application/octet-stream"),
        headers: Vec::new(),
    }
}

// ----- filename escaping ---------------------------------------------------

/// Uppercase hexadecimal digit for `d < 16`.
pub open spec fn hex_upper_digit(d: nat) -> char {
    if d < 10 {
        crate::text::digit_char(d)
    } else if d == 10 {
        'A'
    } else if d == 11 {
        'B'
    } else if d == 12 {
        'C'
    } else if d == 13 {
        'D'
    } else if d == 14 {
        'E'
    } else {
        'F'
    }
}

/// How one filename character is written: backslash doubled, quote as %22,
/// control characters other than ESC as %XX, others unchanged.
pub open spec fn escape_char(c: char) -> Seq<char> {
    if c == '\\' {
        seq!['\\', '\\']
    } else if c == '"' {
        seq!['%', '2', '2']
    } else if (c as u32) < 0x20 && c != '\x1B' {
        seq!['%', hex_upper_digit(((c as u32) / 16) as nat), hex_upper_digit(((c as u32) % 16) as nat)]
    } else {
        seq![c]
    }
}

/// Escaping of a whole filename for a Content-Disposition header.
pub open spec fn spec_escape_filename(s: Seq<char>) -> Seq<char>
    decreases s.len(),
{
    if s.len() == 0 {
        Seq::empty()
    } else {
        spec_escape_filename(s.drop_last()) + escape_char(s.last())
    }
}

fn hex_digit_upper(d: u32) -> (c: char)
    requires
        d < 16,
    ensures
        c == hex_upper_digit(d as nat),
{
    if d < 10 {
        crate::text::digit(d as u64)
    } else if d == 10 {
        'A'
    } else if d == 11 {
        'B'
    } else if d == 12 {
        'C'
    } else if d == 13 {
        'D'
    } else if d == 14 {
        'E'
    } else {
        'F'
    }
}

/// Escapes a filename for a Content-Disposition header (HTML5 / RFC 5987).
pub fn escape_filename(filename: &str) -> (r: String)
    ensures
        r@ == spec_escape_filename(filename@),
{
    let cs = chars_of(filename);
    let mut r = String::new();
    let mut i: usize = 0;
    while i < cs.len()
        invariant
            i <= cs@.len(),
            cs@ == filename@,
            r@ == spec_escape_filename(cs@.take(i as int)),
        decreases cs.len() - i,
    {
        let c = cs[i];
        assert(cs@.take(i + 1).drop_last() =~= cs@.take(i as int));
        if c == '\\' {
            push_char(&mut r, '\\');
            push_char(&mut r, '\\');
        } else if c == '"' {
            push_char(&mut r, '%');
            push_char(&mut r, '2');
            push_char(&mut r, '2');
        } else if (c as u32) < 0x20 && c != '\x1B' {
            let v = c as u32;
            push_char(&mut r, '%');
            push_char(&mut r, hex_digit_upper(v / 16));
            push_char(&mut r, hex_digit_upper(v % 16));
        } else {
            push_char(&mut r, c);
        }
        proof {
            assert(r@ =~= spec_escape_filename(cs@.take(i as int)) + escape_char(c));
        }
        i = i + 1;
    }
    assert(cs@.take(cs@.len() as int) =~= cs@);
    r
}

// ----- boundary extraction -------------------------------------------------

/// `s` without any leading or trailing `c` (what `trim_matches(c)` returns).
pub open spec fn strip_char(s: Seq<char>, c: char) -> Seq<char>
    decreases s.len(),
{
    if s.len() > 0 && s[0] == c {
        strip_char(s.drop_first(), c)
    } else if s.len() > 0 && s.last() == c {
        strip_char(s.drop_last(), c)
    } else {
        s
    }
}

/// Bounds of `strip_char(cs[from..to], c)`.
pub fn strip_bounds(cs: &[char], c: char, from: usize, to: usize) -> (r: (usize, usize))
    requires
        from <= to <= cs@.len(),
    ensures
        from <= r.0 <= r.1 <= to,
        strip_char(cs@.subrange(from as int, to as int), c) == cs@.subrange(r.0 as int, r.1 as int),
    decreases to - from,
{
    if from < to && cs[from] == c {
        assert(cs@.subrange(from as int, to as int).drop_first() =~= cs@.subrange(
            from + 1,
            to as int,
        ));
        strip_bounds(cs, c, from + 1, to)
    } else if from < to && cs[to - 1] == c {
        assert(cs@.subrange(from as int, to as int).drop_last() =~= cs@.subrange(
            from as int,
            to - 1,
        ));
        strip_bounds(cs, c, from, to - 1)
    } else {
        (from, to)
    }
}

/// `s` without leading and trailing copies of `c` (`trim_matches(c)`).
pub fn strip_text(s: &str, c: char) -> (r: String)
    ensures
        r@ == strip_char(s@, c),
{
    let cs = chars_of(s);
    let (a, b) = strip_bounds(cs.as_slice(), c, 0, cs.len());
    assert(cs@.subrange(0, cs@.len() as int) =~= s@);
    string_of(cs.as_slice(), a, b)
}

/// The boundary named by a parameter (already trimmed) starting with
/// "boundary=": the rest with quotes stripped, then apostrophes, then white
/// space.
pub open spec fn boundary_value(part: Seq<char>) -> Seq<char> {
    trim(strip_char(strip_char(part.skip(9), '"'), '\''))
}

/// The first `;`-separated parameter of a Content-Type value that starts
/// (after trimming) with "boundary=", from index `k` on.
pub open spec fn boundary_from(parts: Seq<Seq<char>>, k: int) -> Option<Seq<char>>
    decreases parts.len() - k,
{
    if k < 0 || k >= parts.len() {
        None
    } else if starts_with(trim(parts[k]), "boundary="@) {
        Some(boundary_value(trim(parts[k])))
    } else {
        boundary_from(parts, k + 1)
    }
}

/// The boundary declared by a Content-Type value, if any.
pub open spec fn spec_extract_boundary(content_type: Seq<char>) -> Option<Seq<char>> {
    boundary_from(split_char(content_type, ';'), 0)
}

/// Extracts the boundary from a Content-Type header value.
pub fn extract_boundary_from_content_type(content_type: &str) -> (r: Option<String>)
    ensures
        match spec_extract_boundary(content_type@) {
            Some(b) => r matches Some(x) && x@ == b,
            None => r is None,
        },
{
    let cs = chars_of(content_type);
    let parts = split_bounds(cs.as_slice(), ';', 0, cs.len());
    let ghost sp = split_char(cs@.subrange(0, cs@.len() as int), ';');
    assert(cs@.subrange(0, cs@.len() as int) =~= cs@);
    let prefix = chars_of("boundary=");
    let mut k: usize = 0;
    while k < parts.len()
        invariant
            k <= parts@.len(),
            parts@.len() == sp.len(),
            sp == split_char(content_type@, ';'),
            cs@ == content_type@,
            prefix@ == "boundary="@,
            forall|m: int|
                0 <= m < parts@.len() ==> 0 <= #[trigger] parts@[m].0 <= parts@[m].1 <= cs@.len()
                    && cs@.subrange(parts@[m].0 as int, parts@[m].1 as int) == sp[m],
            boundary_from(sp, 0) == boundary_from(sp, k as int),
        decreases parts.len() - k,
    {
        let (s, e) = parts[k];
        let (a, b) = trim_bounds(cs.as_slice(), s, e);
        let piece = string_of(cs.as_slice(), a, b);
        let pcs = chars_of(piece.as_str());
        let is_b = has_prefix_at(pcs.as_slice(), 0, prefix.as_slice());
        assert(pcs@.skip(0) =~= pcs@);
        proof {
            reveal_strlit("boundary=");
        }
        if is_b {
            let (x, y) = strip_bounds(pcs.as_slice(), '"', 9, pcs.len());
            let (x2, y2) = strip_bounds(pcs.as_slice(), '\'', x, y);
            let (x3, y3) = trim_bounds(pcs.as_slice(), x2, y2);
            proof {
                assert(pcs@.subrange(9, pcs@.len() as int) =~= pcs@.skip(9));
            }
            return Some(string_of(pcs.as_slice(), x3, y3));
        }
        k = k + 1;
    }
    None
}

// ----- encoded parts -------------------------------------------------------

/// `Content-Disposition` line of a part without filename.
pub open spec fn disposition(name: Seq<char>) -> Seq<char> {
    "Content-Disposition: form-data; name=\""@ + name + "\"\r\n"@
}

/// `Content-Disposition` line of a part with a filename.
pub open spec fn disposition_file(name: Seq<char>, filename: Seq<char>) -> Seq<char> {
    "Content-Disposition: form-data; name=\""@ + name + "\"; filename=\""@ + filename + "\"\r\n"@
}

/// The start of every part: "--", the boundary, CRLF.
pub open spec fn part_open(boundary: Seq<char>) -> Seq<u8> {
    enc("--"@) + enc(boundary) + enc("\r\n"@)
}

/// One form value sent as a part.
pub open spec fn value_part(boundary: Seq<char>, name: Seq<char>, value: Seq<u8>) -> Seq<u8> {
    part_open(boundary) + enc(disposition(name)) + enc("\r\n"@) + value + enc("\r\n"@)
}

/// All parts of a field with several values.
pub open spec fn values_parts(boundary: Seq<char>, name: Seq<char>, values: Seq<Vec<u8>>) -> Seq<
    u8,
>
    decreases values.len(),
{
    if values.len() == 0 {
        Seq::empty()
    } else {
        values_parts(boundary, name, values.drop_last()) + value_part(
            boundary,
            name,
            values.last()@,
        )
    }
}

/// The parts of all form fields, in order.
pub open spec fn data_parts(boundary: Seq<char>, data: Seq<DataField>) -> Seq<u8>
    decreases data.len(),
{
    if data.len() == 0 {
        Seq::empty()
    } else {
        data_parts(boundary, data.drop_last()) + values_parts(
            boundary,
            data.last().name@,
            data.last().values@,
        )
    }
}

/// The parts sent for one field: one `value_part` per value, in order.
pub open spec fn field_value_parts(boundary: Seq<char>, f: DataField) -> Seq<Seq<u8>> {
    f.values@.map_values(|v: Vec<u8>| value_part(boundary, f.name@, v@))
}

proof fn lemma_values_parts_flat(boundary: Seq<char>, name: Seq<char>, values: Seq<Vec<u8>>)
    ensures
        values_parts(boundary, name, values) == values.map_values(
            |v: Vec<u8>| value_part(boundary, name, v@),
        ).flatten(),
    decreases values.len(),
{
    let m = values.map_values(|v: Vec<u8>| value_part(boundary, name, v@));
    if values.len() > 0 {
        let m0 = values.drop_last().map_values(|v: Vec<u8>| value_part(boundary, name, v@));
        lemma_values_parts_flat(boundary, name, values.drop_last());
        assert(m =~= m0.push(value_part(boundary, name, values.last()@)));
        m0.lemma_flatten_push(value_part(boundary, name, values.last()@));
    } else {
        assert(m =~= Seq::<Seq<u8>>::empty());
    }
}

/// Law: every value of every form field is sent, each as a part of its own
/// and in order: the form-field section of the body is, field by field and
/// within a field value by value, `value_part(boundary, name, value)`; a field
/// with n values gives n parts.
pub proof fn law_every_value_sent(boundary: Seq<char>, data: Seq<DataField>)
    ensures
        data_parts(boundary, data) == data.map_values(
            |f: DataField| field_value_parts(boundary, f).flatten(),
        ).flatten(),
        forall|i: int|
            0 <= i < data.len() ==> (#[trigger] field_value_parts(boundary, data[i])).len()
                == data[i].values@.len(),
    decreases data.len(),
{
    let m = data.map_values(|f: DataField| field_value_parts(boundary, f).flatten());
    if data.len() > 0 {
        let last = data.last();
        let m0 = data.drop_last().map_values(
            |f: DataField| field_value_parts(boundary, f).flatten(),
        );
        law_every_value_sent(boundary, data.drop_last());
        lemma_values_parts_flat(boundary, last.name@, last.values@);
        assert(m =~= m0.push(field_value_parts(boundary, last).flatten()));
        m0.lemma_flatten_push(field_value_parts(boundary, last).flatten());
    } else {
        assert(m =~= Seq::<Seq<u8>>::empty());
    }
}

/// Whether a header name is Content-Type (compared lowercased).
pub open spec fn is_content_type_name(k: Seq<char>) -> bool {
    str_lower(k) == "content-type"@
}

/// The extra header lines of a file part: every header but Content-Type.
pub open spec fn extra_header_lines(headers: Seq<(Seq<char>, Seq<char>)>) -> Seq<u8>
    decreases headers.len(),
{
    if headers.len() == 0 {
        Seq::empty()
    } else {
        let (k, v) = headers.last();
        extra_header_lines(headers.drop_last()) + if is_content_type_name(k) {
            Seq::empty()
        } else {
            enc(k + ": "@ + v + "\r\n"@)
        }
    }
}

/// The value of the first Content-Type header, if any.
pub open spec fn first_content_type(headers: Seq<(Seq<char>, Seq<char>)>) -> Option<Seq<char>>
    decreases headers.len(),
{
    if headers.len() == 0 {
        None
    } else if is_content_type_name(headers[0].0) {
        Some(headers[0].1)
    } else {
        first_content_type(headers.drop_first())
    }
}

/// One file sent as a part.  A part with a filename names it (escaped) and
/// carries a Content-Type line: the one among its headers if any, otherwise
/// the file's content type.
pub open spec fn file_part(boundary: Seq<char>, f: FileView) -> Seq<u8> {
    part_open(boundary) + match f.filename {
        Some(fname) => enc(disposition_file(f.field_name, spec_escape_filename(fname))),
        None => enc(disposition(f.field_name)),
    } + extra_header_lines(f.headers) + match f.filename {
        Some(_) => enc(
            "Content-Type: "@ + match first_content_type(f.headers) {
                Some(ct) => ct,
                None => f.content_type,
            } + "\r\n"@,
        ),
        None => Seq::empty(),
    } + enc("\r\n"@) + f.content + enc("\r\n"@)
}

/// The parts of all file fields, in order.
pub open spec fn file_parts(boundary: Seq<char>, files: Seq<FileField>) -> Seq<u8>
    decreases files.len(),
{
    if files.len() == 0 {
        Seq::empty()
    } else {
        file_parts(boundary, files.drop_last()) + file_part(boundary, files.last().view())
    }
}

/// Law: every file is sent as a part of its own, in order: the file section
/// of the body is `file_part(boundary, file)` for each file in turn.
pub proof fn law_every_file_sent(boundary: Seq<char>, files: Seq<FileField>)
    ensures
        file_parts(boundary, files) == files.map_values(|f: FileField| file_part(boundary, f.view())).flatten(),
    decreases files.len(),
{
    let m = files.map_values(|f: FileField| file_part(boundary, f.view()));
    if files.len() > 0 {
        let m0 = files.drop_last().map_values(|f: FileField| file_part(boundary, f.view()));
        law_every_file_sent(boundary, files.drop_last());
        assert(m =~= m0.push(file_part(boundary, files.last().view())));
        m0.lemma_flatten_push(file_part(boundary, files.last().view()));
    } else {
        assert(m =~= Seq::<Seq<u8>>::empty());
    }
}

/// The whole multipart body: form fields first, then files, then the closing
/// boundary "--boundary--" CRLF.
pub open spec fn multipart_body(boundary: Seq<char>, data: Seq<DataField>, files: Seq<FileField>) -> Seq<
    u8,
> {
    data_parts(boundary, data) + file_parts(boundary, files) + enc("--"@) + enc(boundary) + enc(
        "--\r\n"@,
    )
}

fn write_open(body: &mut Vec<u8>, boundary: &str)
    ensures
        final(body)@ == old(body)@ + part_open(boundary@),
{
    append_str(body, "--");
    append_str(body, boundary);
    append_str(body, "\r\n");
}

fn write_value_part(body: &mut Vec<u8>, boundary: &str, name: &str, value: &Vec<u8>)
    ensures
        final(body)@ == old(body)@ + value_part(boundary@, name@, value@),
{
    write_open(body, boundary);
    let d = concat3("Content-Disposition: form-data; name=\"", name, "\"\r\n");
    append_str(body, d.as_str());
    append_str(body, "\r\n");
    append_bytes(body, value.as_slice());
    append_str(body, "\r\n");
}

fn write_extra_headers(body: &mut Vec<u8>, headers: &Vec<(String, String)>) -> (has_ct: Option<
    usize,
>)
    ensures
        final(body)@ == old(body)@ + extra_header_lines(pairs_view(headers@)),
        match first_content_type(pairs_view(headers@)) {
            Some(v) => has_ct matches Some(i) && i < headers@.len() && headers@[i as int].1@ == v,
            None => has_ct is None,
        },
{
    let ghost hv = pairs_view(headers@);
    let mut first: Option<usize> = None;
    let mut i: usize = 0;
    assert(hv.skip(0) =~= hv);
    while i < headers.len()
        invariant
            i <= headers@.len(),
            hv == pairs_view(headers@),
            body@ == old(body)@ + extra_header_lines(hv.take(i as int)),
            first_content_type(hv) == match first {
                Some(j) => Some(hv[j as int].1),
                None => first_content_type(hv.skip(i as int)),
            },
            first matches Some(j) ==> j < i,
        decreases headers.len() - i,
    {
        let k = &headers[i].0;
        let v = &headers[i].1;
        let lk = to_lower(k.as_str());
        let is_ct = str_eq(lk.as_str(), "content-type");
        assert(hv.take(i + 1).drop_last() =~= hv.take(i as int));
        assert(hv.skip(i as int).drop_first() =~= hv.skip(i + 1));
        if is_ct {
            if first.is_none() {
                first = Some(i);
            }
        } else {
            let line = concat3(k.as_str(), ": ", v.as_str());
            append_str(body, line.as_str());
            proof {
                assert(enc(line@ + "\r\n"@) == enc(line@) + enc("\r\n"@)) by {
                    lemma_enc_concat(line@, "\r\n"@);
                }
            }
            append_str(body, "\r\n");
        }
        i = i + 1;
    }
    assert(hv.take(headers@.len() as int) =~= hv);
    first
}

/// UTF-8 encoding distributes over concatenation.
pub proof fn lemma_enc_concat(a: Seq<char>, b: Seq<char>)
    ensures
        enc(a + b) == enc(a) + enc(b),
    decreases a.len(),
{
    if a.len() == 0 {
        assert(a + b =~= b);
    } else {
        lemma_enc_concat(a.drop_first(), b);
        assert((a + b).drop_first() =~= a.drop_first() + b);
    }
}

fn write_file_part(body: &mut Vec<u8>, boundary: &str, f: &FileField)
    ensures
        final(body)@ == old(body)@ + file_part(boundary@, f.view()),
{
    write_open(body, boundary);
    match &f.filename {
        Some(fname) => {
            let esc = escape_filename(fname.as_str());
            let mut d = concat3(
                "Content-Disposition: form-data; name=\"",
                f.field_name.as_str(),
                "\"; filename=\"",
            );
            push_str(&mut d, esc.as_str());
            push_str(&mut d, "\"\r\n");
            append_str(body, d.as_str());
        },
        None => {
            let d = concat3(
                "Content-Disposition: form-data; name=\"",
                f.field_name.as_str(),
                "\"\r\n",
            );
            append_str(body, d.as_str());
        },
    }
    let has_ct = write_extra_headers(body, &f.headers);
    if f.filename.is_some() {
        let ct: &str = match has_ct {
            Some(i) => f.headers[i].1.as_str(),
            None => f.content_type.as_str(),
        };
        let line = concat3("Content-Type: ", ct, "\r\n");
        append_str(body, line.as_str());
    }
    append_str(body, "\r\n");
    append_bytes(body, f.content.as_slice());
    append_str(body, "\r\n");
}

/// Builds the multipart body for the given fields and files with the given
/// boundary; returns the body and the boundary.
pub fn build_multipart_body_with_boundary(
    data: &Vec<DataField>,
    files: &Vec<FileField>,
    boundary: &str,
) -> (r: (Vec<u8>, String))
    ensures
        r.0@ == multipart_body(boundary@, data@, files@),
        r.0@ == data@.map_values(|f: DataField| field_value_parts(boundary@, f).flatten()).flatten()
            + files@.map_values(|f: FileField| file_part(boundary@, f.view())).flatten() + enc("--"@)
            + enc(boundary@) + enc("--\r\n"@),
        r.1@ == boundary@,
{
    proof {
        law_every_value_sent(boundary@, data@);
        law_every_file_sent(boundary@, files@);
    }
    let mut body: Vec<u8> = Vec::new();
    let mut i: usize = 0;
    while i < data.len()
        invariant
            i <= data@.len(),
            body@ == data_parts(boundary@, data@.take(i as int)),
        decreases data.len() - i,
    {
        let field = &data[i];
        let mut j: usize = 0;
        let ghost before = body@;
        while j < field.values.len()
            invariant
                j <= field.values@.len(),
                body@ == before + values_parts(boundary@, field.name@, field.values@.take(j as int)),
            decreases field.values.len() - j,
        {
            write_value_part(&mut body, boundary, field.name.as_str(), &field.values[j]);
            assert(field.values@.take(j + 1).drop_last() =~= field.values@.take(j as int));
            j = j + 1;
        }
        assert(field.values@.take(field.values@.len() as int) =~= field.values@);
        assert(data@.take(i + 1).drop_last() =~= data@.take(i as int));
        i = i + 1;
    }
    assert(data@.take(data@.len() as int) =~= data@);
    let mut k: usize = 0;
    let ghost after_data = body@;
    while k < files.len()
        invariant
            k <= files@.len(),
            body@ == after_data + file_parts(boundary@, files@.take(k as int)),
        decreases files.len() - k,
    {
        write_file_part(&mut body, boundary, &files[k]);
        assert(files@.take(k + 1).drop_last() =~= files@.take(k as int));
        k = k + 1;
    }
    assert(files@.take(files@.len() as int) =~= files@);
    append_str(&mut body, "--");
    append_str(&mut body, boundary);
    append_str(&mut body, "--\r\n");
    (body, owned(boundary))
}

} // verus!
