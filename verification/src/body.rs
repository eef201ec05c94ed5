//! Request bodies of the lower-level client: raw text or bytes, urlencoded
//! forms, JSON text, and multipart bodies with text fields and files.
use crate::codecs::{hex_lower, random_u32_below_max, unix_nanos};
use crate::prepare::{encode_form, form_pieces};
use crate::text::{
    append_bytes, append_str, concat2, decimal, decimal_string, enc, join, owned, pairs_view,
    push_char, str_bytes,
};
use vstd::prelude::*;

verus! {

/// A file to send in a multipart body.
pub struct FilePart {
    pub field_name: String,
    pub filename: String,
    pub content_type: Option<String>,
    pub data: Vec<u8>,
}

/// The data of a request.
pub enum RequestData {
    /// A text body.
    Text(String),
    /// A byte body.
    Bytes(Vec<u8>),
    /// Form fields, in the order they are sent.
    Form(Vec<(String, String)>),
}

/// Why a body could not be built.
#[derive(Debug, Clone, Copy, PartialEq, Eq)]
pub enum BodyError {
    /// Both form data and JSON were given.
    DataAndJson,
    /// Any other combination that has no body.
    InvalidCombination,
}

impl BodyError {
    /// The error's message.
    pub fn message(&self) -> (r: String)
        ensures
            r@ == match self {
                BodyError::DataAndJson => "Cannot specify both data and json parameters"@,
                BodyError::InvalidCombination => "Invalid request data combination"@,
            },
    {
        match self {
            BodyError::DataAndJson => owned("Cannot specify both data and json parameters"),
            BodyError::InvalidCombination => owned("Invalid request data combination"),
        }
    }
}

/// A built body: its bytes, whether a Content-Type goes with it, and the
/// multipart Content-Type when there is one.
pub struct BuiltBody {
    pub body: Vec<u8>,
    pub has_content_type: bool,
    pub multipart_content_type: Option<String>,
}

/// Plain view of a built body.
pub open spec fn built_view(b: BuiltBody) -> (Seq<u8>, bool, Option<Seq<char>>) {
    (
        b.body@,
        b.has_content_type,
        match b.multipart_content_type {
            Some(ct) => Some(ct@),
            None => None,
        },
    )
}

// ----- multipart -----------------------------------------------------------

/// The bytes of one part: the boundary line, the Content-Disposition (with
/// the filename and a Content-Type line for a file), a blank line, the data
/// and a line break.
pub open spec fn part_bytes(
    boundary: Seq<char>,
    name: Seq<char>,
    file: Option<(Seq<char>, Seq<char>)>,
    data: Seq<u8>,
) -> Seq<u8> {
    let head = enc("--"@ + boundary + "\r\n"@);
    let disp = match file {
        Some((filename, ct)) => enc(
            "Content-Disposition: form-data; name=\""@ + name + "\"; filename=\""@ + filename
                + "\"\r\n"@,
        ) + enc("Content-Type: "@ + ct + "\r\n"@),
        None => enc("Content-Disposition: form-data; name=\""@ + name + "\"\r\n"@),
    };
    head + disp + enc("\r\n"@) + data + enc("\r\n"@)
}

/// Writes one part of a multipart body.
pub fn write_part(
    body: &mut Vec<u8>,
    boundary: &str,
    name: &str,
    filename_content_type: Option<(&str, &str)>,
    data: &[u8],
)
    ensures
        final(body)@ == old(body)@ + part_bytes(
            boundary@,
            name@,
            match filename_content_type {
                Some((f, ct)) => Some((f@, ct@)),
                None => None,
            },
            data@,
        ),
{
    let ghost start = body@;
    let line = crate::text::concat3("--", boundary, "\r\n");
    append_str(body, line.as_str());
    let ghost after_head = body@;
    match filename_content_type {
        Some((filename, content_type)) => {
            let a = crate::text::concat3("Content-Disposition: form-data; name=\"", name, "\"; filename=\"");
            let disp = crate::text::concat3(a.as_str(), filename, "\"\r\n");
            append_str(body, disp.as_str());
            let ct = crate::text::concat3("Content-Type: ", content_type, "\r\n");
            append_str(body, ct.as_str());
        },
        None => {
            let disp = crate::text::concat3("Content-Disposition: form-data; name=\"", name, "\"\r\n");
            append_str(body, disp.as_str());
        },
    }
    append_str(body, "\r\n");
    append_bytes(body, data);
    append_str(body, "\r\n");
    proof {
        let f = match filename_content_type {
            Some((f, ct)) => Some((f@, ct@)),
            None => None,
        };
        assert(body@ =~= start + part_bytes(boundary@, name@, f, data@));
    }
}

/// The parts of the text fields.
pub open spec fn field_parts(boundary: Seq<char>, fields: Seq<(Seq<char>, Seq<char>)>) -> Seq<u8>
    decreases fields.len(),
{
    if fields.len() == 0 {
        Seq::empty()
    } else {
        field_parts(boundary, fields.drop_last()) + part_bytes(
            boundary,
            fields.last().0,
            None,
            enc(fields.last().1),
        )
    }
}

/// The content type sent for a file: its own, else
/// "application/octet-stream".
pub open spec fn file_content_type(f: FilePart) -> Seq<char> {
    match f.content_type {
        Some(ct) => ct@,
        None => "application/octet-stream"@,
    }
}

/// The parts of the files.
pub open spec fn file_part_bytes(boundary: Seq<char>, files: Seq<FilePart>) -> Seq<u8>
    decreases files.len(),
{
    if files.len() == 0 {
        Seq::empty()
    } else {
        let f = files.last();
        file_part_bytes(boundary, files.drop_last()) + part_bytes(
            boundary,
            f.field_name@,
            Some((f.filename@, file_content_type(f))),
            f.data@,
        )
    }
}

/// A multipart body: the field parts, the file parts, and the closing
/// boundary line.
pub open spec fn spec_multipart(
    boundary: Seq<char>,
    fields: Seq<(Seq<char>, Seq<char>)>,
    files: Seq<FilePart>,
) -> Seq<u8> {
    field_parts(boundary, fields) + file_part_bytes(boundary, files) + enc(
        "--"@ + boundary + "--\r\n"@,
    )
}

/// Builds a multipart body: text fields first, then files, then the closing
/// boundary.
pub fn build_multipart_body(boundary: &str, fields: &Vec<(String, String)>, files: &[FilePart]) -> (r: Vec<u8>)
    ensures
        r@ == spec_multipart(boundary@, pairs_view(fields@), files@),
{
    let ghost fv = pairs_view(fields@);
    let mut body: Vec<u8> = Vec::new();
    let mut i: usize = 0;
    while i < fields.len()
        invariant
            i <= fields@.len(),
            fv == pairs_view(fields@),
            body@ == field_parts(boundary@, fv.take(i as int)),
        decreases fields.len() - i,
    {
        let value = str_bytes(fields[i].1.as_str());
        write_part(&mut body, boundary, fields[i].0.as_str(), None, value.as_slice());
        assert(fv.take(i + 1).drop_last() =~= fv.take(i as int));
        i = i + 1;
    }
    assert(fv.take(fields@.len() as int) =~= fv);
    let ghost after_fields = body@;
    let mut j: usize = 0;
    while j < files.len()
        invariant
            j <= files@.len(),
            body@ == after_fields + file_part_bytes(boundary@, files@.take(j as int)),
        decreases files.len() - j,
    {
        let f = &files[j];
        let ct: &str = match &f.content_type {
            Some(c) => c.as_str(),
            None => "application/octet-stream",
        };
        write_part(&mut body, boundary, f.field_name.as_str(), Some((f.filename.as_str(), ct)), f.data.as_slice());
        assert(files@.take(j + 1).drop_last() =~= files@.take(j as int));
        j = j + 1;
        assert(body@ =~= after_fields + file_part_bytes(boundary@, files@.take(j as int)));
    }
    assert(files@.take(files@.len() as int) =~= files@);
    let closing = crate::text::concat3("--", boundary, "--\r\n");
    append_str(&mut body, closing.as_str());
    body
}

// ----- boundary ------------------------------------------------------------

/// The lowest `n` hexadecimal digits of `v`, lowercase, most significant
/// first (`{:0nx}` for values below 16^n).
pub open spec fn hex_digits(v: nat, n: nat) -> Seq<char>
    decreases n,
{
    if n == 0 {
        Seq::empty()
    } else {
        hex_digits(v / 16, (n - 1) as nat).push(hex_lower((v % 16) as u8))
    }
}

fn push_hex8(s: &mut String, v: u32)
    ensures
        final(s)@ == old(s)@ + hex_digits(v as nat, 8),
{
    let ghost start = s@;
    let mut digits: Vec<char> = Vec::new();
    let mut x: u32 = v;
    let mut k: usize = 0;
    let ghost mut pw: nat = 1;
    while k < 8
        invariant
            k <= 8,
            digits@.len() == k,
            forall|j: int| 0 <= j < k ==> #[trigger] digits@[j] == hex_lower(((v as nat / pow16(j as nat)) % 16) as u8),
            x as nat == v as nat / pow16(k as nat),
        decreases 8 - k,
    {
        let d = (x % 16) as u8;
        let c = if d < 10 {
            (48u8 + d) as char
        } else {
            (87u8 + d) as char
        };
        digits.push(c);
        proof {
            lemma_div_pow16(v as nat, k as nat);
        }
        x = x / 16;
        k = k + 1;
    }
    let mut i: usize = 8;
    while i > 0
        invariant
            i <= 8,
            digits@.len() == 8,
            forall|j: int| 0 <= j < 8 ==> #[trigger] digits@[j] == hex_lower(((v as nat / pow16(j as nat)) % 16) as u8),
            s@ == start + hex_digits(v as nat / pow16(i as nat), (8 - i) as nat),
        decreases i,
    {
        i = i - 1;
        push_char(s, digits[i]);
        proof {
            lemma_div_pow16(v as nat, i as nat);
            assert(hex_digits(v as nat / pow16(i as nat), (8 - i) as nat) == hex_digits(
                v as nat / pow16(i as nat) / 16,
                (8 - i - 1) as nat,
            ).push(hex_lower(((v as nat / pow16(i as nat)) % 16) as u8)));
        }
    }
    assert(pow16(0) == 1);
    assert(v as nat / 1 == v as nat);
}

/// Powers of sixteen.
pub open spec fn pow16(n: nat) -> nat
    decreases n,
{
    if n == 0 {
        1
    } else {
        16 * pow16((n - 1) as nat)
    }
}

proof fn lemma_div_pow16(v: nat, k: nat)
    ensures
        v / pow16(k) / 16 == v / pow16(k + 1),
        pow16(k) > 0,
    decreases k,
{
    if k > 0 {
        lemma_div_pow16(v, (k - 1) as nat);
    }
    assert(pow16(k + 1) == 16 * pow16(k));
    vstd::arithmetic::div_mod::lemma_div_denominator(v as int, pow16(k) as int, 16);
    assert(pow16(k) * 16 == 16 * pow16(k)) by (nonlinear_arith);
}

/// What a generated boundary looks like: "----FormBoundary", a 32-bit number
/// in decimal (taken from the clock), and eight lowercase hex digits of a
/// random number below `u32::MAX`.
pub open spec fn is_form_boundary(b: Seq<char>) -> bool {
    exists|t: u32, r: u32|
        #![trigger decimal(t as nat), hex_digits(r as nat, 8)]
        r < u32::MAX && b == "----FormBoundary"@ + decimal(t as nat) + hex_digits(r as nat, 8)
}

/// A fresh multipart boundary from the clock and a random number.
pub fn generate_boundary() -> (b: String)
    ensures
        is_form_boundary(b@),
{
    let nanos = unix_nanos();
    let t: u32 = (#[verifier::truncate] (nanos as u32));
    let r = random_u32_below_max();
    let mut s = concat2("----FormBoundary", decimal_string(t as u64).as_str());
    push_hex8(&mut s, r);
    assert(s@ == "----FormBoundary"@ + decimal(t as nat) + hex_digits(r as nat, 8));
    s
}

// ----- whole bodies --------------------------------------------------------

/// The urlencoded text of form fields.
pub open spec fn form_text(form: Seq<(Seq<char>, Seq<char>)>) -> Seq<char> {
    join(form_pieces(form), "&"@)
}

/// The body built from data, JSON text and files, with the boundary used if
/// the body is multipart: files (non-empty, no JSON) make a multipart body of
/// the form fields and files; form fields with an empty list of files, or on
/// their own, make an urlencoded body; text or bytes alone are sent as they
/// are; JSON alone is sent as JSON; nothing makes an empty body; data and
/// JSON together are refused, as is every other combination.
pub open spec fn spec_build_body(
    data: Option<RequestData>,
    json: Option<String>,
    files: Option<Vec<FilePart>>,
    boundary: Seq<char>,
) -> Result<(Seq<u8>, bool, Option<Seq<char>>), BodyError> {
    match (data, json, files) {
        (d, None, Some(fs)) if fs@.len() > 0 => {
            let fields = match d {
                Some(RequestData::Form(f)) => pairs_view(f@),
                _ => Seq::empty(),
            };
            Ok(
                (
                    spec_multipart(boundary, fields, fs@),
                    true,
                    Some("multipart/form-data; boundary="@ + boundary),
                ),
            )
        },
        (Some(RequestData::Form(f)), None, Some(_)) => Ok(
            (enc(form_text(pairs_view(f@))), true, None),
        ),
        (Some(RequestData::Text(t)), None, None) => Ok((enc(t@), false, None)),
        (Some(RequestData::Bytes(b)), None, None) => Ok((b@, false, None)),
        (Some(RequestData::Form(f)), None, None) => Ok((enc(form_text(pairs_view(f@))), true, None)),
        (None, Some(j), None) => Ok((enc(j@), true, None)),
        (None, None, None) => Ok((Seq::empty(), false, None)),
        (Some(_), Some(_), _) => Err(BodyError::DataAndJson),
        _ => Err(BodyError::InvalidCombination),
    }
}

/// Builds a body with the given multipart boundary.
pub fn build_body_with_boundary(
    data: Option<RequestData>,
    json: Option<String>,
    files: Option<Vec<FilePart>>,
    boundary: &str,
) -> (r: Result<BuiltBody, BodyError>)
    ensures
        match spec_build_body(data, json, files, boundary@) {
            Ok(v) => r matches Ok(b) && built_view(b) == v,
            Err(e) => r == Err::<BuiltBody, BodyError>(e),
        },
{
    let files_nonempty = match &files {
        Some(fs) => fs.len() > 0,
        None => false,
    };
    if json.is_none() && files_nonempty {
        let fields: Vec<(String, String)> = match data {
            Some(RequestData::Form(f)) => f,
            _ => Vec::new(),
        };
        let fs = match files {
            Some(fs) => fs,
            None => Vec::new(),
        };
        let body = build_multipart_body(boundary, &fields, fs.as_slice());
        let ct = concat2("multipart/form-data; boundary=", boundary);
        return Ok(BuiltBody { body, has_content_type: true, multipart_content_type: Some(ct) });
    }
    match (data, json, files) {
        (Some(RequestData::Form(f)), None, Some(_)) => {
            let text = encode_form(&f);
            Ok(BuiltBody { body: str_bytes(text.as_str()), has_content_type: true, multipart_content_type: None })
        },
        (Some(RequestData::Text(t)), None, None) => Ok(
            BuiltBody { body: str_bytes(t.as_str()), has_content_type: false, multipart_content_type: None },
        ),
        (Some(RequestData::Bytes(b)), None, None) => Ok(
            BuiltBody { body: b, has_content_type: false, multipart_content_type: None },
        ),
        (Some(RequestData::Form(f)), None, None) => {
            let text = encode_form(&f);
            Ok(BuiltBody { body: str_bytes(text.as_str()), has_content_type: true, multipart_content_type: None })
        },
        (None, Some(j), None) => Ok(
            BuiltBody { body: str_bytes(j.as_str()), has_content_type: true, multipart_content_type: None },
        ),
        (None, None, None) => Ok(
            BuiltBody { body: Vec::new(), has_content_type: false, multipart_content_type: None },
        ),
        (Some(_), Some(_), _) => Err(BodyError::DataAndJson),
        _ => Err(BodyError::InvalidCombination),
    }
}

/// Builds a body; a multipart body gets a freshly generated boundary.
pub fn build_body(data: Option<RequestData>, json: Option<String>, files: Option<Vec<FilePart>>) -> (r: Result<
    BuiltBody,
    BodyError,
>)
    ensures
        exists|b: Seq<char>|
            is_form_boundary(b) && match #[trigger] spec_build_body(data, json, files, b) {
                Ok(v) => r matches Ok(x) && built_view(x) == v,
                Err(e) => r == Err::<BuiltBody, BodyError>(e),
            },
{
    let boundary = generate_boundary();
    let r = build_body_with_boundary(data, json, files, boundary.as_str());
    assert(is_form_boundary(boundary@));
    r
}

} // verus!
