//! HTTP status codes: names, reason phrases, classes, and the message of a
//! status error.
use crate::text::{decimal, owned, push_decimal, push_str, str_eq, str_upper, to_upper, upper_char};
use vstd::prelude::*;

verus! {

/// The status code registered under an (uppercase) name.
pub open spec fn code_for_name(name: Seq<char>) -> Option<u16> {
    if name == "CONTINUE"@ {
        Some(100)
    } else if name == "SWITCHING_PROTOCOLS"@ {
        Some(101)
    } else if name == "PROCESSING"@ {
        Some(102)
    } else if name == "EARLY_HINTS"@ {
        Some(103)
    } else if name == "OK"@ {
        Some(200)
    } else if name == "CREATED"@ {
        Some(201)
    } else if name == "ACCEPTED"@ {
        Some(202)
    } else if name == "NON_AUTHORITATIVE_INFORMATION"@ {
        Some(203)
    } else if name == "NO_CONTENT"@ {
        Some(204)
    } else if name == "RESET_CONTENT"@ {
        Some(205)
    } else if name == "PARTIAL_CONTENT"@ {
        Some(206)
    } else if name == "MULTI_STATUS"@ {
        Some(207)
    } else if name == "ALREADY_REPORTED"@ {
        Some(208)
    } else if name == "IM_USED"@ {
        Some(226)
    } else if name == "MULTIPLE_CHOICES"@ {
        Some(300)
    } else if name == "MOVED_PERMANENTLY"@ {
        Some(301)
    } else if name == "FOUND"@ {
        Some(302)
    } else if name == "SEE_OTHER"@ {
        Some(303)
    } else if name == "NOT_MODIFIED"@ {
        Some(304)
    } else if name == "USE_PROXY"@ {
        Some(305)
    } else if name == "TEMPORARY_REDIRECT"@ {
        Some(307)
    } else if name == "PERMANENT_REDIRECT"@ {
        Some(308)
    } else if name == "BAD_REQUEST"@ {
        Some(400)
    } else if name == "UNAUTHORIZED"@ {
        Some(401)
    } else if name == "PAYMENT_REQUIRED"@ {
        Some(402)
    } else if name == "FORBIDDEN"@ {
        Some(403)
    } else if name == "NOT_FOUND"@ {
        Some(404)
    } else if name == "METHOD_NOT_ALLOWED"@ {
        Some(405)
    } else if name == "NOT_ACCEPTABLE"@ {
        Some(406)
    } else if name == "PROXY_AUTHENTICATION_REQUIRED"@ {
        Some(407)
    } else if name == "REQUEST_TIMEOUT"@ {
        Some(408)
    } else if name == "CONFLICT"@ {
        Some(409)
    } else if name == "GONE"@ {
        Some(410)
    } else if name == "LENGTH_REQUIRED"@ {
        Some(411)
    } else if name == "PRECONDITION_FAILED"@ {
        Some(412)
    } else if name == "PAYLOAD_TOO_LARGE"@ {
        Some(413)
    } else if name == "URI_TOO_LONG"@ {
        Some(414)
    } else if name == "UNSUPPORTED_MEDIA_TYPE"@ {
        Some(415)
    } else if name == "RANGE_NOT_SATISFIABLE"@ {
        Some(416)
    } else if name == "EXPECTATION_FAILED"@ {
        Some(417)
    } else if name == "IM_A_TEAPOT"@ {
        Some(418)
    } else if name == "MISDIRECTED_REQUEST"@ {
        Some(421)
    } else if name == "UNPROCESSABLE_ENTITY"@ {
        Some(422)
    } else if name == "LOCKED"@ {
        Some(423)
    } else if name == "FAILED_DEPENDENCY"@ {
        Some(424)
    } else if name == "TOO_EARLY"@ {
        Some(425)
    } else if name == "UPGRADE_REQUIRED"@ {
        Some(426)
    } else if name == "PRECONDITION_REQUIRED"@ {
        Some(428)
    } else if name == "TOO_MANY_REQUESTS"@ {
        Some(429)
    } else if name == "REQUEST_HEADER_FIELDS_TOO_LARGE"@ {
        Some(431)
    } else if name == "UNAVAILABLE_FOR_LEGAL_REASONS"@ {
        Some(451)
    } else if name == "INTERNAL_SERVER_ERROR"@ {
        Some(500)
    } else if name == "NOT_IMPLEMENTED"@ {
        Some(501)
    } else if name == "BAD_GATEWAY"@ {
        Some(502)
    } else if name == "SERVICE_UNAVAILABLE"@ {
        Some(503)
    } else if name == "GATEWAY_TIMEOUT"@ {
        Some(504)
    } else if name == "HTTP_VERSION_NOT_SUPPORTED"@ {
        Some(505)
    } else if name == "VARIANT_ALSO_NEGOTIATES"@ {
        Some(506)
    } else if name == "INSUFFICIENT_STORAGE"@ {
        Some(507)
    } else if name == "LOOP_DETECTED"@ {
        Some(508)
    } else if name == "NOT_EXTENDED"@ {
        Some(510)
    } else if name == "NETWORK_AUTHENTICATION_REQUIRED"@ {
        Some(511)
    } else {
        None
    }
}

/// The status code for a name, looked up case-insensitively.
pub open spec fn spec_name_to_code(name: Seq<char>) -> Option<u16> {
    code_for_name(str_upper(name))
}

/// Looks up a status code by name, case-insensitively.
pub fn name_to_code(name: &str) -> (r: Option<u16>)
    ensures
        r == spec_name_to_code(name@),
{
    let upper = to_upper(name);
    let u = upper.as_str();
    if str_eq(u, "CONTINUE") {
        Some(100)
    } else if str_eq(u, "SWITCHING_PROTOCOLS") {
        Some(101)
    } else if str_eq(u, "PROCESSING") {
        Some(102)
    } else if str_eq(u, "EARLY_HINTS") {
        Some(103)
    } else if str_eq(u, "OK") {
        Some(200)
    } else if str_eq(u, "CREATED") {
        Some(201)
    } else if str_eq(u, "ACCEPTED") {
        Some(202)
    } else if str_eq(u, "NON_AUTHORITATIVE_INFORMATION") {
        Some(203)
    } else if str_eq(u, "NO_CONTENT") {
        Some(204)
    } else if str_eq(u, "RESET_CONTENT") {
        Some(205)
    } else if str_eq(u, "PARTIAL_CONTENT") {
        Some(206)
    } else if str_eq(u, "MULTI_STATUS") {
        Some(207)
    } else if str_eq(u, "ALREADY_REPORTED") {
        Some(208)
    } else if str_eq(u, "IM_USED") {
        Some(226)
    } else if str_eq(u, "MULTIPLE_CHOICES") {
        Some(300)
    } else if str_eq(u, "MOVED_PERMANENTLY") {
        Some(301)
    } else if str_eq(u, "FOUND") {
        Some(302)
    } else if str_eq(u, "SEE_OTHER") {
        Some(303)
    } else if str_eq(u, "NOT_MODIFIED") {
        Some(304)
    } else if str_eq(u, "USE_PROXY") {
        Some(305)
    } else if str_eq(u, "TEMPORARY_REDIRECT") {
        Some(307)
    } else if str_eq(u, "PERMANENT_REDIRECT") {
        Some(308)
    } else if str_eq(u, "BAD_REQUEST") {
        Some(400)
    } else if str_eq(u, "UNAUTHORIZED") {
        Some(401)
    } else if str_eq(u, "PAYMENT_REQUIRED") {
        Some(402)
    } else if str_eq(u, "FORBIDDEN") {
        Some(403)
    } else if str_eq(u, "NOT_FOUND") {
        Some(404)
    } else if str_eq(u, "METHOD_NOT_ALLOWED") {
        Some(405)
    } else if str_eq(u, "NOT_ACCEPTABLE") {
        Some(406)
    } else if str_eq(u, "PROXY_AUTHENTICATION_REQUIRED") {
        Some(407)
    } else if str_eq(u, "REQUEST_TIMEOUT") {
        Some(408)
    } else if str_eq(u, "CONFLICT") {
        Some(409)
    } else if str_eq(u, "GONE") {
        Some(410)
    } else if str_eq(u, "LENGTH_REQUIRED") {
        Some(411)
    } else if str_eq(u, "PRECONDITION_FAILED") {
        Some(412)
    } else if str_eq(u, "PAYLOAD_TOO_LARGE") {
        Some(413)
    } else if str_eq(u, "URI_TOO_LONG") {
        Some(414)
    } else if str_eq(u, "UNSUPPORTED_MEDIA_TYPE") {
        Some(415)
    } else if str_eq(u, "RANGE_NOT_SATISFIABLE") {
        Some(416)
    } else if str_eq(u, "EXPECTATION_FAILED") {
        Some(417)
    } else if str_eq(u, "IM_A_TEAPOT") {
        Some(418)
    } else if str_eq(u, "MISDIRECTED_REQUEST") {
        Some(421)
    } else if str_eq(u, "UNPROCESSABLE_ENTITY") {
        Some(422)
    } else if str_eq(u, "LOCKED") {
        Some(423)
    } else if str_eq(u, "FAILED_DEPENDENCY") {
        Some(424)
    } else if str_eq(u, "TOO_EARLY") {
        Some(425)
    } else if str_eq(u, "UPGRADE_REQUIRED") {
        Some(426)
    } else if str_eq(u, "PRECONDITION_REQUIRED") {
        Some(428)
    } else if str_eq(u, "TOO_MANY_REQUESTS") {
        Some(429)
    } else if str_eq(u, "REQUEST_HEADER_FIELDS_TOO_LARGE") {
        Some(431)
    } else if str_eq(u, "UNAVAILABLE_FOR_LEGAL_REASONS") {
        Some(451)
    } else if str_eq(u, "INTERNAL_SERVER_ERROR") {
        Some(500)
    } else if str_eq(u, "NOT_IMPLEMENTED") {
        Some(501)
    } else if str_eq(u, "BAD_GATEWAY") {
        Some(502)
    } else if str_eq(u, "SERVICE_UNAVAILABLE") {
        Some(503)
    } else if str_eq(u, "GATEWAY_TIMEOUT") {
        Some(504)
    } else if str_eq(u, "HTTP_VERSION_NOT_SUPPORTED") {
        Some(505)
    } else if str_eq(u, "VARIANT_ALSO_NEGOTIATES") {
        Some(506)
    } else if str_eq(u, "INSUFFICIENT_STORAGE") {
        Some(507)
    } else if str_eq(u, "LOOP_DETECTED") {
        Some(508)
    } else if str_eq(u, "NOT_EXTENDED") {
        Some(510)
    } else if str_eq(u, "NETWORK_AUTHENTICATION_REQUIRED") {
        Some(511)
    } else {
        None
    }
}

/// The reason phrase of a status code ("" when the code has none).
pub open spec fn spec_reason_phrase(code: u16) -> Seq<char> {
    if code == 100 {
        "Continue"@
    } else if code == 101 {
        "Switching Protocols"@
    } else if code == 102 {
        "Processing"@
    } else if code == 103 {
        "Early Hints"@
    } else if code == 200 {
        "OK"@
    } else if code == 201 {
        "Created"@
    } else if code == 202 {
        "Accepted"@
    } else if code == 203 {
        "Non-Authoritative Information"@
    } else if code == 204 {
        "No Content"@
    } else if code == 205 {
        "Reset Content"@
    } else if code == 206 {
        "Partial Content"@
    } else if code == 207 {
        "Multi-Status"@
    } else if code == 208 {
        "Already Reported"@
    } else if code == 226 {
        "IM Used"@
    } else if code == 300 {
        "Multiple Choices"@
    } else if code == 301 {
        "Moved Permanently"@
    } else if code == 302 {
        "Found"@
    } else if code == 303 {
        "See Other"@
    } else if code == 304 {
        "Not Modified"@
    } else if code == 305 {
        "Use Proxy"@
    } else if code == 307 {
        "Temporary Redirect"@
    } else if code == 308 {
        "Permanent Redirect"@
    } else if code == 400 {
        "Bad Request"@
    } else if code == 401 {
        "Unauthorized"@
    } else if code == 402 {
        "Payment Required"@
    } else if code == 403 {
        "Forbidden"@
    } else if code == 404 {
        "Not Found"@
    } else if code == 405 {
        "Method Not Allowed"@
    } else if code == 406 {
        "Not Acceptable"@
    } else if code == 407 {
        "Proxy Authentication Required"@
    } else if code == 408 {
        "Request Timeout"@
    } else if code == 409 {
        "Conflict"@
    } else if code == 410 {
        "Gone"@
    } else if code == 411 {
        "Length Required"@
    } else if code == 412 {
        "Precondition Failed"@
    } else if code == 413 {
        "Payload Too Large"@
    } else if code == 414 {
        "URI Too Long"@
    } else if code == 415 {
        "Unsupported Media Type"@
    } else if code == 416 {
        "Range Not Satisfiable"@
    } else if code == 417 {
        "Expectation Failed"@
    } else if code == 418 {
        "I'm a teapot"@
    } else if code == 421 {
        "Misdirected Request"@
    } else if code == 422 {
        "Unprocessable Entity"@
    } else if code == 423 {
        "Locked"@
    } else if code == 424 {
        "Failed Dependency"@
    } else if code == 425 {
        "Too Early"@
    } else if code == 426 {
        "Upgrade Required"@
    } else if code == 428 {
        "Precondition Required"@
    } else if code == 429 {
        "Too Many Requests"@
    } else if code == 431 {
        "Request Header Fields Too Large"@
    } else if code == 451 {
        "Unavailable For Legal Reasons"@
    } else if code == 500 {
        "Internal Server Error"@
    } else if code == 501 {
        "Not Implemented"@
    } else if code == 502 {
        "Bad Gateway"@
    } else if code == 503 {
        "Service Unavailable"@
    } else if code == 504 {
        "Gateway Timeout"@
    } else if code == 505 {
        "HTTP Version Not Supported"@
    } else if code == 506 {
        "Variant Also Negotiates"@
    } else if code == 507 {
        "Insufficient Storage"@
    } else if code == 508 {
        "Loop Detected"@
    } else if code == 510 {
        "Not Extended"@
    } else if code == 511 {
        "Network Authentication Required"@
    } else {
        ""@
    }
}

/// The reason phrase of a status code ("" when the code has none).
pub fn reason_phrase(code: u16) -> (r: &'static str)
    ensures
        r@ == spec_reason_phrase(code),
{
    if code == 100 {
        "Continue"
    } else if code == 101 {
        "Switching Protocols"
    } else if code == 102 {
        "Processing"
    } else if code == 103 {
        "Early Hints"
    } else if code == 200 {
        "OK"
    } else if code == 201 {
        "Created"
    } else if code == 202 {
        "Accepted"
    } else if code == 203 {
        "Non-Authoritative Information"
    } else if code == 204 {
        "No Content"
    } else if code == 205 {
        "Reset Content"
    } else if code == 206 {
        "Partial Content"
    } else if code == 207 {
        "Multi-Status"
    } else if code == 208 {
        "Already Reported"
    } else if code == 226 {
        "IM Used"
    } else if code == 300 {
        "Multiple Choices"
    } else if code == 301 {
        "Moved Permanently"
    } else if code == 302 {
        "Found"
    } else if code == 303 {
        "See Other"
    } else if code == 304 {
        "Not Modified"
    } else if code == 305 {
        "Use Proxy"
    } else if code == 307 {
        "Temporary Redirect"
    } else if code == 308 {
        "Permanent Redirect"
    } else if code == 400 {
        "Bad Request"
    } else if code == 401 {
        "Unauthorized"
    } else if code == 402 {
        "Payment Required"
    } else if code == 403 {
        "Forbidden"
    } else if code == 404 {
        "Not Found"
    } else if code == 405 {
        "Method Not Allowed"
    } else if code == 406 {
        "Not Acceptable"
    } else if code == 407 {
        "Proxy Authentication Required"
    } else if code == 408 {
        "Request Timeout"
    } else if code == 409 {
        "Conflict"
    } else if code == 410 {
        "Gone"
    } else if code == 411 {
        "Length Required"
    } else if code == 412 {
        "Precondition Failed"
    } else if code == 413 {
        "Payload Too Large"
    } else if code == 414 {
        "URI Too Long"
    } else if code == 415 {
        "Unsupported Media Type"
    } else if code == 416 {
        "Range Not Satisfiable"
    } else if code == 417 {
        "Expectation Failed"
    } else if code == 418 {
        "I'm a teapot"
    } else if code == 421 {
        "Misdirected Request"
    } else if code == 422 {
        "Unprocessable Entity"
    } else if code == 423 {
        "Locked"
    } else if code == 424 {
        "Failed Dependency"
    } else if code == 425 {
        "Too Early"
    } else if code == 426 {
        "Upgrade Required"
    } else if code == 428 {
        "Precondition Required"
    } else if code == 429 {
        "Too Many Requests"
    } else if code == 431 {
        "Request Header Fields Too Large"
    } else if code == 451 {
        "Unavailable For Legal Reasons"
    } else if code == 500 {
        "Internal Server Error"
    } else if code == 501 {
        "Not Implemented"
    } else if code == 502 {
        "Bad Gateway"
    } else if code == 503 {
        "Service Unavailable"
    } else if code == 504 {
        "Gateway Timeout"
    } else if code == 505 {
        "HTTP Version Not Supported"
    } else if code == 506 {
        "Variant Also Negotiates"
    } else if code == 507 {
        "Insufficient Storage"
    } else if code == 508 {
        "Loop Detected"
    } else if code == 510 {
        "Not Extended"
    } else if code == 511 {
        "Network Authentication Required"
    } else {
        ""
    }
}

/// 1xx.
pub open spec fn spec_is_informational(code: u16) -> bool {
    100 <= code < 200
}

/// 2xx.
pub open spec fn spec_is_success(code: u16) -> bool {
    200 <= code < 300
}

/// 3xx.
pub open spec fn spec_is_redirect_class(code: u16) -> bool {
    300 <= code < 400
}

/// 4xx.
pub open spec fn spec_is_client_error(code: u16) -> bool {
    400 <= code < 500
}

/// 5xx.
pub open spec fn spec_is_server_error(code: u16) -> bool {
    500 <= code < 600
}

/// 4xx and above.
pub open spec fn spec_is_error(code: u16) -> bool {
    code >= 400
}

/// Whether the status is informational (1xx).
pub fn is_informational(code: u16) -> (r: bool)
    ensures
        r == spec_is_informational(code),
{
    100 <= code && code < 200
}

/// Whether the status is a success (2xx).
pub fn is_success(code: u16) -> (r: bool)
    ensures
        r == spec_is_success(code),
{
    200 <= code && code < 300
}

/// Whether the status is in the redirect class (3xx).
pub fn is_redirect_class(code: u16) -> (r: bool)
    ensures
        r == spec_is_redirect_class(code),
{
    300 <= code && code < 400
}

/// Whether the status is a client error (4xx).
pub fn is_client_error(code: u16) -> (r: bool)
    ensures
        r == spec_is_client_error(code),
{
    400 <= code && code < 500
}

/// Whether the status is a server error (5xx).
pub fn is_server_error(code: u16) -> (r: bool)
    ensures
        r == spec_is_server_error(code),
{
    500 <= code && code < 600
}

/// Whether the status is an error (4xx or 5xx and above).
pub fn is_error(code: u16) -> (r: bool)
    ensures
        r == spec_is_error(code),
{
    code >= 400
}

/// How a status error message begins, by the class of the status.
pub open spec fn message_prefix(code: u16) -> Seq<char> {
    if spec_is_informational(code) {
        "Informational response"@
    } else if spec_is_redirect_class(code) {
        "Redirect response"@
    } else if spec_is_client_error(code) {
        "Client error"@
    } else if spec_is_server_error(code) {
        "Server error"@
    } else {
        "Error"@
    }
}

/// The message of the error raised for a non-2xx response: the class, the
/// code and reason phrase, the URL; for a 3xx with a Location header the
/// redirect location; and a pointer to the status documentation.  `None`
/// for a 2xx response.
pub open spec fn spec_status_message(code: u16, url: Seq<char>, location: Option<Seq<char>>) -> Option<
    Seq<char>,
> {
    if spec_is_success(code) {
        None
    } else {
        let head = message_prefix(code) + " '"@ + decimal(code as nat) + " "@ + spec_reason_phrase(
            code,
        ) + "' for url '"@ + url + "'"@;
        let loc = if spec_is_redirect_class(code) && location is Some {
            "\nRedirect location: '"@ + location.unwrap() + "'"@
        } else {
            Seq::empty()
        };
        Some(head + loc + "\nFor more information check: https://developer.mozilla.org/en-US/docs/Web/HTTP/Status/"@ + decimal(code as nat))
    }
}

/// Builds the status error message, or `None` when the status is a success.
pub fn raise_for_status_message(code: u16, url: &str, location: Option<&str>) -> (r: Option<String>)
    ensures
        match spec_status_message(
            code,
            url@,
            match location {
                Some(l) => Some(l@),
                None => None,
            },
        ) {
            Some(m) => r matches Some(x) && x@ == m,
            None => r is None,
        },
{
    if is_success(code) {
        return None;
    }
    let prefix = if is_informational(code) {
        "Informational response"
    } else if is_redirect_class(code) {
        "Redirect response"
    } else if is_client_error(code) {
        "Client error"
    } else if is_server_error(code) {
        "Server error"
    } else {
        "Error"
    };
    let mut m = owned(prefix);
    push_str(&mut m, " '");
    push_decimal(&mut m, code as u64);
    push_str(&mut m, " ");
    push_str(&mut m, reason_phrase(code));
    push_str(&mut m, "' for url '");
    push_str(&mut m, url);
    push_str(&mut m, "'");
    if is_redirect_class(code) {
        match location {
            Some(l) => {
                push_str(&mut m, "\nRedirect location: '");
                push_str(&mut m, l);
                push_str(&mut m, "'");
            },
            None => {},
        }
    }
    push_str(&mut m, "\nFor more information check: https://developer.mozilla.org/en-US/docs/Web/HTTP/Status/");
    push_decimal(&mut m, code as u64);
    Some(m)
}

/// HTTP status codes: lookup by name and reason phrases.
#[allow(non_camel_case_types)]
pub struct codes;

impl codes {
    /// The code registered under a name (`codes["NOT_FOUND"]`), matched
    /// case-insensitively; `None` for an unknown name.
    pub fn lookup(name: &str) -> (r: Option<u16>)
        ensures
            r == spec_name_to_code(name@),
    {
        name_to_code(name)
    }

    /// The reason phrase for a status code.
    pub fn get_reason_phrase(code: u16) -> (r: &'static str)
        ensures
            r@ == spec_reason_phrase(code),
    {
        reason_phrase(code)
    }
}


// ----- reason phrases and names ---------------------------------------------

/// The character that stands for `c` in a constant name: ASCII letters
/// raised, spaces and hyphens as underscores.
pub open spec fn name_char(c: char) -> char {
    if c == ' ' || c == '-' {
        '_'
    } else {
        upper_char(c)
    }
}

/// Every character but the apostrophe.
pub open spec fn not_apostrophe() -> spec_fn(char) -> bool {
    |c: char| c != '\''
}

/// A reason phrase written as a constant name: apostrophes left out, ASCII
/// letters raised, spaces and hyphens as underscores ("I'm a teapot" gives
/// "IM_A_TEAPOT").
pub open spec fn constant_name(phrase: Seq<char>) -> Seq<char> {
    phrase.filter(not_apostrophe()).map_values(|c: char| name_char(c))
}

proof fn lemma_filter_keeps_all(s: Seq<char>)
    requires
        forall|i: int| 0 <= i < s.len() ==> s[i] != '\'',
    ensures
        s.filter(not_apostrophe()) == s,
    decreases s.len(),
{
    if s.len() > 0 {
        let t = s.drop_last();
        lemma_filter_keeps_all(t);
        assert(not_apostrophe()(s.last()));
        reveal(Seq::filter);
        assert(s.filter(not_apostrophe()) == t.filter(not_apostrophe()).push(s.last()));
        assert(t.push(s.last()) =~= s);
    }
}

proof fn lemma_spells(phrase: Seq<char>, name: Seq<char>)
    requires
        forall|i: int| 0 <= i < phrase.len() ==> phrase[i] != '\'',
        phrase.len() == name.len(),
        forall|i: int| 0 <= i < phrase.len() ==> name[i] == name_char(#[trigger] phrase[i]),
    ensures
        constant_name(phrase) == name,
{
    lemma_filter_keeps_all(phrase);
    assert(constant_name(phrase) =~= name);
}

proof fn lemma_name_100()
    ensures
        constant_name(spec_reason_phrase(100)) == "CONTINUE"@,
{
    reveal_strlit("Continue");
    reveal_strlit("CONTINUE");
    lemma_spells("Continue"@, "CONTINUE"@);
}

proof fn lemma_name_101()
    ensures
        constant_name(spec_reason_phrase(101)) == "SWITCHING_PROTOCOLS"@,
{
    reveal_strlit("Switching Protocols");
    reveal_strlit("SWITCHING_PROTOCOLS");
    lemma_spells("Switching Protocols"@, "SWITCHING_PROTOCOLS"@);
}

proof fn lemma_name_102()
    ensures
        constant_name(spec_reason_phrase(102)) == "PROCESSING"@,
{
    reveal_strlit("Processing");
    reveal_strlit("PROCESSING");
    lemma_spells("Processing"@, "PROCESSING"@);
}

proof fn lemma_name_103()
    ensures
        constant_name(spec_reason_phrase(103)) == "EARLY_HINTS"@,
{
    reveal_strlit("Early Hints");
    reveal_strlit("EARLY_HINTS");
    lemma_spells("Early Hints"@, "EARLY_HINTS"@);
}

proof fn lemma_name_200()
    ensures
        constant_name(spec_reason_phrase(200)) == "OK"@,
{
    reveal_strlit("OK");
    reveal_strlit("OK");
    lemma_spells("OK"@, "OK"@);
}

proof fn lemma_name_201()
    ensures
        constant_name(spec_reason_phrase(201)) == "CREATED"@,
{
    reveal_strlit("Created");
    reveal_strlit("CREATED");
    lemma_spells("Created"@, "CREATED"@);
}

proof fn lemma_name_202()
    ensures
        constant_name(spec_reason_phrase(202)) == "ACCEPTED"@,
{
    reveal_strlit("Accepted");
    reveal_strlit("ACCEPTED");
    lemma_spells("Accepted"@, "ACCEPTED"@);
}

proof fn lemma_name_203()
    ensures
        constant_name(spec_reason_phrase(203)) == "NON_AUTHORITATIVE_INFORMATION"@,
{
    reveal_strlit("Non-Authoritative Information");
    reveal_strlit("NON_AUTHORITATIVE_INFORMATION");
    lemma_spells("Non-Authoritative Information"@, "NON_AUTHORITATIVE_INFORMATION"@);
}

proof fn lemma_name_204()
    ensures
        constant_name(spec_reason_phrase(204)) == "NO_CONTENT"@,
{
    reveal_strlit("No Content");
    reveal_strlit("NO_CONTENT");
    lemma_spells("No Content"@, "NO_CONTENT"@);
}

proof fn lemma_name_205()
    ensures
        constant_name(spec_reason_phrase(205)) == "RESET_CONTENT"@,
{
    reveal_strlit("Reset Content");
    reveal_strlit("RESET_CONTENT");
    lemma_spells("Reset Content"@, "RESET_CONTENT"@);
}

proof fn lemma_name_206()
    ensures
        constant_name(spec_reason_phrase(206)) == "PARTIAL_CONTENT"@,
{
    reveal_strlit("Partial Content");
    reveal_strlit("PARTIAL_CONTENT");
    lemma_spells("Partial Content"@, "PARTIAL_CONTENT"@);
}

proof fn lemma_name_207()
    ensures
        constant_name(spec_reason_phrase(207)) == "MULTI_STATUS"@,
{
    reveal_strlit("Multi-Status");
    reveal_strlit("MULTI_STATUS");
    lemma_spells("Multi-Status"@, "MULTI_STATUS"@);
}

proof fn lemma_name_208()
    ensures
        constant_name(spec_reason_phrase(208)) == "ALREADY_REPORTED"@,
{
    reveal_strlit("Already Reported");
    reveal_strlit("ALREADY_REPORTED");
    lemma_spells("Already Reported"@, "ALREADY_REPORTED"@);
}

proof fn lemma_name_226()
    ensures
        constant_name(spec_reason_phrase(226)) == "IM_USED"@,
{
    reveal_strlit("IM Used");
    reveal_strlit("IM_USED");
    lemma_spells("IM Used"@, "IM_USED"@);
}

proof fn lemma_name_300()
    ensures
        constant_name(spec_reason_phrase(300)) == "MULTIPLE_CHOICES"@,
{
    reveal_strlit("Multiple Choices");
    reveal_strlit("MULTIPLE_CHOICES");
    lemma_spells("Multiple Choices"@, "MULTIPLE_CHOICES"@);
}

proof fn lemma_name_301()
    ensures
        constant_name(spec_reason_phrase(301)) == "MOVED_PERMANENTLY"@,
{
    reveal_strlit("Moved Permanently");
    reveal_strlit("MOVED_PERMANENTLY");
    lemma_spells("Moved Permanently"@, "MOVED_PERMANENTLY"@);
}

proof fn lemma_name_302()
    ensures
        constant_name(spec_reason_phrase(302)) == "FOUND"@,
{
    reveal_strlit("Found");
    reveal_strlit("FOUND");
    lemma_spells("Found"@, "FOUND"@);
}

proof fn lemma_name_303()
    ensures
        constant_name(spec_reason_phrase(303)) == "SEE_OTHER"@,
{
    reveal_strlit("See Other");
    reveal_strlit("SEE_OTHER");
    lemma_spells("See Other"@, "SEE_OTHER"@);
}

proof fn lemma_name_304()
    ensures
        constant_name(spec_reason_phrase(304)) == "NOT_MODIFIED"@,
{
    reveal_strlit("Not Modified");
    reveal_strlit("NOT_MODIFIED");
    lemma_spells("Not Modified"@, "NOT_MODIFIED"@);
}

proof fn lemma_name_305()
    ensures
        constant_name(spec_reason_phrase(305)) == "USE_PROXY"@,
{
    reveal_strlit("Use Proxy");
    reveal_strlit("USE_PROXY");
    lemma_spells("Use Proxy"@, "USE_PROXY"@);
}

proof fn lemma_name_307()
    ensures
        constant_name(spec_reason_phrase(307)) == "TEMPORARY_REDIRECT"@,
{
    reveal_strlit("Temporary Redirect");
    reveal_strlit("TEMPORARY_REDIRECT");
    lemma_spells("Temporary Redirect"@, "TEMPORARY_REDIRECT"@);
}

proof fn lemma_name_308()
    ensures
        constant_name(spec_reason_phrase(308)) == "PERMANENT_REDIRECT"@,
{
    reveal_strlit("Permanent Redirect");
    reveal_strlit("PERMANENT_REDIRECT");
    lemma_spells("Permanent Redirect"@, "PERMANENT_REDIRECT"@);
}

proof fn lemma_name_400()
    ensures
        constant_name(spec_reason_phrase(400)) == "BAD_REQUEST"@,
{
    reveal_strlit("Bad Request");
    reveal_strlit("BAD_REQUEST");
    lemma_spells("Bad Request"@, "BAD_REQUEST"@);
}

proof fn lemma_name_401()
    ensures
        constant_name(spec_reason_phrase(401)) == "UNAUTHORIZED"@,
{
    reveal_strlit("Unauthorized");
    reveal_strlit("UNAUTHORIZED");
    lemma_spells("Unauthorized"@, "UNAUTHORIZED"@);
}

proof fn lemma_name_402()
    ensures
        constant_name(spec_reason_phrase(402)) == "PAYMENT_REQUIRED"@,
{
    reveal_strlit("Payment Required");
    reveal_strlit("PAYMENT_REQUIRED");
    lemma_spells("Payment Required"@, "PAYMENT_REQUIRED"@);
}

proof fn lemma_name_403()
    ensures
        constant_name(spec_reason_phrase(403)) == "FORBIDDEN"@,
{
    reveal_strlit("Forbidden");
    reveal_strlit("FORBIDDEN");
    lemma_spells("Forbidden"@, "FORBIDDEN"@);
}

proof fn lemma_name_404()
    ensures
        constant_name(spec_reason_phrase(404)) == "NOT_FOUND"@,
{
    reveal_strlit("Not Found");
    reveal_strlit("NOT_FOUND");
    lemma_spells("Not Found"@, "NOT_FOUND"@);
}

proof fn lemma_name_405()
    ensures
        constant_name(spec_reason_phrase(405)) == "METHOD_NOT_ALLOWED"@,
{
    reveal_strlit("Method Not Allowed");
    reveal_strlit("METHOD_NOT_ALLOWED");
    lemma_spells("Method Not Allowed"@, "METHOD_NOT_ALLOWED"@);
}

proof fn lemma_name_406()
    ensures
        constant_name(spec_reason_phrase(406)) == "NOT_ACCEPTABLE"@,
{
    reveal_strlit("Not Acceptable");
    reveal_strlit("NOT_ACCEPTABLE");
    lemma_spells("Not Acceptable"@, "NOT_ACCEPTABLE"@);
}

proof fn lemma_name_407()
    ensures
        constant_name(spec_reason_phrase(407)) == "PROXY_AUTHENTICATION_REQUIRED"@,
{
    reveal_strlit("Proxy Authentication Required");
    reveal_strlit("PROXY_AUTHENTICATION_REQUIRED");
    lemma_spells("Proxy Authentication Required"@, "PROXY_AUTHENTICATION_REQUIRED"@);
}

proof fn lemma_name_408()
    ensures
        constant_name(spec_reason_phrase(408)) == "REQUEST_TIMEOUT"@,
{
    reveal_strlit("Request Timeout");
    reveal_strlit("REQUEST_TIMEOUT");
    lemma_spells("Request Timeout"@, "REQUEST_TIMEOUT"@);
}

proof fn lemma_name_409()
    ensures
        constant_name(spec_reason_phrase(409)) == "CONFLICT"@,
{
    reveal_strlit("Conflict");
    reveal_strlit("CONFLICT");
    lemma_spells("Conflict"@, "CONFLICT"@);
}

proof fn lemma_name_410()
    ensures
        constant_name(spec_reason_phrase(410)) == "GONE"@,
{
    reveal_strlit("Gone");
    reveal_strlit("GONE");
    lemma_spells("Gone"@, "GONE"@);
}

proof fn lemma_name_411()
    ensures
        constant_name(spec_reason_phrase(411)) == "LENGTH_REQUIRED"@,
{
    reveal_strlit("Length Required");
    reveal_strlit("LENGTH_REQUIRED");
    lemma_spells("Length Required"@, "LENGTH_REQUIRED"@);
}

proof fn lemma_name_412()
    ensures
        constant_name(spec_reason_phrase(412)) == "PRECONDITION_FAILED"@,
{
    reveal_strlit("Precondition Failed");
    reveal_strlit("PRECONDITION_FAILED");
    lemma_spells("Precondition Failed"@, "PRECONDITION_FAILED"@);
}

proof fn lemma_name_413()
    ensures
        constant_name(spec_reason_phrase(413)) == "PAYLOAD_TOO_LARGE"@,
{
    reveal_strlit("Payload Too Large");
    reveal_strlit("PAYLOAD_TOO_LARGE");
    lemma_spells("Payload Too Large"@, "PAYLOAD_TOO_LARGE"@);
}

proof fn lemma_name_414()
    ensures
        constant_name(spec_reason_phrase(414)) == "URI_TOO_LONG"@,
{
    reveal_strlit("URI Too Long");
    reveal_strlit("URI_TOO_LONG");
    lemma_spells("URI Too Long"@, "URI_TOO_LONG"@);
}

proof fn lemma_name_415()
    ensures
        constant_name(spec_reason_phrase(415)) == "UNSUPPORTED_MEDIA_TYPE"@,
{
    reveal_strlit("Unsupported Media Type");
    reveal_strlit("UNSUPPORTED_MEDIA_TYPE");
    lemma_spells("Unsupported Media Type"@, "UNSUPPORTED_MEDIA_TYPE"@);
}

proof fn lemma_name_416()
    ensures
        constant_name(spec_reason_phrase(416)) == "RANGE_NOT_SATISFIABLE"@,
{
    reveal_strlit("Range Not Satisfiable");
    reveal_strlit("RANGE_NOT_SATISFIABLE");
    lemma_spells("Range Not Satisfiable"@, "RANGE_NOT_SATISFIABLE"@);
}

proof fn lemma_name_417()
    ensures
        constant_name(spec_reason_phrase(417)) == "EXPECTATION_FAILED"@,
{
    reveal_strlit("Expectation Failed");
    reveal_strlit("EXPECTATION_FAILED");
    lemma_spells("Expectation Failed"@, "EXPECTATION_FAILED"@);
}

proof fn lemma_name_418()
    ensures
        constant_name(spec_reason_phrase(418)) == "IM_A_TEAPOT"@,
{
    reveal_strlit("I'm a teapot");
    reveal_strlit("IM_A_TEAPOT");
    let p = "I'm a teapot"@;
    let a = p.take(3);
    let b = p.skip(3);
    assert(p =~= a + b);
    Seq::filter_distributes_over_add(a, b, not_apostrophe());
    lemma_filter_keeps_all(b);
    reveal(Seq::filter);
    reveal_with_fuel(Seq::filter, 4);
    assert(a.filter(not_apostrophe()) =~= seq!['I', 'm']);
    assert(constant_name(p) =~= "IM_A_TEAPOT"@);
}

proof fn lemma_name_421()
    ensures
        constant_name(spec_reason_phrase(421)) == "MISDIRECTED_REQUEST"@,
{
    reveal_strlit("Misdirected Request");
    reveal_strlit("MISDIRECTED_REQUEST");
    lemma_spells("Misdirected Request"@, "MISDIRECTED_REQUEST"@);
}

proof fn lemma_name_422()
    ensures
        constant_name(spec_reason_phrase(422)) == "UNPROCESSABLE_ENTITY"@,
{
    reveal_strlit("Unprocessable Entity");
    reveal_strlit("UNPROCESSABLE_ENTITY");
    lemma_spells("Unprocessable Entity"@, "UNPROCESSABLE_ENTITY"@);
}

proof fn lemma_name_423()
    ensures
        constant_name(spec_reason_phrase(423)) == "LOCKED"@,
{
    reveal_strlit("Locked");
    reveal_strlit("LOCKED");
    lemma_spells("Locked"@, "LOCKED"@);
}

proof fn lemma_name_424()
    ensures
        constant_name(spec_reason_phrase(424)) == "FAILED_DEPENDENCY"@,
{
    reveal_strlit("Failed Dependency");
    reveal_strlit("FAILED_DEPENDENCY");
    lemma_spells("Failed Dependency"@, "FAILED_DEPENDENCY"@);
}

proof fn lemma_name_425()
    ensures
        constant_name(spec_reason_phrase(425)) == "TOO_EARLY"@,
{
    reveal_strlit("Too Early");
    reveal_strlit("TOO_EARLY");
    lemma_spells("Too Early"@, "TOO_EARLY"@);
}

proof fn lemma_name_426()
    ensures
        constant_name(spec_reason_phrase(426)) == "UPGRADE_REQUIRED"@,
{
    reveal_strlit("Upgrade Required");
    reveal_strlit("UPGRADE_REQUIRED");
    lemma_spells("Upgrade Required"@, "UPGRADE_REQUIRED"@);
}

proof fn lemma_name_428()
    ensures
        constant_name(spec_reason_phrase(428)) == "PRECONDITION_REQUIRED"@,
{
    reveal_strlit("Precondition Required");
    reveal_strlit("PRECONDITION_REQUIRED");
    lemma_spells("Precondition Required"@, "PRECONDITION_REQUIRED"@);
}

proof fn lemma_name_429()
    ensures
        constant_name(spec_reason_phrase(429)) == "TOO_MANY_REQUESTS"@,
{
    reveal_strlit("Too Many Requests");
    reveal_strlit("TOO_MANY_REQUESTS");
    lemma_spells("Too Many Requests"@, "TOO_MANY_REQUESTS"@);
}

proof fn lemma_name_431()
    ensures
        constant_name(spec_reason_phrase(431)) == "REQUEST_HEADER_FIELDS_TOO_LARGE"@,
{
    reveal_strlit("Request Header Fields Too Large");
    reveal_strlit("REQUEST_HEADER_FIELDS_TOO_LARGE");
    lemma_spells("Request Header Fields Too Large"@, "REQUEST_HEADER_FIELDS_TOO_LARGE"@);
}

proof fn lemma_name_451()
    ensures
        constant_name(spec_reason_phrase(451)) == "UNAVAILABLE_FOR_LEGAL_REASONS"@,
{
    reveal_strlit("Unavailable For Legal Reasons");
    reveal_strlit("UNAVAILABLE_FOR_LEGAL_REASONS");
    lemma_spells("Unavailable For Legal Reasons"@, "UNAVAILABLE_FOR_LEGAL_REASONS"@);
}

proof fn lemma_name_500()
    ensures
        constant_name(spec_reason_phrase(500)) == "INTERNAL_SERVER_ERROR"@,
{
    reveal_strlit("Internal Server Error");
    reveal_strlit("INTERNAL_SERVER_ERROR");
    lemma_spells("Internal Server Error"@, "INTERNAL_SERVER_ERROR"@);
}

proof fn lemma_name_501()
    ensures
        constant_name(spec_reason_phrase(501)) == "NOT_IMPLEMENTED"@,
{
    reveal_strlit("Not Implemented");
    reveal_strlit("NOT_IMPLEMENTED");
    lemma_spells("Not Implemented"@, "NOT_IMPLEMENTED"@);
}

proof fn lemma_name_502()
    ensures
        constant_name(spec_reason_phrase(502)) == "BAD_GATEWAY"@,
{
    reveal_strlit("Bad Gateway");
    reveal_strlit("BAD_GATEWAY");
    lemma_spells("Bad Gateway"@, "BAD_GATEWAY"@);
}

proof fn lemma_name_503()
    ensures
        constant_name(spec_reason_phrase(503)) == "SERVICE_UNAVAILABLE"@,
{
    reveal_strlit("Service Unavailable");
    reveal_strlit("SERVICE_UNAVAILABLE");
    lemma_spells("Service Unavailable"@, "SERVICE_UNAVAILABLE"@);
}

proof fn lemma_name_504()
    ensures
        constant_name(spec_reason_phrase(504)) == "GATEWAY_TIMEOUT"@,
{
    reveal_strlit("Gateway Timeout");
    reveal_strlit("GATEWAY_TIMEOUT");
    lemma_spells("Gateway Timeout"@, "GATEWAY_TIMEOUT"@);
}

proof fn lemma_name_505()
    ensures
        constant_name(spec_reason_phrase(505)) == "HTTP_VERSION_NOT_SUPPORTED"@,
{
    reveal_strlit("HTTP Version Not Supported");
    reveal_strlit("HTTP_VERSION_NOT_SUPPORTED");
    lemma_spells("HTTP Version Not Supported"@, "HTTP_VERSION_NOT_SUPPORTED"@);
}

proof fn lemma_name_506()
    ensures
        constant_name(spec_reason_phrase(506)) == "VARIANT_ALSO_NEGOTIATES"@,
{
    reveal_strlit("Variant Also Negotiates");
    reveal_strlit("VARIANT_ALSO_NEGOTIATES");
    lemma_spells("Variant Also Negotiates"@, "VARIANT_ALSO_NEGOTIATES"@);
}

proof fn lemma_name_507()
    ensures
        constant_name(spec_reason_phrase(507)) == "INSUFFICIENT_STORAGE"@,
{
    reveal_strlit("Insufficient Storage");
    reveal_strlit("INSUFFICIENT_STORAGE");
    lemma_spells("Insufficient Storage"@, "INSUFFICIENT_STORAGE"@);
}

proof fn lemma_name_508()
    ensures
        constant_name(spec_reason_phrase(508)) == "LOOP_DETECTED"@,
{
    reveal_strlit("Loop Detected");
    reveal_strlit("LOOP_DETECTED");
    lemma_spells("Loop Detected"@, "LOOP_DETECTED"@);
}

proof fn lemma_name_510()
    ensures
        constant_name(spec_reason_phrase(510)) == "NOT_EXTENDED"@,
{
    reveal_strlit("Not Extended");
    reveal_strlit("NOT_EXTENDED");
    lemma_spells("Not Extended"@, "NOT_EXTENDED"@);
}

proof fn lemma_name_511()
    ensures
        constant_name(spec_reason_phrase(511)) == "NETWORK_AUTHENTICATION_REQUIRED"@,
{
    reveal_strlit("Network Authentication Required");
    reveal_strlit("NETWORK_AUTHENTICATION_REQUIRED");
    lemma_spells("Network Authentication Required"@, "NETWORK_AUTHENTICATION_REQUIRED"@);
}

/// Law: every status code registered under a name has as its reason phrase
/// that name written as words: the phrase, with apostrophes left out, ASCII
/// letters raised and spaces and hyphens as underscores, is the name (500 is
/// INTERNAL_SERVER_ERROR and its phrase is "Internal Server Error").
pub proof fn law_reason_phrase_spells_name(name: Seq<char>)
    ensures
        code_for_name(name) matches Some(c) ==> constant_name(spec_reason_phrase(c)) == name,
{
    if name == "CONTINUE"@ {
        lemma_name_100();
    } else if name == "SWITCHING_PROTOCOLS"@ {
        lemma_name_101();
    } else if name == "PROCESSING"@ {
        lemma_name_102();
    } else if name == "EARLY_HINTS"@ {
        lemma_name_103();
    } else if name == "OK"@ {
        lemma_name_200();
    } else if name == "CREATED"@ {
        lemma_name_201();
    } else if name == "ACCEPTED"@ {
        lemma_name_202();
    } else if name == "NON_AUTHORITATIVE_INFORMATION"@ {
        lemma_name_203();
    } else if name == "NO_CONTENT"@ {
        lemma_name_204();
    } else if name == "RESET_CONTENT"@ {
        lemma_name_205();
    } else if name == "PARTIAL_CONTENT"@ {
        lemma_name_206();
    } else if name == "MULTI_STATUS"@ {
        lemma_name_207();
    } else if name == "ALREADY_REPORTED"@ {
        lemma_name_208();
    } else if name == "IM_USED"@ {
        lemma_name_226();
    } else if name == "MULTIPLE_CHOICES"@ {
        lemma_name_300();
    } else if name == "MOVED_PERMANENTLY"@ {
        lemma_name_301();
    } else if name == "FOUND"@ {
        lemma_name_302();
    } else if name == "SEE_OTHER"@ {
        lemma_name_303();
    } else if name == "NOT_MODIFIED"@ {
        lemma_name_304();
    } else if name == "USE_PROXY"@ {
        lemma_name_305();
    } else if name == "TEMPORARY_REDIRECT"@ {
        lemma_name_307();
    } else if name == "PERMANENT_REDIRECT"@ {
        lemma_name_308();
    } else if name == "BAD_REQUEST"@ {
        lemma_name_400();
    } else if name == "UNAUTHORIZED"@ {
        lemma_name_401();
    } else if name == "PAYMENT_REQUIRED"@ {
        lemma_name_402();
    } else if name == "FORBIDDEN"@ {
        lemma_name_403();
    } else if name == "NOT_FOUND"@ {
        lemma_name_404();
    } else if name == "METHOD_NOT_ALLOWED"@ {
        lemma_name_405();
    } else if name == "NOT_ACCEPTABLE"@ {
        lemma_name_406();
    } else if name == "PROXY_AUTHENTICATION_REQUIRED"@ {
        lemma_name_407();
    } else if name == "REQUEST_TIMEOUT"@ {
        lemma_name_408();
    } else if name == "CONFLICT"@ {
        lemma_name_409();
    } else if name == "GONE"@ {
        lemma_name_410();
    } else if name == "LENGTH_REQUIRED"@ {
        lemma_name_411();
    } else if name == "PRECONDITION_FAILED"@ {
        lemma_name_412();
    } else if name == "PAYLOAD_TOO_LARGE"@ {
        lemma_name_413();
    } else if name == "URI_TOO_LONG"@ {
        lemma_name_414();
    } else if name == "UNSUPPORTED_MEDIA_TYPE"@ {
        lemma_name_415();
    } else if name == "RANGE_NOT_SATISFIABLE"@ {
        lemma_name_416();
    } else if name == "EXPECTATION_FAILED"@ {
        lemma_name_417();
    } else if name == "IM_A_TEAPOT"@ {
        lemma_name_418();
    } else if name == "MISDIRECTED_REQUEST"@ {
        lemma_name_421();
    } else if name == "UNPROCESSABLE_ENTITY"@ {
        lemma_name_422();
    } else if name == "LOCKED"@ {
        lemma_name_423();
    } else if name == "FAILED_DEPENDENCY"@ {
        lemma_name_424();
    } else if name == "TOO_EARLY"@ {
        lemma_name_425();
    } else if name == "UPGRADE_REQUIRED"@ {
        lemma_name_426();
    } else if name == "PRECONDITION_REQUIRED"@ {
        lemma_name_428();
    } else if name == "TOO_MANY_REQUESTS"@ {
        lemma_name_429();
    } else if name == "REQUEST_HEADER_FIELDS_TOO_LARGE"@ {
        lemma_name_431();
    } else if name == "UNAVAILABLE_FOR_LEGAL_REASONS"@ {
        lemma_name_451();
    } else if name == "INTERNAL_SERVER_ERROR"@ {
        lemma_name_500();
    } else if name == "NOT_IMPLEMENTED"@ {
        lemma_name_501();
    } else if name == "BAD_GATEWAY"@ {
        lemma_name_502();
    } else if name == "SERVICE_UNAVAILABLE"@ {
        lemma_name_503();
    } else if name == "GATEWAY_TIMEOUT"@ {
        lemma_name_504();
    } else if name == "HTTP_VERSION_NOT_SUPPORTED"@ {
        lemma_name_505();
    } else if name == "VARIANT_ALSO_NEGOTIATES"@ {
        lemma_name_506();
    } else if name == "INSUFFICIENT_STORAGE"@ {
        lemma_name_507();
    } else if name == "LOOP_DETECTED"@ {
        lemma_name_508();
    } else if name == "NOT_EXTENDED"@ {
        lemma_name_510();
    } else if name == "NETWORK_AUTHENTICATION_REQUIRED"@ {
        lemma_name_511();
    }
}

/// Law: distinct registered status codes have distinct reason phrases.
pub proof fn law_reason_phrases_distinct(name1: Seq<char>, name2: Seq<char>)
    requires
        code_for_name(name1) is Some,
        code_for_name(name2) is Some,
        code_for_name(name1) != code_for_name(name2),
    ensures
        spec_reason_phrase(code_for_name(name1)->0) != spec_reason_phrase(code_for_name(name2)->0),
{
    law_reason_phrase_spells_name(name1);
    law_reason_phrase_spells_name(name2);
}

} // verus!
