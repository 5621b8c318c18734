use vstd::prelude::*;
use vstd::utf8::*;
use crate::json::{Json, JsonV, json_text, json_text_of};
use crate::text::{chars_of, string_of, bytes_of, push_chars, push_str, lower_seq, ascii_lowercase, chars_equal};

verus! {

// ───────────────────────── decimal numerals ─────────────────────────

pub open spec fn digit_char(d: nat) -> char {
    (48 + d) as char
}

/// Decimal digits of `n` (std's `Display` for unsigned integers).
pub open spec fn decimal(n: nat) -> Seq<char>
    decreases n,
{
    if n < 10 {
        seq![digit_char(n)]
    } else {
        decimal(n / 10).push(digit_char(n % 10))
    }
}

pub fn decimal_chars(n: u64) -> (r: Vec<char>)
    ensures
        r@ == decimal(n as nat),
    decreases n,
{
    if n < 10 {
        let mut v: Vec<char> = Vec::new();
        v.push(((48 + n) as u8) as char);
        v
    } else {
        let mut v = decimal_chars(n / 10);
        v.push(((48 + n % 10) as u8) as char);
        v
    }
}

/// `n.to_string()`.
pub fn decimal_string(n: u64) -> (r: String)
    ensures
        r@ == decimal(n as nat),
{
    let v = decimal_chars(n);
    string_of(v.as_slice())
}

// ───────────────────────── requests and responses ─────────────────────────

/// A request already read by the proxy: head parsed, body complete.
pub struct HttpReq<'a> {
    pub method: &'a str,
    pub path: &'a str,
    pub headers: &'a [(String, String)],
    pub body: &'a [u8],
}

pub struct HttpResp {
    pub status: u16,
    pub content_type: &'static str,
    pub extra_headers: Vec<(String, String)>,
    pub body: Vec<u8>,
}

pub open spec fn header_views(h: Seq<(String, String)>) -> Seq<(Seq<char>, Seq<char>)> {
    h.map_values(|p: (String, String)| (p.0@, p.1@))
}

/// The reason phrase written for a status code.
pub open spec fn reason_phrase(status: u16) -> Seq<char> {
    if status == 200 {
        "OK"@
    } else if status == 201 {
        "Created"@
    } else if status == 302 {
        "Found"@
    } else if status == 400 {
        "Bad Request"@
    } else if status == 401 {
        "Unauthorized"@
    } else if status == 403 {
        "Forbidden"@
    } else if status == 404 {
        "Not Found"@
    } else if status == 405 {
        "Method Not Allowed"@
    } else {
        "OK"@
    }
}

pub open spec fn header_lines(h: Seq<(Seq<char>, Seq<char>)>) -> Seq<char>
    decreases h.len(),
{
    if h.len() == 0 {
        seq![]
    } else {
        header_lines(h.drop_last()) + h.last().0 + ": "@ + h.last().1 + "\r\n"@
    }
}

/// The status line and header block of a response, up to the blank line.
pub open spec fn response_head(
    status: u16,
    content_type: Seq<char>,
    body_len: nat,
    extra: Seq<(Seq<char>, Seq<char>)>,
) -> Seq<char> {
    "HTTP/1.1 "@ + decimal(status as nat) + " "@ + reason_phrase(status) + "\r\nContent-Type: "@
        + content_type + "\r\nContent-Length: "@ + decimal(body_len)
        + "\r\nConnection: close\r\nAccess-Control-Allow-Origin: *\r\nAccess-Control-Allow-Headers: Authorization, Content-Type, Mcp-Protocol-Version\r\nAccess-Control-Allow-Methods: GET, POST, OPTIONS\r\n"@
        + header_lines(extra) + "\r\n"@
}

/// The bytes that go on the wire for a response.
pub open spec fn response_bytes(r: HttpResp) -> Seq<u8> {
    encode_utf8(response_head(r.status, r.content_type@, r.body@.len(), header_views(r.extra_headers@)))
        + r.body@
}

fn reason_of(status: u16) -> (r: &'static str)
    ensures
        r@ == reason_phrase(status),
{
    if status == 200 {
        "OK"
    } else if status == 201 {
        "Created"
    } else if status == 302 {
        "Found"
    } else if status == 400 {
        "Bad Request"
    } else if status == 401 {
        "Unauthorized"
    } else if status == 403 {
        "Forbidden"
    } else if status == 404 {
        "Not Found"
    } else if status == 405 {
        "Method Not Allowed"
    } else {
        "OK"
    }
}

impl HttpResp {
    /// The response as bytes: status line, fixed headers, extra headers, blank
    /// line, body.
    pub fn serialize(&self) -> (r: Vec<u8>)
        ensures
            r@ == response_bytes(*self),
    {
        let mut out: Vec<char> = Vec::new();
        push_str(&mut out, "HTTP/1.1 ");
        let st = decimal_chars(self.status as u64);
        push_chars(&mut out, st.as_slice());
        push_str(&mut out, " ");
        push_str(&mut out, reason_of(self.status));
        push_str(&mut out, "\r\nContent-Type: ");
        push_str(&mut out, self.content_type);
        push_str(&mut out, "\r\nContent-Length: ");
        let n = decimal_chars(self.body.len() as u64);
        push_chars(&mut out, n.as_slice());
        push_str(
            &mut out,
            "\r\nConnection: close\r\nAccess-Control-Allow-Origin: *\r\nAccess-Control-Allow-Headers: Authorization, Content-Type, Mcp-Protocol-Version\r\nAccess-Control-Allow-Methods: GET, POST, OPTIONS\r\n",
        );
        let ghost prefix = out@;
        let ghost hv = header_views(self.extra_headers@);
        let mut i: usize = 0;
        while i < self.extra_headers.len()
            invariant
                i <= self.extra_headers@.len(),
                hv == header_views(self.extra_headers@),
                out@ == prefix + header_lines(hv.take(i as int)),
            decreases self.extra_headers@.len() - i,
        {
            assert(hv.take(i + 1).drop_last() =~= hv.take(i as int));
            push_str(&mut out, self.extra_headers[i].0.as_str());
            push_str(&mut out, ": ");
            push_str(&mut out, self.extra_headers[i].1.as_str());
            push_str(&mut out, "\r\n");
            i = i + 1;
            assert(out@ =~= prefix + header_lines(hv.take(i as int)));
        }
        assert(hv.take(self.extra_headers@.len() as int) =~= hv);
        push_str(&mut out, "\r\n");
        assert(out@ =~= response_head(
            self.status,
            self.content_type@,
            self.body@.len(),
            header_views(self.extra_headers@),
        ));
        let head = string_of(out.as_slice());
        let mut bytes = bytes_of(head.as_str());
        let mut j: usize = 0;
        let ghost hb = bytes@;
        while j < self.body.len()
            invariant
                j <= self.body@.len(),
                bytes@ == hb + self.body@.take(j as int),
            decreases self.body@.len() - j,
        {
            bytes.push(self.body[j]);
            j = j + 1;
            assert(bytes@ =~= hb + self.body@.take(j as int));
        }
        assert(self.body@.take(self.body@.len() as int) =~= self.body@);
        bytes
    }
}

/// `("Cache-Control", "no-store")`, sent with every OAuth response.
pub open spec fn no_store() -> (Seq<char>, Seq<char>) {
    ("Cache-Control"@, "no-store"@)
}

pub fn no_store_header() -> (r: (String, String))
    ensures
        (r.0@, r.1@) == no_store(),
{
    ("Cache-Control".to_owned(), "no-store".to_owned())
}

/// A JSON response with `Cache-Control: no-store`.
pub open spec fn is_json_resp(r: HttpResp, status: u16, doc: JsonV) -> bool {
    &&& r.status == status
    &&& r.content_type@ == "application/json"@
    &&& header_views(r.extra_headers@) == seq![no_store()]
    &&& r.body@ == encode_utf8(json_text_of(doc))
}

/// An HTML response with `Cache-Control: no-store`.
pub open spec fn is_html_resp(r: HttpResp, status: u16, page: Seq<char>) -> bool {
    &&& r.status == status
    &&& r.content_type@ == "text/html; charset=utf-8"@
    &&& header_views(r.extra_headers@) == seq![no_store()]
    &&& r.body@ == encode_utf8(page)
}

/// A redirect to `location`.
pub open spec fn is_redirect_resp(r: HttpResp, location: Seq<char>) -> bool {
    &&& r.status == 302
    &&& r.content_type@ == "text/plain"@
    &&& header_views(r.extra_headers@) == seq![("Location"@, location), no_store()]
    &&& r.body@.len() == 0
}

pub fn json_resp(status: u16, doc: &Json) -> (r: HttpResp)
    ensures
        is_json_resp(r, status, doc@),
{
    let text = json_text(doc);
    let body = bytes_of(text.as_str());
    let mut h: Vec<(String, String)> = Vec::new();
    h.push(no_store_header());
    assert(header_views(h@) =~= seq![no_store()]);
    HttpResp { status, content_type: "application/json", extra_headers: h, body }
}

pub fn html_resp(status: u16, page: String) -> (r: HttpResp)
    ensures
        is_html_resp(r, status, page@),
{
    let body = bytes_of(page.as_str());
    let mut h: Vec<(String, String)> = Vec::new();
    h.push(no_store_header());
    assert(header_views(h@) =~= seq![no_store()]);
    HttpResp { status, content_type: "text/html; charset=utf-8", extra_headers: h, body }
}

pub fn redirect_resp(location: String) -> (r: HttpResp)
    ensures
        is_redirect_resp(r, location@),
{
    let mut h: Vec<(String, String)> = Vec::new();
    h.push(("Location".to_owned(), location));
    h.push(no_store_header());
    assert(header_views(h@) =~= seq![("Location"@, location@), no_store()]);
    HttpResp { status: 302, content_type: "text/plain", extra_headers: h, body: Vec::new() }
}

// ───────────────────────── header lookup ─────────────────────────

/// Do two names match, ignoring ASCII case (std's `eq_ignore_ascii_case`)?
pub open spec fn eq_ignore_case(a: Seq<char>, b: Seq<char>) -> bool {
    lower_seq(a) == lower_seq(b)
}

pub fn str_eq_ignore_case(a: &str, b: &str) -> (r: bool)
    ensures
        r == eq_ignore_case(a@, b@),
{
    let ca = chars_of(a);
    let cb = chars_of(b);
    let la = ascii_lowercase(ca.as_slice());
    let lb = ascii_lowercase(cb.as_slice());
    chars_equal(la.as_slice(), lb.as_slice())
}

/// Index of the first header whose name matches `name` ignoring ASCII case.
pub open spec fn header_index(h: Seq<(Seq<char>, Seq<char>)>, name: Seq<char>) -> Option<int> {
    if exists|i: int| 0 <= i < h.len() && eq_ignore_case((#[trigger] h[i]).0, name) {
        Some(choose|i: int| 0 <= i < h.len() && eq_ignore_case(h[i].0, name) && forall|j: int| 0 <= j < i ==> !eq_ignore_case(h[j].0, name))
    } else {
        None
    }
}

/// The value of the first header called `name` (any ASCII case).
pub fn header<'a>(headers: &'a [(String, String)], name: &str) -> (r: Option<&'a str>)
    ensures
        match r {
            Some(v) => header_index(header_views(headers@), name@) matches Some(i) && v@ == headers@[i].1@,
            None => header_index(header_views(headers@), name@) is None,
        },
{
    let ghost hv = header_views(headers@);
    let mut i: usize = 0;
    while i < headers.len()
        invariant
            i <= headers@.len(),
            hv == header_views(headers@),
            forall|j: int| 0 <= j < i ==> !eq_ignore_case(hv[j].0, name@),
        decreases headers@.len() - i,
    {
        if str_eq_ignore_case(headers[i].0.as_str(), name) {
            proof {
                let c = choose|c: int| 0 <= c < hv.len() && eq_ignore_case(hv[c].0, name@) && forall|j: int| 0 <= j < c ==> !eq_ignore_case(hv[j].0, name@);
                assert(0 <= i < hv.len() && eq_ignore_case((#[trigger] hv[i as int]).0, name@));
                assert(0 <= c < hv.len() && eq_ignore_case(hv[c].0, name@) && forall|j: int| 0 <= j < c ==> !eq_ignore_case(hv[j].0, name@));
                if i < c {
                    assert(!eq_ignore_case(hv[i as int].0, name@));
                }
                assert(c == i);
            }
            return Some(headers[i].1.as_str());
        }
        i = i + 1;
    }
    None
}

} // verus!
