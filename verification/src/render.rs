//! Rendering a response: the status line, then every header in the order
//! received, then the body — reformatted with indentation when the
//! content type's essence is `application/json`, verbatim otherwise. A body
//! declared JSON that cannot be reformatted is an error.

use vstd::prelude::*;
use vstd::string::{StrSliceExecFns, StringExecFns};
use crate::error::HttpError;
use crate::json::digit_of;
use crate::text::{push_chars, string_of};

verus! {

/// One response header, name and value, as received.
pub struct Header {
    pub name: String,
    pub value: String,
}

impl View for Header {
    type V = (Seq<char>, Seq<char>);

    open spec fn view(&self) -> (Seq<char>, Seq<char>) {
        (self.name@, self.value@)
    }
}

/// The views of a sequence of headers.
pub open spec fn header_views(hs: Seq<Header>) -> Seq<(Seq<char>, Seq<char>)> {
    hs.map_values(|h: Header| h@)
}

/// What the library reads of a response: protocol version, numeric status
/// code with its reason phrase, the headers in order, and the body text.
pub struct ResponseView {
    pub version: String,
    pub status: u16,
    pub reason: String,
    pub headers: Vec<Header>,
    pub body: String,
}

/// The decimal digits of `n`, most significant first, no leading zero.
pub open spec fn dec_seq(n: int) -> Seq<char>
    decreases n,
{
    if n < 10 {
        seq![digit_of(n)]
    } else {
        dec_seq(n / 10).push(digit_of(n % 10))
    }
}

/// The status line: version, status code, and the reason phrase if any.
pub open spec fn status_line(version: Seq<char>, status: int, reason: Seq<char>) -> Seq<char> {
    version + seq![' '] + dec_seq(status) + (if reason.len() == 0 {
        Seq::<char>::empty()
    } else {
        seq![' '] + reason
    })
}

/// One header line, `Name: Value`, with its line break.
pub open spec fn header_line(name: Seq<char>, value: Seq<char>) -> Seq<char> {
    name + seq![':', ' '] + value + seq!['\n']
}

/// All header lines, in the order received.
pub open spec fn headers_block(hs: Seq<(Seq<char>, Seq<char>)>) -> Seq<char>
    decreases hs.len(),
{
    if hs.len() == 0 {
        Seq::empty()
    } else {
        header_line(hs[0].0, hs[0].1) + headers_block(hs.drop_first())
    }
}

/// The character `c` with an ASCII capital folded to its small form.
pub open spec fn fold_code(c: char) -> int {
    if 65 <= c as u32 <= 90 {
        c as u32 + 32
    } else {
        c as u32 as int
    }
}

/// Case-insensitive equality of two character sequences (ASCII folding).
pub open spec fn eq_ci(a: Seq<char>, b: Seq<char>) -> bool {
    a.len() == b.len() && forall|i: int| 0 <= i < a.len() ==> fold_code(a[i]) == fold_code(b[i])
}

/// Whether a header name is `Content-Type`, in any casing.
pub open spec fn is_ct_name(n: Seq<char>) -> bool {
    eq_ci(n, ("content-type")@)
}

/// The value of the first `Content-Type` header, if any.
pub open spec fn find_content_type(hs: Seq<(Seq<char>, Seq<char>)>) -> Option<Seq<char>>
    decreases hs.len(),
{
    if hs.len() == 0 {
        None
    } else if is_ct_name(hs[0].0) {
        Some(hs[0].1)
    } else {
        find_content_type(hs.drop_first())
    }
}

/// Whether a content-type value declares a JSON body.
pub open spec fn declares_json(ct: Option<Seq<char>>) -> bool {
    ct matches Some(c) && mime_essence(c) == Some(("application/json")@)
}

/// The essence (type and subtype, parameters dropped) of a content-type
/// value, as the `mime` crate reads it; nothing when the value is no
/// well-formed media type. It depends on the value alone.
pub uninterp spec fn mime_essence(s: Seq<char>) -> Option<Seq<char>>;

/// Relies on `mime::Mime::from_str` and `Mime::essence_str`: parsing a
/// media type and taking the part before any `;`, both deterministic in the
/// input string.
#[verifier::external_body]
fn content_type_essence(ct: &str) -> (r: Option<String>)
    ensures
        r matches Some(e) ==> mime_essence(ct@) == Some(e@),
        r is None ==> mime_essence(ct@) is None,
{
    match ct.parse::<mime::Mime>() {
        Ok(m) => Some(m.essence_str().to_string()),
        Err(_) => None,
    }
}

/// The indented form of a JSON text, as `jsonxf` writes it; nothing when the
/// text cannot be reformatted. It depends on the text alone.
pub uninterp spec fn pretty_json(s: Seq<char>) -> Option<Seq<char>>;

/// Relies on `jsonxf::pretty_print`: a pure reformatting of its input with
/// two-space indents, failing on input it cannot transform.
#[verifier::external_body]
fn pretty_print_json(body: &str) -> (r: Option<String>)
    ensures
        r matches Some(p) ==> pretty_json(body@) == Some(p@),
        r is None ==> pretty_json(body@) is None,
{
    match jsonxf::pretty_print(body) {
        Ok(p) => Some(p),
        Err(_) => None,
    }
}

/// The body as it is printed: reformatted when declared JSON, verbatim
/// otherwise; nothing when it is declared JSON but cannot be reformatted.
pub open spec fn rendered_body(ct: Option<Seq<char>>, body: Seq<char>) -> Option<Seq<char>> {
    if declares_json(ct) {
        pretty_json(body)
    } else {
        Some(body)
    }
}

/// The whole rendered response: status line, blank line, header lines,
/// blank line, body, line break.
pub open spec fn response_text(
    version: Seq<char>,
    status: int,
    reason: Seq<char>,
    hs: Seq<(Seq<char>, Seq<char>)>,
    body: Seq<char>,
) -> Seq<char> {
    status_line(version, status, reason) + seq!['\n', '\n'] + headers_block(hs) + seq!['\n', '\n']
        + body + seq!['\n']
}

/// The decimal digit character of `n`.
fn dec_digit(n: u16) -> (r: char)
    requires
        n < 10,
    ensures
        r == digit_of(n as int),
{
    if n == 0 {
        '0'
    } else if n == 1 {
        '1'
    } else if n == 2 {
        '2'
    } else if n == 3 {
        '3'
    } else if n == 4 {
        '4'
    } else if n == 5 {
        '5'
    } else if n == 6 {
        '6'
    } else if n == 7 {
        '7'
    } else if n == 8 {
        '8'
    } else {
        '9'
    }
}

/// Writes the decimal digits of `n`.
fn push_dec_u16(out: &mut Vec<char>, n: u16)
    ensures
        final(out)@ == old(out)@ + dec_seq(n as int),
    decreases n,
{
    if n < 10 {
        out.push(dec_digit(n));
    } else {
        push_dec_u16(out, n / 10);
        out.push(dec_digit(n % 10));
        proof {
            assert(out@ =~= old(out)@ + dec_seq(n as int));
        }
    }
}

/// The decimal text of a status code.
pub fn decimal_u16(n: u16) -> (r: String)
    ensures
        r@ == dec_seq(n as int),
{
    let mut out: Vec<char> = Vec::new();
    push_dec_u16(&mut out, n);
    string_of(&out)
}

/// The folded comparison code of one character.
fn fold_code_of(c: char) -> (r: u32)
    ensures
        r as int == fold_code(c),
{
    let u = c as u32;
    if 65 <= u && u <= 90 {
        u + 32
    } else {
        u
    }
}

/// Case-insensitive equality of two strings (ASCII folding).
fn eq_ignore_case(a: &str, b: &str) -> (r: bool)
    ensures
        r == eq_ci(a@, b@),
{
    let ca = crate::text::chars_of(a);
    let cb = crate::text::chars_of(b);
    if ca.len() != cb.len() {
        return false;
    }
    let mut i: usize = 0;
    while i < ca.len()
        invariant
            ca@ == a@,
            cb@ == b@,
            a@.len() == b@.len(),
            i <= a@.len(),
            forall|j: int| 0 <= j < i ==> fold_code(a@[j]) == fold_code(b@[j]),
        decreases ca@.len() - i,
    {
        if fold_code_of(ca[i]) != fold_code_of(cb[i]) {
            return false;
        }
        i = i + 1;
    }
    true
}

/// Skipping headers that are not `Content-Type` does not change the search.
proof fn lemma_find_ct_skip(hs: Seq<(Seq<char>, Seq<char>)>, i: int)
    requires
        0 <= i <= hs.len(),
        forall|j: int| 0 <= j < i ==> !is_ct_name(hs[j].0),
    ensures
        find_content_type(hs) == find_content_type(hs.skip(i)),
    decreases i,
{
    assert(hs.skip(0) =~= hs);
    if i > 0 {
        lemma_find_ct_skip(hs, i - 1);
        let t = hs.skip(i - 1);
        assert(t[0] == hs[i - 1]);
        assert(t.drop_first() =~= hs.skip(i));
    }
}

impl ResponseView {
    /// The status line of this response.
    pub fn status_line(&self) -> (r: String)
        ensures
            r@ == status_line(self.version@, self.status as int, self.reason@),
    {
        let mut out: Vec<char> = Vec::new();
        push_chars(&mut out, self.version.as_str());
        out.push(' ');
        push_dec_u16(&mut out, self.status);
        if self.reason.as_str().unicode_len() != 0 {
            out.push(' ');
            push_chars(&mut out, self.reason.as_str());
        }
        proof {
            assert(out@ =~= status_line(self.version@, self.status as int, self.reason@));
        }
        string_of(&out)
    }

    /// The header lines of this response, in the order received.
    pub fn headers_text(&self) -> (r: String)
        ensures
            r@ == headers_block(header_views(self.headers@)),
    {
        let mut out: Vec<char> = Vec::new();
        let mut i: usize = 0;
        while i < self.headers.len()
            invariant
                i <= self.headers@.len(),
                out@ =~= headers_block(header_views(self.headers@).subrange(0, i as int)),
            decreases self.headers@.len() - i,
        {
            let ghost written = header_views(self.headers@).subrange(0, i as int);
            proof {
                assert(header_views(self.headers@).subrange(0, i + 1) =~= written.push(
                    header_views(self.headers@)[i as int],
                ));
                lemma_headers_push(written, header_views(self.headers@)[i as int]);
            }
            push_chars(&mut out, self.headers[i].name.as_str());
            out.push(':');
            out.push(' ');
            push_chars(&mut out, self.headers[i].value.as_str());
            out.push('\n');
            proof {
                assert(out@ =~= headers_block(header_views(self.headers@).subrange(0, i + 1)));
            }
            i = i + 1;
        }
        proof {
            assert(header_views(self.headers@).subrange(0, self.headers@.len() as int)
                =~= header_views(self.headers@));
        }
        string_of(&out)
    }

    /// The value of the first `Content-Type` header, compared without regard
    /// to the casing of the header name.
    pub fn content_type(&self) -> (r: Option<String>)
        ensures
            r matches Some(v) ==> find_content_type(header_views(self.headers@)) == Some(v@),
            r is None ==> find_content_type(header_views(self.headers@)) is None,
    {
        let ghost hs = header_views(self.headers@);
        let mut i: usize = 0;
        while i < self.headers.len()
            invariant
                hs == header_views(self.headers@),
                i <= self.headers@.len(),
                forall|j: int| 0 <= j < i ==> !is_ct_name(hs[j].0),
            decreases self.headers@.len() - i,
        {
            if eq_ignore_case(self.headers[i].name.as_str(), "content-type") {
                proof {
                    lemma_find_ct_skip(hs, i as int);
                    assert(hs.skip(i as int)[0] == hs[i as int]);
                }
                return Some(self.headers[i].value.clone());
            }
            i = i + 1;
        }
        proof {
            lemma_find_ct_skip(hs, hs.len() as int);
            assert(hs.skip(hs.len() as int) =~= Seq::<(Seq<char>, Seq<char>)>::empty());
        }
        None
    }

    /// Renders the whole response. It fails exactly when the body is
    /// declared JSON but cannot be reformatted; the error names the body.
    pub fn render(&self) -> (r: Result<String, HttpError>)
        ensures
            r matches Ok(o) ==> rendered_body(
                find_content_type(header_views(self.headers@)),
                self.body@,
            ) matches Some(b) && o@ == response_text(
                self.version@,
                self.status as int,
                self.reason@,
                header_views(self.headers@),
                b,
            ),
            r matches Err(e) ==> rendered_body(
                find_content_type(header_views(self.headers@)),
                self.body@,
            ) is None && (e matches HttpError::InvalidJson(t) && t@ == self.body@),
    {
        let body = match render_body(self.content_type().as_ref(), &self.body) {
            Ok(b) => b,
            Err(e) => {
                return Err(e);
            },
        };
        let mut out: Vec<char> = Vec::new();
        let status = self.status_line();
        push_chars(&mut out, status.as_str());
        out.push('\n');
        out.push('\n');
        let headers = self.headers_text();
        push_chars(&mut out, headers.as_str());
        out.push('\n');
        out.push('\n');
        push_chars(&mut out, body.as_str());
        out.push('\n');
        proof {
            assert(out@ =~= response_text(
                self.version@,
                self.status as int,
                self.reason@,
                header_views(self.headers@),
                body@,
            ));
        }
        Ok(string_of(&out))
    }
}

/// One more header line extends the block.
proof fn lemma_headers_push(hs: Seq<(Seq<char>, Seq<char>)>, h: (Seq<char>, Seq<char>))
    ensures
        headers_block(hs.push(h)) =~= headers_block(hs) + header_line(h.0, h.1),
    decreases hs.len(),
{
    if hs.len() == 0 {
        assert(hs.push(h)[0] == h);
        assert(hs.push(h).drop_first() =~= Seq::<(Seq<char>, Seq<char>)>::empty());
        assert(headers_block(hs.push(h)) == header_line(h.0, h.1) + headers_block(
            hs.push(h).drop_first(),
        ));
        assert(headers_block(Seq::<(Seq<char>, Seq<char>)>::empty()) == Seq::<char>::empty());
        assert(headers_block(hs.push(h)) =~= headers_block(hs) + header_line(h.0, h.1));
    } else {
        assert(hs.push(h)[0] == hs[0]);
        assert(hs.push(h).drop_first() =~= hs.drop_first().push(h));
        lemma_headers_push(hs.drop_first(), h);
        assert(headers_block(hs.push(h)) == header_line(hs[0].0, hs[0].1) + headers_block(
            hs.drop_first().push(h),
        ));
        assert(headers_block(hs.push(h)) =~= headers_block(hs) + header_line(h.0, h.1));
    }
}

/// The body as printed under the given content type: reformatted when the
/// declared essence is `application/json`, verbatim otherwise; declared
/// JSON that cannot be reformatted is an error naming the body.
pub fn render_body(content_type: Option<&String>, body: &String) -> (r: Result<String, HttpError>)
    ensures
        r matches Ok(o) ==> rendered_body(spec_ct(content_type), body@) == Some(o@),
        r matches Err(e) ==> rendered_body(spec_ct(content_type), body@) is None && (
        e matches HttpError::InvalidJson(t) && t@ == body@),
{
    let is_json = match content_type {
        Some(ct) => {
            match content_type_essence(ct.as_str()) {
                Some(e) => {
                    let expected = String::from_str("application/json");
                    e == expected
                },
                None => false,
            }
        },
        None => false,
    };
    if is_json {
        match pretty_print_json(body.as_str()) {
            Some(p) => Ok(p),
            None => Err(HttpError::InvalidJson(body.clone())),
        }
    } else {
        Ok(body.clone())
    }
}

/// The view of an optional content-type value.
pub open spec fn spec_ct(ct: Option<&String>) -> Option<Seq<char>> {
    match ct {
        Some(c) => Some(c@),
        None => None,
    }
}

} // verus!
