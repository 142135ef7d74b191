//! Trivial HTTP framing: the header/body boundary is the first bare `\n\n`
//! or `\r\n\r\n`, method recognition is a fixed 4-byte prefix match, and the
//! builder emits a canned 200-OK header with a computed decimal
//! content-length followed by the body verbatim.

use vstd::prelude::*;

use vstd::slice::slice_subrange;

use crate::util::decimal_digits;
use crate::util::get_digit_from_usize;
use crate::util::lemma_digits_small;
use crate::util::usize_to_bytes;
use crate::wire::write_bytes;
use crate::wire::write_u8;
use crate::{Error, PduResult};

verus! {

/// Position of the first `\n\n` at or after `i`, if any.
pub open spec fn find_nn(b: Seq<u8>, i: int) -> Option<int>
    decreases b.len() - i,
{
    if i < 0 || i + 2 > b.len() {
        None
    } else if b[i] == 10 && b[i + 1] == 10 {
        Some(i)
    } else {
        find_nn(b, i + 1)
    }
}

/// Position of the first `\r\n\r\n` at or after `i`, if any.
pub open spec fn find_crlfcrlf(b: Seq<u8>, i: int) -> Option<int>
    decreases b.len() - i,
{
    if i < 0 || i + 4 > b.len() {
        None
    } else if b[i] == 13 && b[i + 1] == 10 && b[i + 2] == 13 && b[i + 3] == 10 {
        Some(i)
    } else {
        find_crlfcrlf(b, i + 1)
    }
}

/// Where the body starts: after the first `\n\n` if one occurs anywhere,
/// otherwise after the first `\r\n\r\n`, otherwise nowhere.
pub open spec fn http_boundary(b: Seq<u8>) -> Option<int> {
    match find_nn(b, 0) {
        Some(i) => Some(i + 2),
        None => match find_crlfcrlf(b, 0) {
            Some(i) => Some(i + 4),
            None => None,
        },
    }
}

/// Everything before the boundary (inclusive of the separator); empty when
/// no boundary exists.
pub open spec fn http_header(b: Seq<u8>) -> Seq<u8> {
    match http_boundary(b) {
        Some(e) => b.take(e),
        None => Seq::empty(),
    }
}

/// Everything after the boundary; empty when no boundary exists.
pub open spec fn http_body(b: Seq<u8>) -> Seq<u8> {
    match http_boundary(b) {
        Some(e) => b.skip(e),
        None => Seq::empty(),
    }
}

/// The buffer starts with the 4-byte prefix `GET `.
pub open spec fn http_is_get(b: Seq<u8>) -> bool {
    b.len() >= 4 && b[0] == 0x47 && b[1] == 0x45 && b[2] == 0x54 && b[3] == 0x20
}

/// The buffer starts with the 4-byte prefix `POST`.
pub open spec fn http_is_post(b: Seq<u8>) -> bool {
    b.len() >= 4 && b[0] == 0x50 && b[1] == 0x4F && b[2] == 0x53 && b[3] == 0x54
}

proof fn lemma_find_nn_from(b: Seq<u8>, i: int, j: int)
    requires
        0 <= i <= j,
        forall|k: int| i <= k < j ==> !(k + 2 <= b.len() && b[k] == 10 && #[trigger] b[k + 1] == 10),
    ensures
        find_nn(b, i) == find_nn(b, j),
    decreases j - i,
{
    if i < j {
        if i + 2 > b.len() {
            assert(j + 2 > b.len());
        } else {
            assert(!(b[i] == 10 && b[i + 1] == 10));
            lemma_find_nn_from(b, i + 1, j);
        }
    }
}

proof fn lemma_find_crlfcrlf_from(b: Seq<u8>, i: int, j: int)
    requires
        0 <= i <= j,
        forall|k: int|
            i <= k < j ==> !(k + 4 <= b.len() && b[k] == 13 && #[trigger] b[k + 1] == 10 && b[k + 2]
                == 13 && b[k + 3] == 10),
    ensures
        find_crlfcrlf(b, i) == find_crlfcrlf(b, j),
    decreases j - i,
{
    if i < j {
        if i + 4 > b.len() {
            assert(j + 4 > b.len());
        } else {
            assert(!(b[i] == 13 && b[i + 1] == 10 && b[i + 2] == 13 && b[i + 3] == 10));
            lemma_find_crlfcrlf_from(b, i + 1, j);
        }
    }
}

/// First `\n\n` in the buffer, by a left-to-right scan.
fn scan_nn(s: &[u8]) -> (r: Option<usize>)
    ensures
        match r {
            Some(j) => find_nn(s@, 0) == Some(j as int) && j + 2 <= s@.len(),
            None => find_nn(s@, 0) is None,
        },
{
    let len = s.len();
    let mut i: usize = 0;
    while len - i > 1
        invariant
            len == s@.len(),
            i <= len,
            forall|k: int|
                0 <= k < i ==> !(k + 2 <= s@.len() && s@[k] == 10 && #[trigger] s@[k + 1] == 10),
        decreases len - i,
    {
        if s[i] == 10 && s[i + 1] == 10 {
            proof {
                lemma_find_nn_from(s@, 0, i as int);
            }
            return Some(i);
        }
        i = i + 1;
    }
    proof {
        lemma_find_nn_from(s@, 0, i as int);
    }
    None
}

/// First `\r\n\r\n` in the buffer, by a left-to-right scan.
fn scan_crlfcrlf(s: &[u8]) -> (r: Option<usize>)
    ensures
        match r {
            Some(j) => find_crlfcrlf(s@, 0) == Some(j as int) && j + 4 <= s@.len(),
            None => find_crlfcrlf(s@, 0) is None,
        },
{
    let len = s.len();
    let mut i: usize = 0;
    while len - i > 3
        invariant
            len == s@.len(),
            i <= len,
            forall|k: int|
                0 <= k < i ==> !(k + 4 <= s@.len() && s@[k] == 13 && #[trigger] s@[k + 1] == 10
                    && s@[k + 2] == 13 && s@[k + 3] == 10),
        decreases len - i,
    {
        if s[i] == 13 && s[i + 1] == 10 && s[i + 2] == 13 && s[i + 3] == 10 {
            proof {
                lemma_find_crlfcrlf_from(s@, 0, i as int);
            }
            return Some(i);
        }
        i = i + 1;
    }
    proof {
        lemma_find_crlfcrlf_from(s@, 0, i as int);
    }
    None
}

/// The fixed status and content-type lines of every response, up to and
/// including `content-length: ` — the ASCII bytes of
/// `HTTP/1.1 200 OK\r\ncontent-type: text/html\r\ncontent-length: `.
pub open spec fn http_header_prefix() -> Seq<u8> {
    seq![
        0x48u8, 0x54, 0x54, 0x50, 0x2F, 0x31, 0x2E, 0x31, 0x20, 0x32, 0x30, 0x30, 0x20, 0x4F,
        0x4B, 0x0D, 0x0A, 0x63, 0x6F, 0x6E, 0x74, 0x65, 0x6E, 0x74, 0x2D, 0x74, 0x79, 0x70,
        0x65, 0x3A, 0x20, 0x74, 0x65, 0x78, 0x74, 0x2F, 0x68, 0x74, 0x6D, 0x6C, 0x0D, 0x0A,
        0x63, 0x6F, 0x6E, 0x74, 0x65, 0x6E, 0x74, 0x2D, 0x6C, 0x65, 0x6E, 0x67, 0x74, 0x68,
        0x3A, 0x20,
    ]
}

/// The four ASCII digits of `n` (at most 9999), most significant first.
pub open spec fn http_digits4(n: int) -> Seq<u8> {
    seq![
        (48 + n / 1000 % 10) as u8,
        (48 + n / 100 % 10) as u8,
        (48 + n / 10 % 10) as u8,
        (48 + n % 10) as u8,
    ]
}

/// The decimal digits actually printed for a content length: the trailing
/// significant digits of the four-digit form (none for zero).
pub open spec fn http_digit_bytes(n: int) -> Seq<u8> {
    http_digits4(n).skip(4 - decimal_digits(n as nat))
}

/// The whole response for a given body: canned header, decimal content
/// length, blank line, body verbatim.
pub open spec fn http_response_bytes(body: Seq<u8>) -> Seq<u8> {
    http_header_prefix() + http_digit_bytes(body.len() as int) + seq![13u8, 10u8, 13u8, 10u8]
        + body
}

/// Builder for one outbound HTTP response.
pub struct HttpPdu {
    buffer: Vec<u8>,
    header_size: usize,
    inner_size: usize,
}

impl HttpPdu {
    /// The full fixed-capacity scratch buffer.
    pub closed spec fn bytes(&self) -> Seq<u8> {
        self.buffer@
    }

    /// Length of the header written so far.
    pub closed spec fn header_len(&self) -> int {
        self.header_size as int
    }

    /// Length of the body currently attached.
    pub closed spec fn payload_len(&self) -> int {
        self.inner_size as int
    }

    pub open spec fn wf(&self) -> bool {
        &&& self.bytes().len() == 1460
        &&& 0 <= self.header_len() <= 66
        &&& 0 <= self.payload_len()
        &&& self.header_len() + self.payload_len() <= 1460
    }

    /// The response `as_bytes` returns: header plus body.
    pub open spec fn out_bytes(&self) -> Seq<u8> {
        self.bytes().take(self.header_len() + self.payload_len())
    }

    pub fn new() -> (r: HttpPdu)
        ensures
            r.wf(),
            r.header_len() == 0,
            r.payload_len() == 0,
    {
        HttpPdu { buffer: vec![0u8; 1460], header_size: 0, inner_size: 0 }
    }

    /// The finished response: exactly the header plus the attached body,
    /// never more than the layer's 1460-byte budget.
    pub fn as_bytes(&self) -> (r: &[u8])
        requires
            self.wf(),
        ensures
            r@ == self.out_bytes(),
            r@.len() == self.header_len() + self.payload_len(),
            r@.len() <= 1460,
    {
        slice_subrange(self.buffer.as_slice(), 0, self.header_size + self.inner_size)
    }

    /// Writes the canned 200-OK header with the body's decimal length, then
    /// the body verbatim; fails with `Oversized` (leaving the response
    /// unchanged) when header plus body exceed the 1460-byte budget.
    pub fn inner(&mut self, value: &[u8]) -> (r: PduResult<()>)
        requires
            old(self).wf(),
        ensures
            final(self).wf(),
            62 + decimal_digits(value@.len()) + value@.len() > 1460 ==> r == PduResult::<()>::Err(
                Error::Oversized,
            ) && *final(self) == *old(self),
            62 + decimal_digits(value@.len()) + value@.len() <= 1460 ==> {
                &&& r == PduResult::<()>::Ok(())
                &&& final(self).header_len() == 62 + decimal_digits(value@.len())
                &&& final(self).payload_len() == value@.len()
                &&& final(self).out_bytes() == http_response_bytes(value@)
            },
    {
        let len = value.len();
        if len > 1398 {
            proof {
                lemma_digits_nonneg(value@.len() as nat);
            }
            return Err(Error::Oversized);
        }
        let d = get_digit_from_usize(len);
        let header_len = 62 + d as usize;
        if len > 1460 - header_len {
            return Err(Error::Oversized);
        }
        let prefix: [u8; 58] = [
            0x48, 0x54, 0x54, 0x50, 0x2F, 0x31, 0x2E, 0x31, 0x20, 0x32, 0x30, 0x30, 0x20, 0x4F,
            0x4B, 0x0D, 0x0A, 0x63, 0x6F, 0x6E, 0x74, 0x65, 0x6E, 0x74, 0x2D, 0x74, 0x79, 0x70,
            0x65, 0x3A, 0x20, 0x74, 0x65, 0x78, 0x74, 0x2F, 0x68, 0x74, 0x6D, 0x6C, 0x0D, 0x0A,
            0x63, 0x6F, 0x6E, 0x74, 0x65, 0x6E, 0x74, 0x2D, 0x6C, 0x65, 0x6E, 0x67, 0x74, 0x68,
            0x3A, 0x20,
        ];
        write_bytes(&mut self.buffer, 0, prefix.as_slice());
        proof {
            assert(prefix@ =~= http_header_prefix());
        }
        let tmp = usize_to_bytes(len);
        let digits: &[u8] = slice_subrange(tmp.as_slice(), 4 - d as usize, 4);
        proof {
            assert(tmp@ =~= http_digits4(len as int));
            assert(digits@ =~= http_digit_bytes(len as int));
        }
        write_bytes(&mut self.buffer, 58, digits);
        let after_digits = 58 + d as usize;
        write_u8(&mut self.buffer, after_digits, 0x0D);
        write_u8(&mut self.buffer, after_digits + 1, 0x0A);
        write_u8(&mut self.buffer, after_digits + 2, 0x0D);
        write_u8(&mut self.buffer, after_digits + 3, 0x0A);
        self.header_size = header_len;
        self.inner_size = len;
        write_bytes(&mut self.buffer, header_len, value);
        proof {
            assert(final(self).out_bytes() =~= http_response_bytes(value@));
        }
        Ok(())
    }
}

proof fn lemma_digits_nonneg(v: nat)
    ensures
        decimal_digits(v) >= 0,
{
}

/// Body of a parsed request, raw bytes after the header boundary.
#[derive(Debug, Clone, Copy)]
pub enum Http<'a> {
    Raw(&'a [u8]),
}

/// Non-validating view over a received HTTP request.
#[derive(Debug, Clone, Copy)]
pub struct HttpParser<'a> {
    buffer: &'a [u8],
}

impl<'a> HttpParser<'a> {
    /// The underlying received bytes.
    pub closed spec fn bytes(&self) -> Seq<u8> {
        self.buffer@
    }

    /// Accepts any buffer: the framer is best-effort by design.
    pub fn parse(buffer: &'a [u8]) -> (r: PduResult<HttpParser<'a>>)
        ensures
            match r {
                Ok(p) => p.bytes() == buffer@,
                Err(_) => false,
            },
    {
        Ok(HttpParser { buffer })
    }

    /// The body after the first header/body boundary; empty when the buffer
    /// holds no boundary.
    pub fn inner(&self) -> (r: PduResult<Http<'a>>)
        ensures
            match r {
                Ok(i) => match i {
                    Http::Raw(s) => s@ == http_body(self.bytes()),
                },
                Err(_) => false,
            },
    {
        self.clone().into_inner()
    }

    /// The body after the first header/body boundary; empty when the buffer
    /// holds no boundary.
    pub fn into_inner(self) -> (r: PduResult<Http<'a>>)
        ensures
            match r {
                Ok(i) => match i {
                    Http::Raw(s) => s@ == http_body(self.bytes()),
                },
                Err(_) => false,
            },
    {
        let blen = self.buffer.len();
        match scan_nn(self.buffer) {
            Some(body_start) => {
                let rest = slice_subrange(self.buffer, body_start + 2, blen);
                proof {
                    assert(rest@ =~= http_body(self.bytes()));
                }
                Ok(Http::Raw(rest))
            },
            None => match scan_crlfcrlf(self.buffer) {
                Some(body_start) => {
                    let rest = slice_subrange(self.buffer, body_start + 4, blen);
                    proof {
                        assert(rest@ =~= http_body(self.bytes()));
                    }
                    Ok(Http::Raw(rest))
                },
                None => {
                    let rest = slice_subrange(self.buffer, 0, 0);
                    proof {
                        assert(rest@ =~= http_body(self.bytes()));
                    }
                    Ok(Http::Raw(rest))
                },
            },
        }
    }

    /// The header up to and including the first boundary; empty when the
    /// buffer holds no boundary.
    pub fn header(&self) -> (r: &'a [u8])
        ensures
            r@ == http_header(self.bytes()),
    {
        let blen = self.buffer.len();
        match scan_nn(self.buffer) {
            Some(body_start) => slice_subrange(self.buffer, 0, body_start + 2),
            None => match scan_crlfcrlf(self.buffer) {
                Some(body_start) => slice_subrange(self.buffer, 0, body_start + 4),
                None => {
                    let r = slice_subrange(self.buffer, 0, 0);
                    proof {
                        assert(r@ =~= http_header(self.bytes()));
                    }
                    r
                },
            },
        }
    }

    /// The request method, recognized by a fixed 4-byte prefix match
    /// against `GET ` or `POST`; anything else — a short buffer included —
    /// yields no method.
    pub fn method(&self) -> (r: Option<&'static str>)
        ensures
            http_is_get(self.bytes()) ==> match r {
                Some(m) => m@ == "GET"@,
                None => false,
            },
            http_is_post(self.bytes()) ==> match r {
                Some(m) => m@ == "POST"@,
                None => false,
            },
            !http_is_get(self.bytes()) && !http_is_post(self.bytes()) ==> r is None,
    {
        let b = self.buffer;
        if b.len() < 4 {
            return None;
        }
        if b[0] == 0x47 && b[1] == 0x45 && b[2] == 0x54 && b[3] == 0x20 {
            Some("GET")
        } else if b[0] == 0x50 && b[1] == 0x4F && b[2] == 0x53 && b[3] == 0x54 {
            Some("POST")
        } else {
            None
        }
    }

    /// Whether the request method is `GET`, as the serving logic tests it.
    pub fn method_is_get(&self) -> (r: bool)
        ensures
            r == http_is_get(self.bytes()),
    {
        let b = self.buffer;
        b.len() >= 4 && b[0] == 0x47 && b[1] == 0x45 && b[2] == 0x54 && b[3] == 0x20
    }
}


/// The bytes of the fixed response prefix that matter to boundary search:
/// its newlines sit at offsets 16 and 41 and its carriage returns at 15 and
/// 40, each followed by ordinary text.
proof fn lemma_prefix_bytes()
    ensures
        http_header_prefix().len() == 58,
        forall|k: int|
            0 <= k < 58 ==> ((#[trigger] http_header_prefix()[k] == 10) <==> (k == 16 || k == 41)),
        forall|k: int|
            0 <= k < 58 ==> ((#[trigger] http_header_prefix()[k] == 13) <==> (k == 15 || k == 40)),
{
}

/// Every digit byte the content length prints is ASCII `0` through `9`.
proof fn lemma_digit_bytes_range(n: int)
    requires
        0 <= n <= 9999,
    ensures
        http_digit_bytes(n).len() == decimal_digits(n as nat),
        forall|i: int|
            0 <= i < http_digit_bytes(n).len() ==> 48 <= #[trigger] http_digit_bytes(n)[i] <= 57,
{
    lemma_digits_small(n as nat);
}

/// Round trip of the response framing: as long as the body itself contains
/// no header/body separator — no `\n\n`, no `\r\n\r\n`, and no leading
/// `\n` that would complete the blank line — the parser finds the boundary
/// exactly where the builder wrote it, and hands back the body verbatim.
pub proof fn lemma_http_round_trip(body: Seq<u8>)
    requires
        body.len() <= 9999,
        forall|k: int| 0 <= k < body.len() - 1 ==> !(#[trigger] body[k] == 10 && body[k + 1] == 10),
        forall|k: int|
            0 <= k < body.len() - 3 ==> !(#[trigger] body[k] == 13 && body[k + 1] == 10 && body[k
                + 2] == 13 && body[k + 3] == 10),
        body.len() > 0 ==> body[0] != 10,
    ensures
        ({
            let resp = http_response_bytes(body);
            let hdr = 62 + decimal_digits(body.len() as nat);
            &&& http_boundary(resp) == Some(hdr as int)
            &&& http_header(resp) == resp.take(hdr as int)
            &&& http_body(resp) == body
        }),
{
    let pre = http_header_prefix();
    let n = body.len() as int;
    let dig = http_digit_bytes(n);
    let d = decimal_digits(body.len() as nat) as int;
    let crlf = seq![13u8, 10u8, 13u8, 10u8];
    let resp = http_response_bytes(body);
    let hdr = 62 + d;
    lemma_prefix_bytes();
    lemma_digit_bytes_range(n);
    assert(resp.len() == hdr + n);
    assert(forall|k: int| 0 <= k < 58 ==> #[trigger] resp[k] == pre[k]);
    assert(forall|k: int| 58 <= k < 58 + d ==> #[trigger] resp[k] == dig[k - 58]);
    assert(forall|k: int| 58 + d <= k < hdr ==> #[trigger] resp[k] == crlf[k - 58 - d]);
    assert(forall|k: int| hdr <= k < hdr + n ==> #[trigger] resp[k] == body[k - hdr]);
    assert(resp[58 + d] == 13 && resp[58 + d + 1] == 10 && resp[58 + d + 2] == 13 && resp[58 + d
        + 3] == 10);

    // No `\n\n` occurs anywhere in the response.
    assert forall|k: int| 0 <= k < resp.len() - 1 implies !(#[trigger] resp[k] == 10 && resp[k
        + 1] == 10) by {
        if resp[k] == 10 && resp[k + 1] == 10 {
            if k < 58 {
                assert(k == 16 || k == 41);
                assert(resp[k + 1] == pre[k + 1]);
                assert(false);
            } else if k < 58 + d {
                assert(false);
            } else if k < hdr {
                if k == 58 + d || k == 58 + d + 2 {
                    assert(false);
                } else if k == 58 + d + 1 {
                    assert(resp[k + 1] == 13);
                    assert(false);
                } else {
                    // k == hdr - 1: the next byte opens the body
                    assert(resp[k + 1] == body[0]);
                    assert(false);
                }
            } else {
                assert(resp[k] == body[k - hdr] && resp[k + 1] == body[k + 1 - hdr]);
                assert(false);
            }
        }
    }
    lemma_find_nn_from(resp, 0, resp.len() as int);
    assert(find_nn(resp, 0) is None);

    // No `\r\n\r\n` occurs before the one the builder wrote.
    assert forall|k: int| 0 <= k < 58 + d implies !(#[trigger] resp[k] == 13 && resp[k + 1] == 10
        && resp[k + 2] == 13 && resp[k + 3] == 10) by {
        if resp[k] == 13 && resp[k + 1] == 10 && resp[k + 2] == 13 && resp[k + 3] == 10 {
            if k < 58 {
                assert(k == 15 || k == 40);
                if k + 2 < 58 {
                    assert(resp[k + 2] == pre[k + 2]);
                    assert(false);
                } else {
                    assert(false);
                }
            } else {
                assert(resp[k] == dig[k - 58]);
                assert(false);
            }
        }
    }
    lemma_find_crlfcrlf_from(resp, 0, 58 + d);
    assert(find_crlfcrlf(resp, 58 + d) == Some(58 + d));
    assert(http_boundary(resp) == Some(hdr));
    assert(http_body(resp) =~= body);
}

} // verus!
