//! The framing codec.
//!
//! A message on the wire is one or more header lines, each ended by a line
//! feed, then a blank line, then exactly `Content-Length` bytes of body.
//! Header lines without a colon are ignored; keys are compared after
//! trimming and ASCII lower-casing, values after trimming; of repeated
//! `Content-Length` headers the last one counts. The encoder writes the
//! single required header followed by `\r\n\r\n` and the body, contiguously.

use vstd::prelude::*;

use crate::digits::{dec_digits, is_digit, read_digits};
use crate::errors::AtsError;
use crate::keys;

verus! {

/// The framed form of `body`: `Content-Length: <n>\r\n\r\n<body>`.
pub open spec fn frame(body: Seq<u8>) -> Seq<u8> {
    keys::content_length_prefix() + dec_digits(body.len()) + seq![13u8, 10u8, 13u8, 10u8] + body
}

/// Frames a message body for the wire.
pub fn frame_message(body: &Vec<u8>) -> (out: Vec<u8>)
    ensures
        out@ == frame(body@),
{
    let mut out = keys::content_length_prefix_vec();
    let mut digits = crate::digits::render_u64(body.len() as u64);
    out.append(&mut digits);
    out.push(13);
    out.push(10);
    out.push(13);
    out.push(10);
    let mut i: usize = 0;
    let ghost head = out@;
    while i < body.len()
        invariant
            0 <= i <= body@.len(),
            out@ == head + body@.take(i as int),
        decreases body@.len() - i,
    {
        out.push(body[i]);
        assert(out@ =~= head + body@.take(i as int + 1));
        i = i + 1;
    }
    assert(body@.take(body@.len() as int) =~= body@);
    assert(out@ =~= frame(body@));
    out
}

/// True when `b` is blank space for header purposes: space, tab, carriage
/// return or line feed.
pub open spec fn is_ws(b: u8) -> bool {
    b == 32 || b == 9 || b == 13 || b == 10
}

/// The ASCII lower-case form of `b`.
pub open spec fn lower(b: u8) -> u8 {
    if 65 <= b <= 90 {
        (b + 32) as u8
    } else {
        b
    }
}

/// The first position at or after `i` holding `b`, if any.
pub open spec fn find_byte_spec(s: Seq<u8>, i: int, b: u8) -> Option<int>
    decreases s.len() - i,
{
    if i < 0 || i >= s.len() {
        None
    } else if s[i] == b {
        Some(i)
    } else {
        find_byte_spec(s, i + 1, b)
    }
}

/// The first position in `[i, end)` holding a non-blank byte, or `end`.
pub open spec fn skip_ws_spec(s: Seq<u8>, i: int, end: int) -> int
    decreases end - i,
{
    if i < 0 || i >= end || i >= s.len() {
        i
    } else if is_ws(s[i]) {
        skip_ws_spec(s, i + 1, end)
    } else {
        i
    }
}

/// The end of `[i, end)` after dropping trailing blank bytes.
pub open spec fn trim_end_spec(s: Seq<u8>, i: int, end: int) -> int
    decreases end - i,
{
    if end <= i || end < 1 || end > s.len() {
        end
    } else if is_ws(s[end - 1]) {
        trim_end_spec(s, i, end - 1)
    } else {
        end
    }
}

/// True when the bytes of `[a, b)`, lower-cased, are exactly `key`.
pub open spec fn range_lower_is(s: Seq<u8>, a: int, b: int, key: Seq<u8>) -> bool {
    &&& 0 <= a <= b <= s.len()
    &&& b - a == key.len()
    &&& forall|k: int| 0 <= k < key.len() ==> lower(s[a + k]) == key[k]
}

/// What scanning the header block of `s` from position `i` yields:
/// more bytes are needed, or the headers are complete, with the trimmed
/// value range of the last `content-length` header seen, if any, and the
/// position where the body starts.
pub enum HeadersSpec {
    Incomplete,
    Done { content_length: Option<(int, int)>, body_start: int },
}

/// Scans header lines from position `i`. `cl` carries the value range of
/// the last `content-length` header already seen.
pub open spec fn scan_headers(s: Seq<u8>, i: int, cl: Option<(int, int)>) -> HeadersSpec
    decreases s.len() - i,
{
    if i < 0 || i > s.len() {
        HeadersSpec::Incomplete
    } else {
        match find_byte_spec(s, i, 10) {
            None => HeadersSpec::Incomplete,
            Some(lf) => {
                let a = skip_ws_spec(s, i, lf);
                let b = trim_end_spec(s, a, lf);
                if a >= b {
                    // a blank line ends the headers
                    HeadersSpec::Done { content_length: cl, body_start: lf + 1 }
                } else {
                    let cl2 = match find_byte_spec(s, i, 58) {
                        Some(colon) => if colon < lf {
                            let ka = skip_ws_spec(s, i, colon);
                            let kb = trim_end_spec(s, ka, colon);
                            let va = skip_ws_spec(s, colon + 1, lf);
                            let vb = trim_end_spec(s, va, lf);
                            if range_lower_is(s, ka, kb, keys::content_length_header()) {
                                Some((va, vb))
                            } else {
                                cl
                            }
                        } else {
                            cl
                        },
                        None => cl,
                    };
                    if lf + 1 <= i || lf >= s.len() {
                        HeadersSpec::Incomplete
                    } else {
                        scan_headers(s, lf + 1, cl2)
                    }
                }
            },
        }
    }
}

/// What decoding the start of the byte stream `s` yields.
pub enum FrameSpec {
    /// No complete frame is present yet.
    Incomplete,
    /// The headers are complete but name no `content-length`.
    MissingLength,
    /// The `content-length` value is empty, non-numeric or too large.
    BadLength,
    /// A complete frame: the body occupies `[body_start, body_start + body_len)`.
    Frame { body_start: int, body_len: int },
}

/// Decodes the start of `s` as a framed message.
pub open spec fn decode_frame_spec(s: Seq<u8>) -> FrameSpec {
    match scan_headers(s, 0, None) {
        HeadersSpec::Incomplete => FrameSpec::Incomplete,
        HeadersSpec::Done { content_length, body_start } => match content_length {
            None => FrameSpec::MissingLength,
            Some((va, vb)) => {
                let read = read_digits(s, va, 0);
                if va >= vb || read.1 != vb || read.0 > usize::MAX {
                    FrameSpec::BadLength
                } else if body_start + read.0 <= s.len() {
                    FrameSpec::Frame { body_start, body_len: read.0 as int }
                } else {
                    FrameSpec::Incomplete
                }
            },
        },
    }
}

/// The outcome of one decoding step over a buffer.
#[derive(Debug)]
pub enum FrameStep {
    /// The buffer does not yet hold a complete frame.
    Incomplete,
    /// A complete frame: the body is `buf[body_start..body_end]`, and the
    /// frame occupies the buffer up to `body_end`.
    Message { body_start: usize, body_end: usize },
}

/// The first position at or after `from` holding `b`, if any.
fn find_byte(s: &Vec<u8>, from: usize, b: u8) -> (r: Option<usize>)
    requires
        from <= s@.len(),
    ensures
        match r {
            Some(p) => {
                &&& find_byte_spec(s@, from as int, b) == Some(p as int)
                &&& from <= p < s@.len()
                &&& s@[p as int] == b
            },
            None => find_byte_spec(s@, from as int, b) is None,
        },
{
    let mut i: usize = from;
    while i < s.len()
        invariant
            from <= i <= s@.len(),
            find_byte_spec(s@, from as int, b) == find_byte_spec(s@, i as int, b),
        decreases s@.len() - i,
    {
        if s[i] == b {
            assert(find_byte_spec(s@, i as int, b) == Some(i as int));
            return Some(i);
        }
        i = i + 1;
    }
    None
}

/// The first non-blank position in `[from, end)`, or `end`.
pub(crate) fn skip_ws_to(s: &Vec<u8>, from: usize, end: usize) -> (r: usize)
    requires
        from <= end <= s@.len(),
    ensures
        r == skip_ws_spec(s@, from as int, end as int),
        from <= r <= end,
{
    let mut i: usize = from;
    while i < end
        invariant
            from <= i <= end <= s@.len(),
            skip_ws_spec(s@, from as int, end as int) == skip_ws_spec(s@, i as int, end as int),
        decreases end - i,
    {
        let b = s[i];
        if !(b == 32 || b == 9 || b == 13 || b == 10) {
            return i;
        }
        i = i + 1;
    }
    i
}

/// The end of `[from, end)` after dropping trailing blank bytes.
fn trim_end_to(s: &Vec<u8>, from: usize, end: usize) -> (r: usize)
    requires
        from <= end <= s@.len(),
    ensures
        r == trim_end_spec(s@, from as int, end as int),
        from <= r <= end,
{
    let mut e: usize = end;
    while e > from
        invariant
            from <= e <= end <= s@.len(),
            trim_end_spec(s@, from as int, end as int) == trim_end_spec(s@, from as int, e as int),
        decreases e,
    {
        let b = s[e - 1];
        if !(b == 32 || b == 9 || b == 13 || b == 10) {
            return e;
        }
        e = e - 1;
    }
    e
}

/// Whether the bytes of `[a, b)`, lower-cased, are exactly `key`.
fn range_lower_eq(s: &Vec<u8>, a: usize, b: usize, key: &Vec<u8>) -> (r: bool)
    requires
        a <= b <= s@.len(),
    ensures
        r == range_lower_is(s@, a as int, b as int, key@),
{
    if b - a != key.len() {
        return false;
    }
    let n = key.len();
    let mut k: usize = 0;
    while k < n
        invariant
            0 <= k <= n,
            n == key@.len(),
            a + n == b <= s@.len(),
            forall|m: int| 0 <= m < k ==> lower(s@[a + m]) == key@[m],
        decreases n - k,
    {
        let c = s[a + k];
        let lc = if 65 <= c && c <= 90 {
            c + 32
        } else {
            c
        };
        if lc != key[k] {
            return false;
        }
        k = k + 1;
    }
    true
}

/// Reads the digits of `[a, b)` as a `usize`. The byte at `b`, if any, must
/// not be a digit, so that the range is maximal. Returns `None` when the
/// range is empty, holds a non-digit, or the value does not fit.
fn parse_usize_range(s: &Vec<u8>, a: usize, b: usize) -> (r: Option<usize>)
    requires
        a <= b <= s@.len(),
        b == s@.len() || !is_digit(s@[b as int]),
    ensures
        match r {
            Some(n) => {
                &&& a < b
                &&& read_digits(s@, a as int, 0) == (n as nat, b as int)
            },
            None => {
                ||| a >= b
                ||| read_digits(s@, a as int, 0).1 != b
                ||| read_digits(s@, a as int, 0).0 > usize::MAX
            },
        },
{
    if a >= b {
        return None;
    }
    let mut i: usize = a;
    let mut acc: usize = 0;
    loop
        invariant
            a <= i <= b <= s@.len(),
            a < b,
            b == s@.len() || !is_digit(s@[b as int]),
            read_digits(s@, i as int, acc as nat) == read_digits(s@, a as int, 0),
        decreases b - i,
    {
        if i >= b {
            assert(read_digits(s@, i as int, acc as nat) == (acc as nat, i as int));
            return Some(acc);
        }
        let c = s[i];
        if c < 48 || c > 57 {
            assert(read_digits(s@, i as int, acc as nat) == (acc as nat, i as int));
            return None;
        }
        let d = (c - 48) as usize;
        proof {
            assert(read_digits(s@, i as int, acc as nat) == read_digits(
                s@,
                i as int + 1,
                acc as nat * 10 + (s@[i as int] - 48) as nat,
            ));
            crate::digits::lemma_read_digits_bounds(
                s@,
                i as int + 1,
                acc as nat * 10 + (c - 48) as nat,
            );
        }
        if acc > (usize::MAX - d) / 10 {
            assert(acc as nat * 10 + (d as nat) > usize::MAX) by {
                assert(acc as nat >= (usize::MAX - d) as nat / 10 + 1);
                assert(((usize::MAX - d) as nat / 10 + 1) * 10 >= (usize::MAX - d) as nat + 1)
                    by (nonlinear_arith);
                assert(acc as nat * 10 >= ((usize::MAX - d) as nat / 10 + 1) * 10)
                    by (nonlinear_arith)
                    requires
                        acc as nat >= (usize::MAX - d) as nat / 10 + 1,
                ;
            }
            return None;
        }
        acc = acc * 10 + d;
        i = i + 1;
    }
}

/// The ghost value of an executable content-length value range.
pub open spec fn cl_view(cl: Option<(usize, usize)>) -> Option<(int, int)> {
    match cl {
        Some((a, b)) => Some((a as int, b as int)),
        None => None,
    }
}

/// Every byte dropped from the end of a range by trimming is blank.
proof fn lemma_trim_end_trailing_ws(s: Seq<u8>, i: int, end: int)
    requires
        0 <= i <= end <= s.len(),
    ensures
        forall|k: int| trim_end_spec(s, i, end) <= k < end ==> is_ws(#[trigger] s[k]),
    decreases end,
{
    if end > i && end >= 1 && end <= s.len() && is_ws(s[end - 1]) {
        lemma_trim_end_trailing_ws(s, i, end - 1);
    }
}

/// Decodes the start of `buf` as a framed message. `eof` says that no more
/// bytes will ever arrive. An incomplete frame is an error at the end of
/// the stream and a request for more bytes otherwise; complete headers
/// without a readable `content-length` are an error in every case.
pub fn decode_frame(buf: &Vec<u8>, eof: bool) -> (r: Result<FrameStep, AtsError>)
    ensures
        match r {
            Ok(FrameStep::Incomplete) => !eof && decode_frame_spec(buf@) is Incomplete,
            Ok(FrameStep::Message { body_start, body_end }) => {
                &&& decode_frame_spec(buf@) matches FrameSpec::Frame {
                    body_start: bs,
                    body_len: bl,
                }
                &&& bs == body_start as int
                &&& body_end as int == bs + bl
                &&& body_start <= body_end <= buf@.len()
            },
            Err(e) => {
                &&& e is Protocol
                &&& match decode_frame_spec(buf@) {
                    FrameSpec::Incomplete => eof && e->Protocol_message@ == keys::eof_msg(),
                    FrameSpec::MissingLength => e->Protocol_message@
                        == keys::missing_content_length_msg(),
                    FrameSpec::BadLength => e->Protocol_message@
                        == keys::invalid_content_length_msg(),
                    FrameSpec::Frame { .. } => false,
                }
            },
        },
{
    let mut i: usize = 0;
    let mut cl: Option<(usize, usize)> = None;
    loop
        invariant
            0 <= i <= buf@.len(),
            scan_headers(buf@, i as int, cl_view(cl)) == scan_headers(buf@, 0, None),
            match cl {
                Some((a, b)) => a <= b < buf@.len() && !is_digit(buf@[b as int]),
                None => true,
            },
        decreases buf@.len() - i,
    {
        let ghost cl_entry = cl_view(cl);
        let total = buf.len();
        let lf = match find_byte(buf, i, 10) {
            Some(lf) => lf,
            None => {
                assert(scan_headers(buf@, i as int, cl_entry) is Incomplete);
                if eof {
                    return Err(AtsError::Protocol { message: keys::eof_msg_vec() });
                }
                return Ok(FrameStep::Incomplete);
            },
        };
        let a = skip_ws_to(buf, i, lf);
        let b = trim_end_to(buf, a, lf);
        if a >= b {
            // a blank line: the headers are complete
            assert(scan_headers(buf@, i as int, cl_entry) == (HeadersSpec::Done {
                content_length: cl_entry,
                body_start: lf as int + 1,
            }));
            let body_start = lf + 1;
            match cl {
                None => {
                    return Err(
                        AtsError::Protocol { message: keys::missing_content_length_msg_vec() },
                    );
                },
                Some((va, vb)) => {
                    match parse_usize_range(buf, va, vb) {
                        None => {
                            return Err(
                                AtsError::Protocol {
                                    message: keys::invalid_content_length_msg_vec(),
                                },
                            );
                        },
                        Some(n) => {
                            if n <= buf.len() - body_start {
                                return Ok(
                                    FrameStep::Message { body_start, body_end: body_start + n },
                                );
                            } else if eof {
                                return Err(AtsError::Protocol { message: keys::eof_msg_vec() });
                            } else {
                                return Ok(FrameStep::Incomplete);
                            }
                        },
                    }
                },
            }
        }
        // an ordinary header line: remember the value range when its key is
        // content-length
        match find_byte(buf, i, 58) {
            Some(colon) => {
                if colon < lf {
                    let ka = skip_ws_to(buf, i, colon);
                    let kb = trim_end_to(buf, ka, colon);
                    let va = skip_ws_to(buf, colon + 1, lf);
                    let vb = trim_end_to(buf, va, lf);
                    if range_lower_eq(buf, ka, kb, &keys::content_length_header_vec()) {
                        proof {
                            lemma_trim_end_trailing_ws(buf@, va as int, lf as int);
                            if (vb as int) < lf as int {
                                assert(is_ws(buf@[vb as int]));
                            } else {
                                assert(buf@[vb as int] == 10);
                            }
                            assert(!is_digit(buf@[vb as int]));
                        }
                        cl = Some((va, vb));
                    }
                }
            },
            None => {},
        }
        proof {
            assert(scan_headers(buf@, i as int, cl_entry) == scan_headers(
                buf@,
                lf as int + 1,
                cl_view(cl),
            ));
        }
        i = lf + 1;
    }
}

} // verus!
