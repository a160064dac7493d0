//! Where a request ends in the bytes read from a connection: after the blank
//! line, then as many body bytes as `Content-Length` gives.

use vstd::prelude::*;
use vstd::utf8::{valid_utf8, decode_utf8};
use crate::request::{Request, find_seq_from, header_of};
use crate::text::{chars_of, parse_usize, parse_decimal};
use crate::user::utf8_text;

verus! {

/// The largest request served, in bytes.
pub const MAX_REQUEST_BYTES: usize = 65536;

/// Body of the 400 response to a request over the size limit.
pub const REQUEST_TOO_LARGE: &'static str = "{\"error\":\"Request too large\"}";

/// Body of the 400 response to a header block that cannot be read.
pub const MALFORMED_HEADERS: &'static str = "{\"error\":\"Malformed headers\"}";

/// What to do with the bytes read so far.
#[derive(Debug, PartialEq, Eq, Structural)]
pub enum Framing {
    /// Read on: the request is not complete yet.
    NeedMore,
    /// The first `n` bytes are one request.
    Complete(usize),
    /// The request is, or declares, more than the limit: answer 400.
    TooLarge,
    /// The header block is not UTF-8 text, or `Content-Length` is no number: answer 400.
    Malformed,
    /// The peer closed before the declared body arrived: close without answer.
    Truncated,
}

/// The line that ends the header block, as bytes.
pub open spec fn blank_line_bytes() -> Seq<u8> {
    seq![13u8, 10u8, 13u8, 10u8]
}

/// The verdict on `received` under the limit `max`; `eof` tells whether the
/// peer has closed. Without a blank line the bytes so far are the request once
/// the peer closes.
///
/// Without `Content-Length` the body is what has arrived with the header block:
/// the request is complete as soon as the blank line is in. This is a choice
/// against waiting for the end of the stream: a client that sends no body and
/// keeps its side open (a plain `GET`) would wait forever for an answer. The
/// price is that a body sent without `Content-Length`, and split over several
/// reads, is cut where the first read that holds the blank line ends; clients
/// that send a body are expected to declare its length.
pub open spec fn framing(received: Seq<u8>, max: nat, eof: bool) -> Framing {
    match find_seq_from(received, blank_line_bytes(), 0) {
        None => if received.len() > max {
            Framing::TooLarge
        } else if eof && received.len() > 0 {
            Framing::Complete(received.len() as usize)
        } else if eof {
            Framing::Truncated
        } else {
            Framing::NeedMore
        },
        Some(i) => {
            let head = received.subrange(0, i + 4);
            if i + 4 > max {
                Framing::TooLarge
            } else if !valid_utf8(head) {
                Framing::Malformed
            } else {
                match header_of(decode_utf8(head), "Content-Length"@) {
                    None => Framing::Complete(received.len() as usize),
                    Some(value) => match parse_decimal(value) {
                        None => Framing::Malformed,
                        Some(n) => if i + 4 + n > max {
                            Framing::TooLarge
                        } else if received.len() >= i + 4 + n {
                            Framing::Complete((i + 4 + n) as usize)
                        } else if eof {
                            Framing::Truncated
                        } else {
                            Framing::NeedMore
                        },
                    },
                }
            }
        },
    }
}

fn find_blank_line_bytes(v: &Vec<u8>) -> (r: Option<usize>)
    ensures
        match r {
            Some(i) => find_seq_from(v@, blank_line_bytes(), 0) == Some(i as int) && i + 4
                <= v@.len(),
            None => find_seq_from(v@, blank_line_bytes(), 0) is None,
        },
{
    let n = v.len();
    let mut i: usize = 0;
    while n >= 4 && i <= n - 4
        invariant
            n == v@.len(),
            find_seq_from(v@, blank_line_bytes(), 0) == find_seq_from(v@, blank_line_bytes(), i as int),
        decreases n - i,
    {
        if v[i] == 13u8 && v[i + 1] == 10u8 && v[i + 2] == 13u8 && v[i + 3] == 10u8 {
            assert(v@.subrange(i as int, i + 4) =~= blank_line_bytes());
            return Some(i);
        }
        assert(v@.subrange(i as int, i + 4) != blank_line_bytes()) by {
            if v@.subrange(i as int, i + 4) == blank_line_bytes() {
                assert(v@.subrange(i as int, i + 4)[0] == v@[i as int]);
                assert(v@.subrange(i as int, i + 4)[1] == v@[i + 1]);
                assert(v@.subrange(i as int, i + 4)[2] == v@[i + 2]);
                assert(v@.subrange(i as int, i + 4)[3] == v@[i + 3]);
            }
        }
        i = i + 1;
    }
    None
}

fn prefix_bytes(v: &Vec<u8>, n: usize) -> (r: Vec<u8>)
    requires
        n <= v@.len(),
    ensures
        r@ == v@.subrange(0, n as int),
{
    let mut out: Vec<u8> = Vec::new();
    let mut i: usize = 0;
    while i < n
        invariant
            i <= n <= v@.len(),
            out@ == v@.subrange(0, i as int),
        decreases n - i,
    {
        out.push(v[i]);
        assert(out@ =~= v@.subrange(0, i + 1));
        i = i + 1;
    }
    out
}

/// Decides whether the bytes read so far hold a whole request.
pub fn frame(received: &Vec<u8>, max: usize, eof: bool) -> (r: Framing)
    ensures
        r == framing(received@, max as nat, eof),
{
    let n = received.len();
    match find_blank_line_bytes(received) {
        None => {
            if n > max {
                Framing::TooLarge
            } else if eof && n > 0 {
                Framing::Complete(n)
            } else if eof {
                Framing::Truncated
            } else {
                Framing::NeedMore
            }
        },
        Some(i) => {
            let head_end = i + 4;
            if head_end > max {
                return Framing::TooLarge;
            }
            let head = prefix_bytes(received, head_end);
            let text = match utf8_text(head) {
                Some(t) => t,
                None => {
                    return Framing::Malformed;
                },
            };
            let request = Request::parse(text.as_str());
            match request.header("Content-Length") {
                None => Framing::Complete(n),
                Some(value) => match parse_usize(&chars_of(value.as_str())) {
                    None => Framing::Malformed,
                    Some(len) => {
                        if len > max - head_end {
                            Framing::TooLarge
                        } else if n >= head_end + len {
                            Framing::Complete(head_end + len)
                        } else if eof {
                            Framing::Truncated
                        } else {
                            Framing::NeedMore
                        }
                    },
                },
            }
        },
    }
}

} // verus!
