//! The HTTP side of the wire: the request path names the service and
//! method, and a reply is rendered from the controller — its status, its
//! content type, its headers, and its body override.
use vstd::prelude::*;

use crate::controller::{Controller, HttpStatus};
use crate::metric::spec_decimal;
use vstd::string::{StrSliceExecFns, StringExecFns};
use vstd::utf8::{decode_utf8, encode_utf8, valid_utf8};

verus! {

/// First position at or after `from` holding byte `b`.
pub open spec fn spec_find(s: Seq<u8>, from: int, b: u8) -> Option<int>
    decreases s.len() - from when 0 <= from <= s.len()
{
    if from >= s.len() {
        None
    } else if s[from] == b {
        Some(from)
    } else {
        spec_find(s, from + 1, b)
    }
}

fn find_byte(s: &Vec<u8>, from: usize, b: u8) -> (r: Option<usize>)
    requires
        from <= s@.len(),
    ensures
        match r {
            Some(i) => spec_find(s@, from as int, b) == Some(i as int) && from <= i < s@.len(),
            None => spec_find(s@, from as int, b) is None,
        },
{
    let n = s.len();
    let mut i: usize = from;
    while i < n
        invariant
            from <= i <= n,
            n == s@.len(),
            spec_find(s@, from as int, b) == spec_find(s@, i as int, b),
        decreases n - i,
    {
        if s[i] == b {
            return Some(i);
        }
        i = i + 1;
    }
    None
}

/// The service and method a request path names: exactly
/// `/<service>/<method>`, both parts UTF-8 and the method free of slashes.
pub open spec fn spec_split_path(p: Seq<u8>) -> Option<(Seq<char>, Seq<char>)> {
    if p.len() == 0 || p[0] != 0x2F {
        None
    } else {
        match spec_find(p, 1, 0x2F) {
            None => None,
            Some(slash) => {
                let service = p.subrange(1, slash);
                let method = p.subrange(slash + 1, p.len() as int);
                if service.len() > 0 && method.len() > 0 && spec_find(p, slash + 1, 0x2F) is None
                    && valid_utf8(service) && valid_utf8(method) {
                    Some((decode_utf8(service), decode_utf8(method)))
                } else {
                    None
                }
            },
        }
    }
}

/// Splits a request path into the service and method it names.
pub fn split_path(path: &Vec<u8>) -> (r: Option<(String, String)>)
    ensures
        match r {
            Some((s, m)) => spec_split_path(path@) == Some((s@, m@)),
            None => spec_split_path(path@) is None,
        },
{
    let n = path.len();
    if n == 0 || path[0] != 0x2F {
        return None;
    }
    let slash = match find_byte(path, 1, 0x2F) {
        None => {
            return None;
        },
        Some(i) => i,
    };
    if slash <= 1 || slash + 1 >= n {
        return None;
    }
    if find_byte(path, slash + 1, 0x2F).is_some() {
        return None;
    }
    let service_bytes = crate::protocol::copy_range(path, 1, slash);
    let method_bytes = crate::protocol::copy_range(path, slash + 1, n);
    let service = match crate::codec::string_from_utf8(service_bytes) {
        None => {
            return None;
        },
        Some(s) => s,
    };
    let method = match crate::codec::string_from_utf8(method_bytes) {
        None => {
            return None;
        },
        Some(m) => m,
    };
    Some((service, method))
}

/// First position at or after `from` where a blank line (CR LF CR LF) ends
/// a request head.
pub open spec fn spec_find_head_end(s: Seq<u8>, from: int) -> Option<int>
    decreases s.len() - from when 0 <= from <= s.len()
{
    if from + 4 > s.len() {
        None
    } else if s[from] == 0x0D && s[from + 1] == 0x0A && s[from + 2] == 0x0D && s[from + 3]
        == 0x0A {
        Some(from)
    } else {
        spec_find_head_end(s, from + 1)
    }
}

fn find_head_end(s: &Vec<u8>) -> (r: Option<usize>)
    ensures
        match r {
            Some(i) => spec_find_head_end(s@, 0) == Some(i as int) && i + 4 <= s@.len(),
            None => spec_find_head_end(s@, 0) is None,
        },
{
    let n = s.len();
    if n < 4 {
        return None;
    }
    let mut i: usize = 0;
    while i <= n - 4
        invariant
            0 <= i <= n - 3,
            n == s@.len(),
            n >= 4,
            spec_find_head_end(s@, 0) == spec_find_head_end(s@, i as int),
        decreases n - i,
    {
        if s[i] == 0x0D && s[i + 1] == 0x0A && s[i + 2] == 0x0D && s[i + 3] == 0x0A {
            return Some(i);
        }
        i = i + 1;
    }
    None
}

/// What reading an HTTP request head from the front of a buffer can say.
pub ghost enum SpecHttpHead {
    /// The blank line has not arrived yet.
    NeedMore,
    /// No request this surface serves starts like this.
    Bad,
    /// A complete bodyless request head: the service and method its path
    /// names, and the bytes consumed.
    Request(Seq<char>, Seq<char>, int),
}

/// The verdict on a buffer's front as an HTTP request head. This surface
/// serves bodyless reads: the verb must be GET or HEAD, the target must be
/// `/<service>/<method>`, and anything else closes the connection; payload
/// requests belong to the binary protocol.
pub open spec fn spec_parse_http_head(s: Seq<u8>) -> SpecHttpHead {
    match spec_find_head_end(s, 0) {
        None => SpecHttpHead::NeedMore,
        Some(e) => match spec_find(s, 0, 0x0D) {
            None => SpecHttpHead::Bad,
            Some(le) => {
                let line = s.subrange(0, le);
                match spec_find(line, 0, 0x20) {
                    None => SpecHttpHead::Bad,
                    Some(sp1) => {
                        let verb = line.subrange(0, sp1);
                        if verb != seq![0x47u8, 0x45u8, 0x54u8] && verb != seq![
                            0x48u8,
                            0x45u8,
                            0x41u8,
                            0x44u8,
                        ] {
                            SpecHttpHead::Bad
                        } else {
                            match spec_find(line, sp1 + 1, 0x20) {
                                None => SpecHttpHead::Bad,
                                Some(sp2) => {
                                    let target = line.subrange(sp1 + 1, sp2);
                                    match spec_split_path(target) {
                                        None => SpecHttpHead::Bad,
                                        Some((svc, m)) => SpecHttpHead::Request(svc, m, e + 4),
                                    }
                                },
                            }
                        }
                    },
                }
            },
        },
    }
}

/// What reading a request head says to the driver.
pub enum HttpHeadOutcome {
    /// Await more bytes.
    NeedMore,
    /// Close the connection.
    Bad,
    /// Service name, method name, bytes consumed.
    Request(String, String, usize),
}

/// Reads one bodyless HTTP request head off the front of the buffer.
pub fn parse_http_head(buf: &Vec<u8>) -> (r: HttpHeadOutcome)
    ensures
        match r {
            HttpHeadOutcome::NeedMore => spec_parse_http_head(buf@) is NeedMore,
            HttpHeadOutcome::Bad => spec_parse_http_head(buf@) is Bad,
            HttpHeadOutcome::Request(svc, m, c) => spec_parse_http_head(buf@)
                == SpecHttpHead::Request(svc@, m@, c as int) && c <= buf@.len(),
        },
{
    let head_end = match find_head_end(buf) {
        None => {
            return HttpHeadOutcome::NeedMore;
        },
        Some(e) => e,
    };
    let line_end = match find_byte(buf, 0, 0x0D) {
        None => {
            return HttpHeadOutcome::Bad;
        },
        Some(le) => le,
    };
    let line = crate::protocol::copy_range(buf, 0, line_end);
    let sp1 = match find_byte(&line, 0, 0x20) {
        None => {
            return HttpHeadOutcome::Bad;
        },
        Some(i) => i,
    };
    let is_get = sp1 == 3 && line[0] == 0x47 && line[1] == 0x45 && line[2] == 0x54;
    let is_head = sp1 == 4 && line[0] == 0x48 && line[1] == 0x45 && line[2] == 0x41 && line[3]
        == 0x44;
    proof {
        let verb = line@.subrange(0, sp1 as int);
        assert(verb.len() == sp1);
        if is_get {
            assert(verb =~= seq![0x47u8, 0x45u8, 0x54u8]);
        } else if is_head {
            assert(verb =~= seq![0x48u8, 0x45u8, 0x41u8, 0x44u8]);
        } else if sp1 == 3 {
            // some byte differs from the three of the read verb
            assert(verb[0] == line@[0] && verb[1] == line@[1] && verb[2] == line@[2]);
            assert(verb != seq![0x47u8, 0x45u8, 0x54u8]);
            assert(verb != seq![0x48u8, 0x45u8, 0x41u8, 0x44u8]);
        } else if sp1 == 4 {
            assert(verb[0] == line@[0] && verb[1] == line@[1] && verb[2] == line@[2] && verb[3]
                == line@[3]);
            assert(verb != seq![0x47u8, 0x45u8, 0x54u8]);
            assert(verb != seq![0x48u8, 0x45u8, 0x41u8, 0x44u8]);
        } else {
            // the token's length matches neither verb
            assert(verb != seq![0x47u8, 0x45u8, 0x54u8]);
            assert(verb != seq![0x48u8, 0x45u8, 0x41u8, 0x44u8]);
        }
    }
    if !is_get && !is_head {
        return HttpHeadOutcome::Bad;
    }
    let sp2 = match find_byte(&line, sp1 + 1, 0x20) {
        None => {
            return HttpHeadOutcome::Bad;
        },
        Some(i) => i,
    };
    let target = crate::protocol::copy_range(&line, sp1 + 1, sp2);
    let total = buf.len();
    assert(head_end + 4 <= total);
    match split_path(&target) {
        None => HttpHeadOutcome::Bad,
        Some((svc, m)) => HttpHeadOutcome::Request(svc, m, head_end + 4),
    }
}

/// The status line a status renders to.
pub open spec fn spec_status_line(s: HttpStatus) -> Seq<char> {
    match s {
        HttpStatus::Okay => "HTTP/1.1 200 OK\r\n"@,
        HttpStatus::BadRequest => "HTTP/1.1 400 Bad Request\r\n"@,
        HttpStatus::NotFound => "HTTP/1.1 404 Not Found\r\n"@,
        HttpStatus::InternalError => "HTTP/1.1 500 Internal Server Error\r\n"@,
    }
}

/// Header lines, one per controller response header, in order.
pub open spec fn spec_header_lines(hs: Seq<(String, String)>) -> Seq<u8>
    decreases hs.len(),
{
    if hs.len() == 0 {
        Seq::<u8>::empty()
    } else {
        spec_header_lines(hs.drop_last()) + encode_utf8(hs.last().0@) + encode_utf8(": "@)
            + encode_utf8(hs.last().1@) + encode_utf8("\r\n"@)
    }
}

/// The full reply for a controller and the encoded body the pipeline
/// produced: the controller's status or success, its content type or the
/// protobuf default, the body's exact length, its headers verbatim, then
/// its body override or the pipeline's body.
pub open spec fn spec_render_response(c: Controller, default_body: Seq<u8>) -> Seq<u8> {
    let status = match c.status {
        Some(s) => s,
        None => HttpStatus::Okay,
    };
    let ct = match c.content_type {
        Some(t) => t@,
        None => "application/x-protobuf"@,
    };
    let body = match c.response_body {
        Some(b) => b@,
        None => default_body,
    };
    encode_utf8(spec_status_line(status)) + encode_utf8("Content-Type: "@) + encode_utf8(ct)
        + encode_utf8("\r\n"@) + encode_utf8("Content-Length: "@) + spec_decimal(body.len())
        + encode_utf8("\r\n"@) + spec_header_lines(c.response_headers@) + encode_utf8("\r\n"@)
        + body
}

fn append_str(out: &mut Vec<u8>, s: &str)
    ensures
        final(out)@ == old(out)@ + encode_utf8(s@),
{
    let mut b = s.as_bytes_vec();
    out.append(&mut b);
}

/// Renders the wire bytes of one HTTP reply from its controller.
pub fn render_response(c: &Controller, default_body: &Vec<u8>) -> (r: Vec<u8>)
    ensures
        r@ == spec_render_response(*c, default_body@),
{
    let mut out: Vec<u8> = Vec::new();
    match c.status {
        Some(HttpStatus::Okay) | None => append_str(&mut out, "HTTP/1.1 200 OK\r\n"),
        Some(HttpStatus::BadRequest) => append_str(&mut out, "HTTP/1.1 400 Bad Request\r\n"),
        Some(HttpStatus::NotFound) => append_str(&mut out, "HTTP/1.1 404 Not Found\r\n"),
        Some(HttpStatus::InternalError) => append_str(
            &mut out,
            "HTTP/1.1 500 Internal Server Error\r\n",
        ),
    }
    append_str(&mut out, "Content-Type: ");
    match &c.content_type {
        Some(t) => append_str(&mut out, t.as_str()),
        None => append_str(&mut out, "application/x-protobuf"),
    }
    append_str(&mut out, "\r\n");
    append_str(&mut out, "Content-Length: ");
    let body_len = match &c.response_body {
        Some(b) => b.len(),
        None => default_body.len(),
    };
    crate::metric::push_decimal(body_len as u64, &mut out);
    append_str(&mut out, "\r\n");
    let nh = c.response_headers.len();
    let mut i: usize = 0;
    let ghost before_headers = out@;
    while i < nh
        invariant
            0 <= i <= nh,
            nh == c.response_headers@.len(),
            out@ =~= before_headers + spec_header_lines(c.response_headers@.take(i as int)),
        decreases nh - i,
    {
        let row = &c.response_headers[i];
        append_str(&mut out, row.0.as_str());
        append_str(&mut out, ": ");
        append_str(&mut out, row.1.as_str());
        append_str(&mut out, "\r\n");
        proof {
            let taken = c.response_headers@.take(i + 1);
            assert(taken.drop_last() =~= c.response_headers@.take(i as int));
            assert(taken.last() == c.response_headers@[i as int]);
        }
        i = i + 1;
    }
    proof {
        assert(c.response_headers@.take(nh as int) =~= c.response_headers@);
    }
    append_str(&mut out, "\r\n");
    match &c.response_body {
        Some(b) => {
            let mut tail = crate::protocol::copy_range(b, 0, b.len());
            proof {
                assert(tail@ =~= b@);
            }
            out.append(&mut tail);
        },
        None => {
            let mut tail = crate::protocol::copy_range(default_body, 0, default_body.len());
            proof {
                assert(tail@ =~= default_body@);
            }
            out.append(&mut tail);
        },
    }
    proof {
        assert(out@ =~= spec_render_response(*c, default_body@));
    }
    out
}

} // verus!
