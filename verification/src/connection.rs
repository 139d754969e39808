//! The first look at a connection: the bytes of a request as they came
//! from the socket are told apart into a CONNECT, a direct request, or
//! nothing that can be served. Only the head of the request is read; its
//! body is carried as it came.

use vstd::prelude::*;
use vstd::string::{StringExecFns, StrSliceExecFns};
use vstd::utf8::{decode_utf8, valid_utf8};
use crate::dispatch::established;
use crate::text::{find, find_char, lemma_find, lemma_find_in_prefix, to_chars, trim, trim_bounds};
use crate::trusted::utf8_text;
use crate::wire::{find_blank_line, head_of};

verus! {

/// Whether a line begins, in upper or lower case, with `host: `.
pub open spec fn is_host_line(line: Seq<char>) -> bool {
    &&& line.len() >= 6
    &&& (line[0] == 'h' || line[0] == 'H')
    &&& (line[1] == 'o' || line[1] == 'O')
    &&& (line[2] == 's' || line[2] == 'S')
    &&& (line[3] == 't' || line[3] == 'T')
    &&& line[4] == ':'
    &&& line[5] == ' '
}

/// The first line of `s`, among those that begin at `start` or later,
/// that is a host line. Lines end at a line feed.
pub open spec fn host_line(s: Seq<char>, start: int) -> Option<Seq<char>>
    decreases s.len() - start,
{
    if start < 0 || start >= s.len() {
        None
    } else {
        let end = find(s, '\n', start);
        if start <= end <= s.len() && is_host_line(s.subrange(start, end)) {
            Some(s.subrange(start, end))
        } else if start <= end < s.len() {
            host_line(s, end + 1)
        } else {
            None
        }
    }
}

/// Whether a request begins with the word `CONNECT`.
pub open spec fn begins_with_connect(s: Seq<char>) -> bool {
    s.len() >= 7 && s.subrange(0, 7) == "CONNECT"@
}

/// A host with the port that is taken where it names none.
pub open spec fn with_port(host: Seq<char>, port: Seq<char>) -> Seq<char> {
    if host.contains(':') {
        host
    } else {
        host + ":"@ + port
    }
}

/// The address a request names in its first host line: what follows
/// `host: `, without the white space around it, and with port 443 for a
/// request that begins with `CONNECT`, port 80 for any other, where the
/// line names no port. A request without a host line names no address.
pub open spec fn host_of(request: Seq<char>) -> Option<Seq<char>> {
    match host_line(request, 0) {
        Some(line) => Some(
            with_port(
                trim(line.skip(6)),
                if begins_with_connect(request) {
                    "443"@
                } else {
                    "80"@
                },
            ),
        ),
        None => None,
    }
}

fn host_line_at(chars: &Vec<char>, start: usize, end: usize) -> (found: bool)
    requires
        start <= end <= chars.len(),
    ensures
        found == is_host_line(chars@.subrange(start as int, end as int)),
{
    end - start >= 6 && (chars[start] == 'h' || chars[start] == 'H') && (chars[start + 1] == 'o'
        || chars[start + 1] == 'O') && (chars[start + 2] == 's' || chars[start + 2] == 'S') && (
    chars[start + 3] == 't' || chars[start + 3] == 'T') && chars[start + 4] == ':' && chars[start
        + 5] == ' '
}

fn starts_with_connect(chars: &Vec<char>) -> (found: bool)
    ensures
        found == begins_with_connect(chars@),
{
    proof {
        reveal_strlit("CONNECT");
    }
    let found = chars.len() >= 7 && chars[0] == 'C' && chars[1] == 'O' && chars[2] == 'N'
        && chars[3] == 'N' && chars[4] == 'E' && chars[5] == 'C' && chars[6] == 'T';
    proof {
        let prefix = chars@.subrange(0, 7);
        if found {
            assert(prefix =~= "CONNECT"@);
        } else if chars.len() >= 7 {
            assert(prefix[0] == chars@[0]);
            assert(prefix[1] == chars@[1]);
            assert(prefix[2] == chars@[2]);
            assert(prefix[3] == chars@[3]);
            assert(prefix[4] == chars@[4]);
            assert(prefix[5] == chars@[5]);
            assert(prefix[6] == chars@[6]);
        }
    }
    found
}

pub(crate) fn has_colon(chars: &Vec<char>, from: usize, to: usize) -> (found: bool)
    requires
        from <= to <= chars.len(),
    ensures
        found == chars@.subrange(from as int, to as int).contains(':'),
{
    let at = find_char(chars, ':', from);
    proof {
        lemma_find(chars@, ':', from as int);
        let part = chars@.subrange(from as int, to as int);
        if at < to {
            assert(part[at - from] == ':');
        } else {
            assert forall|i: int| 0 <= i < part.len() implies part[i] != ':' by {
                assert(part[i] == chars@[from + i]);
            }
        }
    }
    at < to
}

/// Finds the address a request names in its first host line.
pub fn extract_host(request: &str) -> (host: Option<String>)
    ensures
        host is Some <==> host_of(request@) is Some,
        host matches Some(h) ==> Some(h@) == host_of(request@),
{
    let chars = to_chars(request);
    let n = chars.len();
    let mut start: usize = 0;
    while start < n
        invariant
            n == chars.len(),
            chars@ == request@,
            host_line(chars@, 0) == host_line(chars@, start as int),
        decreases n - start,
    {
        let end = find_char(&chars, '\n', start);
        if host_line_at(&chars, start, end) {
            let (a, b) = trim_bounds(&chars, start + 6, end);
            let mut host = request.substring_char(a, b).to_owned();
            proof {
                assert(chars@.subrange(start as int, end as int).skip(6) =~= chars@.subrange(
                    start as int + 6,
                    end as int,
                ));
            }
            if !has_colon(&chars, a, b) {
                host.append(":");
                if starts_with_connect(&chars) {
                    host.append("443");
                } else {
                    host.append("80");
                }
            }
            return Some(host);
        }
        if end >= n {
            return None;
        }
        start = end + 1;
    }
    None
}

/// What is to be done with a connection.
pub enum Dispatch {
    /// Close the connection. Nothing is forwarded and nothing is published.
    Close,
    /// Connect to `target`. Once that has succeeded, write `reply` to the
    /// client before any other byte moves, then carry bytes between the
    /// two in both directions.
    Connect { target: String, reply: Vec<u8> },
    /// Connect to `target`, send `forward` there, and relay what comes
    /// back to the client.
    Http { target: String, forward: Vec<u8> },
}

/// The content of a `Dispatch`.
pub enum DispatchView {
    Close,
    Connect { target: Seq<char>, reply: Seq<u8> },
    Http { target: Seq<char>, forward: Seq<u8> },
}

impl View for Dispatch {
    type V = DispatchView;

    open spec fn view(&self) -> DispatchView {
        match self {
            Dispatch::Close => DispatchView::Close,
            Dispatch::Connect { target, reply } => DispatchView::Connect {
                target: target@,
                reply: reply@,
            },
            Dispatch::Http { target, forward } => DispatchView::Http {
                target: target@,
                forward: forward@,
            },
        }
    }
}

/// The request line: the first line of a request, without the carriage
/// return that may end it.
pub open spec fn request_line(request: Seq<char>) -> Seq<char> {
    let line = request.subrange(0, find(request, '\n', 0));
    if line.len() > 0 && line.last() == '\r' {
        line.drop_last()
    } else {
        line
    }
}

/// The method of a request: the request line up to its first space.
pub open spec fn method_of(request: Seq<char>) -> Seq<char> {
    let line = request_line(request);
    line.subrange(0, find(line, ' ', 0))
}

/// The target of a request: what stands between the first space of the
/// request line and the second, or the end of the line. A request line
/// without a space has an empty target.
pub open spec fn target_of(request: Seq<char>) -> Seq<char> {
    let line = request_line(request);
    let space = find(line, ' ', 0);
    if space < line.len() {
        line.subrange(space + 1, find(line, ' ', space + 1))
    } else {
        Seq::empty()
    }
}

/// What is done with a CONNECT: a tunnel to its target, with port 443
/// where the target names none.
pub open spec fn connect_plan(request: Seq<char>) -> DispatchView {
    if target_of(request).len() == 0 {
        DispatchView::Close
    } else {
        DispatchView::Connect {
            target: with_port(target_of(request), "443"@),
            reply: established(),
        }
    }
}

/// What is done with a direct request that came as the bytes `data`: they
/// are sent on, unchanged, to the address its host line names.
pub open spec fn http_plan(request: Seq<char>, data: Seq<u8>) -> DispatchView {
    match host_of(request) {
        Some(target) => DispatchView::Http { target, forward: data },
        None => DispatchView::Close,
    }
}

/// What is done with a connection whose first bytes are `data`. The
/// head of the request, which ends at the first empty line, is read as
/// text. A head that is no text, and a request line without a method or
/// without a target, close the connection.
pub open spec fn connection_plan(data: Seq<u8>) -> DispatchView {
    if data.len() == 0 || !valid_utf8(head_of(data)) {
        DispatchView::Close
    } else {
        let request = decode_utf8(head_of(data));
        if method_of(request).len() == 0 || target_of(request).len() == 0 {
            DispatchView::Close
        } else if method_of(request) == "CONNECT"@ {
            connect_plan(request)
        } else {
            http_plan(request, data)
        }
    }
}

/// A request line without a method or without a target closes the
/// connection: nothing is forwarded, and a close carries no exchange.
pub proof fn malformed_request_line_closes(data: Seq<u8>)
    requires
        method_of(decode_utf8(head_of(data))).len() == 0 || target_of(
            decode_utf8(head_of(data)),
        ).len() == 0,
    ensures
        connection_plan(data) == DispatchView::Close,
{
}

/// An accepted CONNECT is answered with the same bytes whatever its
/// target: the line that says the connection is established, and the empty
/// line after it.
pub proof fn connect_reply_is_fixed(data: Seq<u8>)
    ensures
        connection_plan(data) matches DispatchView::Connect { reply, .. } ==> reply
            == established(),
{
}

/// Where the parts of a request line stand among the characters of a
/// request: the line from 0 to `line_end`, the method from 0 to
/// `method_end`, the target from `target_start` to `target_end`.
pub(crate) struct LineParts {
    pub line_end: usize,
    pub method_end: usize,
    pub target_start: usize,
    pub target_end: usize,
}

pub(crate) fn split_request_line(chars: &Vec<char>) -> (parts: LineParts)
    ensures
        parts.method_end <= parts.target_start <= parts.target_end <= parts.line_end
            <= chars.len(),
        chars@.subrange(0, parts.line_end as int) == request_line(chars@),
        chars@.subrange(0, parts.method_end as int) == method_of(chars@),
        chars@.subrange(parts.target_start as int, parts.target_end as int) == target_of(chars@),
        parts.method_end == find(request_line(chars@), ' ', 0),
        parts.method_end < parts.line_end ==> parts.target_start == parts.method_end + 1
            && parts.target_end == find(request_line(chars@), ' ', parts.method_end + 1),
{
    let s = Ghost(chars@);
    let newline = find_char(chars, '\n', 0);
    let end = if newline > 0 && chars[newline - 1] == '\r' {
        newline - 1
    } else {
        newline
    };
    proof {
        let whole = s@.subrange(0, newline as int);
        if whole.len() > 0 && whole.last() == '\r' {
            assert(whole.drop_last() =~= s@.subrange(0, end as int));
        }
        assert(request_line(s@) == s@.subrange(0, end as int));
        lemma_find_in_prefix(s@, ' ', 0, end as int);
    }
    let space = find_char(chars, ' ', 0);
    if space < end {
        let next = find_char(chars, ' ', space + 1);
        let target_end = if next < end {
            next
        } else {
            end
        };
        proof {
            let line = s@.subrange(0, end as int);
            lemma_find_in_prefix(s@, ' ', space as int + 1, end as int);
            assert(line.subrange(0, space as int) =~= s@.subrange(0, space as int));
            assert(line.subrange(space as int + 1, target_end as int) =~= s@.subrange(
                space as int + 1,
                target_end as int,
            ));
        }
        LineParts { line_end: end, method_end: space, target_start: space + 1, target_end }
    } else {
        proof {
            let line = s@.subrange(0, end as int);
            assert(line.subrange(0, end as int) =~= s@.subrange(0, end as int));
            assert(s@.subrange(end as int, end as int) =~= Seq::<char>::empty());
        }
        LineParts { line_end: end, method_end: end, target_start: end, target_end: end }
    }
}

fn is_connect(chars: &Vec<char>, method_end: usize) -> (found: bool)
    requires
        method_end <= chars.len(),
    ensures
        found == (chars@.subrange(0, method_end as int) == "CONNECT"@),
{
    proof {
        reveal_strlit("CONNECT");
    }
    let found = method_end == 7 && starts_with_connect(chars);
    proof {
        assert("CONNECT"@.len() == 7);
        assert(chars@.subrange(0, method_end as int).len() == method_end);
    }
    found
}

fn tunnel_to(request: &str, chars: &Vec<char>, parts: &LineParts) -> (plan: Dispatch)
    requires
        chars@ == request@,
        parts.target_start <= parts.target_end <= chars.len(),
        chars@.subrange(parts.target_start as int, parts.target_end as int) == target_of(chars@),
    ensures
        plan@ == connect_plan(request@),
{
    if parts.target_start == parts.target_end {
        return Dispatch::Close;
    }
    let mut target = request.substring_char(parts.target_start, parts.target_end).to_owned();
    if !has_colon(chars, parts.target_start, parts.target_end) {
        target.append(":");
        target.append("443");
    }
    let reply = "HTTP/1.1 200 Connection Established\r\n\r\n".as_bytes_vec();
    Dispatch::Connect { target, reply }
}

/// Decides what is done with a CONNECT request.
pub fn handle_connect(request: &str) -> (plan: Dispatch)
    ensures
        plan@ == connect_plan(request@),
{
    let chars = to_chars(request);
    let parts = split_request_line(&chars);
    tunnel_to(request, &chars, &parts)
}

/// Decides what is done with a direct request, which came from the socket
/// as the bytes `original_data`.
pub fn handle_http(request: &str, original_data: &[u8]) -> (plan: Dispatch)
    ensures
        plan@ == http_plan(request@, original_data@),
{
    match extract_host(request) {
        Some(target) => Dispatch::Http { target, forward: vstd::slice::slice_to_vec(original_data) },
        None => Dispatch::Close,
    }
}

/// Decides what is done with a connection from the first bytes that came
/// from it.
pub fn handle_connection(data: &[u8]) -> (plan: Dispatch)
    ensures
        plan@ == connection_plan(data@),
{
    if data.len() == 0 {
        return Dispatch::Close;
    }
    let head = vstd::slice::slice_subrange(data, 0, find_blank_line(data, 0));
    match utf8_text(head) {
        None => Dispatch::Close,
        Some(request) => {
            proof {
                vstd::utf8::encode_utf8_decode_utf8(request@);
            }
            let chars = to_chars(request);
            let parts = split_request_line(&chars);
            if parts.method_end == 0 || parts.target_start == parts.target_end {
                Dispatch::Close
            } else if is_connect(&chars, parts.method_end) {
                tunnel_to(request, &chars, &parts)
            } else {
                handle_http(request, data)
            }
        },
    }
}

/// How a tunnel is served.
#[derive(Clone, Copy, Debug, PartialEq, Eq, Structural)]
pub enum TunnelMode {
    /// Bytes are carried between client and target as they are.
    Raw,
    /// The client's TLS session ends here, under a certificate issued for
    /// the target's host, and what it carries is served as a connection of
    /// its own.
    Intercept,
}

/// Whether the first bytes of a tunnel begin a TLS handshake: a record of
/// type 22 in a protocol version 3.x.
pub open spec fn begins_tls(first: Seq<u8>) -> bool {
    first.len() >= 2 && first[0] == 0x16 && first[1] == 0x03
}

/// Decides how a tunnel is served from the first bytes the client sends
/// into it. It is intercepted where interception is switched on and the
/// client begins a TLS handshake, and carried raw otherwise.
pub fn tunnel_mode(intercept: bool, first: &[u8]) -> (mode: TunnelMode)
    ensures
        mode == if intercept && begins_tls(first@) {
            TunnelMode::Intercept
        } else {
            TunnelMode::Raw
        },
{
    if intercept && first.len() >= 2 && first[0] == 0x16 && first[1] == 0x03 {
        TunnelMode::Intercept
    } else {
        TunnelMode::Raw
    }
}

} // verus!
