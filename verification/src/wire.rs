//! Reading messages off the wire: the bytes of a request or of a response
//! are taken apart into start line, header lines and body. The head is
//! text; the body is whatever bytes follow the empty line.

use vstd::prelude::*;
use vstd::slice::{slice_subrange, slice_to_vec};
use vstd::string::StrSliceExecFns;
use vstd::utf8::{decode_utf8, valid_utf8};
use crate::connection::{method_of, request_line, split_request_line, target_of};
use crate::exchange::headers_view;
use crate::message::{HttpRequest, HttpRequestView, HttpResponse, HttpResponseView, HttpVersion};
use crate::text::{find, find_char, lemma_find, lemma_find_in_part, to_chars, trim, trim_bounds};
use crate::trusted::utf8_text;

verus! {

/// Whether the empty line that ends a head stands at `at`: a line break
/// right after a line break, each a carriage return and a line feed.
pub open spec fn blank_line_at(data: Seq<u8>, at: int) -> bool {
    &&& 0 <= at
    &&& at + 4 <= data.len()
    &&& data[at] == 13
    &&& data[at + 1] == 10
    &&& data[at + 2] == 13
    &&& data[at + 3] == 10
}

/// Where the head ends: the first place at or after `from` where the
/// empty line stands, or the end of the data where it stands nowhere.
pub open spec fn head_end(data: Seq<u8>, from: int) -> int
    decreases data.len() - from,
{
    if from < 0 || from >= data.len() {
        data.len() as int
    } else if blank_line_at(data, from) {
        from
    } else {
        head_end(data, from + 1)
    }
}

/// The head of a message: its bytes before the empty line.
pub open spec fn head_of(data: Seq<u8>) -> Seq<u8> {
    data.subrange(0, head_end(data, 0))
}

/// The body of a message: its bytes after the empty line. A message
/// without the empty line has no body.
pub open spec fn body_of(data: Seq<u8>) -> Seq<u8> {
    if 0 <= head_end(data, 0) && head_end(data, 0) + 4 <= data.len() {
        data.subrange(head_end(data, 0) + 4, data.len() as int)
    } else {
        Seq::empty()
    }
}

/// Finds where the first empty line stands at or after `from`.
pub(crate) fn find_blank_line(input: &[u8], from: usize) -> (at: usize)
    requires
        from <= input.len(),
    ensures
        at == head_end(input@, from as int),
        from <= at <= input.len(),
        at < input.len() ==> at + 4 <= input.len(),
{
    let n = input.len();
    let mut at = from;
    while at < n
        invariant
            n == input.len(),
            from <= at <= n,
            head_end(input@, from as int) == head_end(input@, at as int),
        decreases n - at,
    {
        if n - at >= 4 && input[at] == 13 && input[at + 1] == 10 && input[at + 2] == 13 && input[at
            + 3] == 10 {
            return at;
        }
        at += 1;
    }
    at
}

/// The protocol version that a text names.
pub open spec fn version_of(text: Seq<char>) -> HttpVersion {
    if text == "HTTP/0.9"@ {
        HttpVersion::Http09
    } else if text == "HTTP/1.0"@ {
        HttpVersion::Http10
    } else if text == "HTTP/1.1"@ {
        HttpVersion::Http11
    } else if text == "HTTP/2.0"@ {
        HttpVersion::H2
    } else if text == "HTTP/3.0"@ {
        HttpVersion::H3
    } else {
        HttpVersion::Unknown
    }
}

fn part_is(chars: &Vec<char>, from: usize, to: usize, word: &str) -> (same: bool)
    requires
        from <= to <= chars.len(),
    ensures
        same == (chars@.subrange(from as int, to as int) == word@),
{
    let letters = to_chars(word);
    if letters.len() != to - from {
        assert(chars@.subrange(from as int, to as int).len() != word@.len());
        return false;
    }
    let mut i: usize = 0;
    while i < letters.len()
        invariant
            from <= to <= chars.len(),
            letters.len() == to - from,
            letters@ == word@,
            i <= letters.len(),
            forall|j: int| 0 <= j < i ==> chars[from + j] == letters[j],
        decreases letters.len() - i,
    {
        if chars[from + i] != letters[i] {
            proof {
                let part = chars@.subrange(from as int, to as int);
                assert(part[i as int] == chars@[from + i]);
                assert(letters@ == word@);
                if part == word@ {
                    assert(part[i as int] == word@[i as int]);
                }
            }
            return false;
        }
        i += 1;
    }
    assert(chars@.subrange(from as int, to as int) =~= letters@);
    true
}

fn read_version(chars: &Vec<char>, from: usize, to: usize) -> (version: HttpVersion)
    requires
        from <= to <= chars.len(),
    ensures
        version == version_of(chars@.subrange(from as int, to as int)),
{
    if part_is(chars, from, to, "HTTP/0.9") {
        HttpVersion::Http09
    } else if part_is(chars, from, to, "HTTP/1.0") {
        HttpVersion::Http10
    } else if part_is(chars, from, to, "HTTP/1.1") {
        HttpVersion::Http11
    } else if part_is(chars, from, to, "HTTP/2.0") {
        HttpVersion::H2
    } else if part_is(chars, from, to, "HTTP/3.0") {
        HttpVersion::H3
    } else {
        HttpVersion::Unknown
    }
}

/// A line without the carriage return that may end it.
pub open spec fn strip_cr(line: Seq<char>) -> Seq<char> {
    if line.len() > 0 && line.last() == '\r' {
        line.drop_last()
    } else {
        line
    }
}

/// The header that a line holds: the name before its first colon and the
/// value after it, the value without the white space around it. A line
/// without a colon holds no header.
pub open spec fn header_of(line: Seq<char>) -> Option<(Seq<char>, Seq<char>)> {
    let colon = find(line, ':', 0);
    if colon < line.len() {
        Some((line.subrange(0, colon), trim(line.subrange(colon + 1, line.len() as int))))
    } else {
        None
    }
}

/// The headers that the lines of `text` hold, from the line that begins
/// at `start` on, in their order. Where one of the lines holds no header,
/// there are none.
pub open spec fn headers_from(text: Seq<char>, start: int) -> Option<Seq<(Seq<char>, Seq<char>)>>
    decreases text.len() - start,
{
    if start < 0 || start >= text.len() {
        Some(Seq::empty())
    } else {
        let end = find(text, '\n', start);
        if start <= end <= text.len() {
            match header_of(strip_cr(text.subrange(start, end))) {
                None => None,
                Some(header) => if end < text.len() {
                    match headers_from(text, end + 1) {
                        Some(rest) => Some(seq![header] + rest),
                        None => None,
                    }
                } else {
                    Some(seq![header])
                },
            }
        } else {
            None
        }
    }
}

/// What has been read of the headers, put before what is still to read.
spec fn joined(
    read: Seq<(Seq<char>, Seq<char>)>,
    rest: Option<Seq<(Seq<char>, Seq<char>)>>,
) -> Option<Seq<(Seq<char>, Seq<char>)>> {
    match rest {
        Some(rest) => Some(read + rest),
        None => None,
    }
}

/// Reads the headers in the lines after the one that ends at `eol`.
fn read_headers(text: &str, chars: &Vec<char>, eol: usize) -> (headers: Option<
    Vec<(String, String)>,
>)
    requires
        chars@ == text@,
        eol <= chars.len(),
    ensures
        headers is Some <==> headers_from(text@, eol + 1) is Some,
        headers matches Some(h) ==> Some(headers_view(h@)) == headers_from(text@, eol + 1),
{
    let n = chars.len();
    let mut headers: Vec<(String, String)> = Vec::new();
    assert(headers_view(headers@) =~= Seq::empty());
    if eol >= n {
        return Some(headers);
    }
    let ghost first = eol as int + 1;
    let mut start = eol + 1;
    assert(joined(headers_view(headers@), headers_from(chars@, first)) == headers_from(
        chars@,
        first,
    )) by {
        match headers_from(chars@, first) {
            Some(rest) => {
                assert(Seq::<(Seq<char>, Seq<char>)>::empty() + rest =~= rest);
            },
            None => {},
        }
    }
    while start < n
        invariant
            n == chars.len(),
            chars@ == text@,
            start <= n,
            first == eol + 1,
            headers_from(chars@, first) == joined(
                headers_view(headers@),
                headers_from(chars@, start as int),
            ),
        decreases n - start,
    {
        let end = find_char(chars, '\n', start);
        let line_end = if end > start && chars[end - 1] == '\r' {
            end - 1
        } else {
            end
        };
        let colon = find_char(chars, ':', start);
        let ghost line = chars@.subrange(start as int, line_end as int);
        proof {
            let whole = chars@.subrange(start as int, end as int);
            if whole.len() > 0 && whole.last() == '\r' {
                assert(whole.drop_last() =~= line);
            }
            assert(strip_cr(whole) == line);
            lemma_find_in_part(chars@, ':', start as int, line_end as int, start as int);
            lemma_find(chars@, ':', start as int);
        }
        if colon >= line_end {
            return None;
        }
        let (a, b) = trim_bounds(chars, colon + 1, line_end);
        let name = text.substring_char(start, colon).to_owned();
        let value = text.substring_char(a, b).to_owned();
        let ghost header = (name@, value@);
        let ghost before = headers_view(headers@);
        proof {
            assert(line.subrange(0, colon - start) =~= chars@.subrange(start as int, colon as int));
            assert(line.subrange(colon - start + 1, line.len() as int) =~= chars@.subrange(
                colon as int + 1,
                line_end as int,
            ));
            assert(header_of(line) == Some(header));
        }
        headers.push((name, value));
        proof {
            assert(headers_view(headers@) =~= before.push(header));
            match headers_from(chars@, end as int + 1) {
                Some(rest) => {
                    assert(before.push(header) + rest =~= before + (seq![header] + rest));
                },
                None => {},
            }
            assert(before.push(header) =~= before + seq![header]);
        }
        if end >= n {
            return Some(headers);
        }
        start = end + 1;
    }
    proof {
        assert(headers_view(headers@) + Seq::<(Seq<char>, Seq<char>)>::empty() =~= headers_view(
            headers@,
        ));
    }
    Some(headers)
}

/// The protocol version that a request line names: what follows the
/// second space of the line. A line with fewer spaces names none.
pub open spec fn version_text(request: Seq<char>) -> Seq<char> {
    let line = request_line(request);
    let after_method = find(line, ' ', 0);
    if after_method < line.len() && find(line, ' ', after_method + 1) < line.len() {
        line.subrange(find(line, ' ', after_method + 1) + 1, line.len() as int)
    } else {
        Seq::empty()
    }
}

/// The request that the bytes `data` hold. The head must be text, its
/// first line must name a method and a target, and every line after it
/// must hold a header; bytes of another shape hold no request.
pub open spec fn request_in(data: Seq<u8>) -> Option<HttpRequestView> {
    let text = decode_utf8(head_of(data));
    if !valid_utf8(head_of(data)) || method_of(text).len() == 0 || target_of(text).len() == 0 {
        None
    } else {
        match headers_from(text, find(text, '\n', 0) + 1) {
            Some(headers) => Some(
                HttpRequestView {
                    method: method_of(text),
                    uri: target_of(text),
                    version: version_of(version_text(text)),
                    headers,
                    body: body_of(data),
                },
            ),
            None => None,
        }
    }
}

fn read_body(data: &[u8], end: usize) -> (body: Vec<u8>)
    requires
        end == head_end(data@, 0),
        end <= data.len(),
        end < data.len() ==> end + 4 <= data.len(),
    ensures
        body@ == body_of(data@),
{
    if end < data.len() {
        slice_to_vec(slice_subrange(data, end + 4, data.len()))
    } else {
        Vec::new()
    }
}

/// Reads a request out of the bytes that came from a client.
pub fn read_request(data: &[u8]) -> (request: Option<HttpRequest>)
    ensures
        request is Some <==> request_in(data@) is Some,
        request matches Some(r) ==> Some(r@) == request_in(data@),
{
    let end = find_blank_line(data, 0);
    let text = match utf8_text(slice_subrange(data, 0, end)) {
        Some(text) => text,
        None => {
            return None;
        },
    };
    proof {
        vstd::utf8::encode_utf8_decode_utf8(text@);
    }
    let chars = to_chars(text);
    let parts = split_request_line(&chars);
    if parts.method_end == 0 || parts.target_start == parts.target_end {
        return None;
    }
    let eol = find_char(&chars, '\n', 0);
    let headers = match read_headers(text, &chars, eol) {
        Some(headers) => headers,
        None => {
            return None;
        },
    };
    let version = if parts.target_end < parts.line_end {
        proof {
            let line = request_line(chars@);
            assert(line.subrange(parts.target_end as int + 1, line.len() as int) =~= chars@.subrange(
                parts.target_end as int + 1,
                parts.line_end as int,
            ));
        }
        read_version(&chars, parts.target_end + 1, parts.line_end)
    } else {
        proof {
            assert(chars@.subrange(parts.line_end as int, parts.line_end as int) =~= Seq::<
                char,
            >::empty());
        }
        read_version(&chars, parts.line_end, parts.line_end)
    };
    Some(
        HttpRequest {
            method: text.substring_char(0, parts.method_end).to_owned(),
            uri: text.substring_char(parts.target_start, parts.target_end).to_owned(),
            version,
            headers,
            body: read_body(data, end),
        },
    )
}

/// Whether a character is a decimal digit.
pub open spec fn is_digit(c: char) -> bool {
    '0' <= c <= '9'
}

/// The status code that a status names: the three digits it begins with,
/// where it ends after them or goes on with a space.
pub open spec fn status_code(status: Seq<char>) -> Option<u16> {
    if status.len() >= 3 && is_digit(status[0]) && is_digit(status[1]) && is_digit(status[2]) && (
    status.len() == 3 || status[3] == ' ') {
        Some(
            (100 * (status[0] as u8 - 48) + 10 * (status[1] as u8 - 48) + (status[2] as u8
                - 48)) as u16,
        )
    } else {
        None
    }
}

fn read_code(chars: &Vec<char>, from: usize, to: usize) -> (code: Option<u16>)
    requires
        from <= to <= chars.len(),
    ensures
        code == status_code(chars@.subrange(from as int, to as int)),
{
    if to - from < 3 {
        return None;
    }
    let a = chars[from];
    let b = chars[from + 1];
    let c = chars[from + 2];
    if !('0' <= a && a <= '9' && '0' <= b && b <= '9' && '0' <= c && c <= '9') {
        return None;
    }
    if to - from > 3 && chars[from + 3] != ' ' {
        return None;
    }
    let hundreds: u16 = (a as u8 - 48) as u16;
    let tens: u16 = (b as u8 - 48) as u16;
    let ones: u16 = (c as u8 - 48) as u16;
    Some(100 * hundreds + 10 * tens + ones)
}

/// The response that the bytes `data` hold. The head must be text, its
/// first line must name a version and, after a space, a status that
/// begins with a code, and every line after it must hold a header; bytes
/// of another shape hold no response.
pub open spec fn response_in(data: Seq<u8>) -> Option<HttpResponseView> {
    let text = decode_utf8(head_of(data));
    let line = request_line(text);
    let space = find(line, ' ', 0);
    if !valid_utf8(head_of(data)) || space == 0 || space >= line.len() {
        None
    } else {
        match (
            status_code(line.subrange(space + 1, line.len() as int)),
            headers_from(text, find(text, '\n', 0) + 1),
        ) {
            (Some(code), Some(headers)) => Some(
                HttpResponseView {
                    code,
                    status: line.subrange(space + 1, line.len() as int),
                    version: version_of(line.subrange(0, space)),
                    headers,
                    body: body_of(data),
                },
            ),
            _ => None,
        }
    }
}

/// Reads a response out of the bytes that came from an origin server.
pub fn read_response(data: &[u8]) -> (response: Option<HttpResponse>)
    ensures
        response is Some <==> response_in(data@) is Some,
        response matches Some(r) ==> Some(r@) == response_in(data@),
{
    let end = find_blank_line(data, 0);
    let text = match utf8_text(slice_subrange(data, 0, end)) {
        Some(text) => text,
        None => {
            return None;
        },
    };
    proof {
        vstd::utf8::encode_utf8_decode_utf8(text@);
    }
    let chars = to_chars(text);
    let parts = split_request_line(&chars);
    let space = parts.method_end;
    if space == 0 || space >= parts.line_end {
        return None;
    }
    proof {
        let line = request_line(chars@);
        assert(line.subrange(space as int + 1, line.len() as int) =~= chars@.subrange(
            space as int + 1,
            parts.line_end as int,
        ));
        assert(line.subrange(0, space as int) =~= chars@.subrange(0, space as int));
    }
    let code = match read_code(&chars, space + 1, parts.line_end) {
        Some(code) => code,
        None => {
            return None;
        },
    };
    let eol = find_char(&chars, '\n', 0);
    let headers = match read_headers(text, &chars, eol) {
        Some(headers) => headers,
        None => {
            return None;
        },
    };
    Some(
        HttpResponse {
            code,
            status: text.substring_char(space + 1, parts.line_end).to_owned(),
            version: read_version(&chars, 0, space),
            headers,
            body: read_body(data, end),
        },
    )
}

} // verus!
