//! Where a message ends: the length of a body is the one its headers
//! declare, or the one its chunks add up to, or, for a response that
//! declares neither, all that comes until the connection closes.

use vstd::prelude::*;
use vstd::slice::{slice_subrange, slice_to_vec};
use crate::exchange::headers_view;
use crate::message::{HttpRequest, HttpRequestView, HttpResponse, HttpResponseView};
use crate::text::{ascii_lower, lower_char, to_chars};
use crate::wire::{
    find_blank_line, head_end, read_request, read_response, request_in, response_in,
};

verus! {

/// Whether two header names are the same name: they are, where they
/// differ in the case of letters only.
pub open spec fn same_name(a: Seq<char>, b: Seq<char>) -> bool {
    a.map_values(|c: char| ascii_lower(c)) == b.map_values(|c: char| ascii_lower(c))
}

/// The value of the first header called `name`, if there is one.
pub open spec fn header_value(headers: Seq<(Seq<char>, Seq<char>)>, name: Seq<char>) -> Option<
    Seq<char>,
>
    decreases headers.len(),
{
    if headers.len() == 0 {
        None
    } else if same_name(headers[0].0, name) {
        Some(headers[0].1)
    } else {
        header_value(headers.drop_first(), name)
    }
}

fn names_match(a: &Vec<char>, b: &Vec<char>) -> (same: bool)
    ensures
        same == same_name(a@, b@),
{
    let ghost la = a@.map_values(|c: char| ascii_lower(c));
    let ghost lb = b@.map_values(|c: char| ascii_lower(c));
    if a.len() != b.len() {
        assert(la.len() != lb.len());
        return false;
    }
    let mut i: usize = 0;
    while i < a.len()
        invariant
            a.len() == b.len(),
            i <= a.len(),
            la == a@.map_values(|c: char| ascii_lower(c)),
            lb == b@.map_values(|c: char| ascii_lower(c)),
            forall|j: int| 0 <= j < i ==> la[j] == lb[j],
        decreases a.len() - i,
    {
        if lower_char(a[i]) != lower_char(b[i]) {
            assert(la[i as int] != lb[i as int]);
            return false;
        }
        i += 1;
    }
    assert(la =~= lb);
    true
}

/// Finds the first header called `name` and gives the place where it
/// stands.
pub fn find_header(headers: &Vec<(String, String)>, name: &str) -> (at: Option<usize>)
    ensures
        match at {
            Some(i) => i < headers.len() && header_value(
                headers_view(headers@),
                name@,
            ) == Some(headers[i as int].1@),
            None => header_value(headers_view(headers@), name@) is None,
        },
{
    let wanted = to_chars(name);
    let ghost all = headers_view(headers@);
    let mut i: usize = 0;
    assert(all.skip(0) =~= all);
    while i < headers.len()
        invariant
            i <= headers.len(),
            wanted@ == name@,
            all == headers_view(headers@),
            header_value(all, name@) == header_value(all.skip(i as int), name@),
        decreases headers.len() - i,
    {
        let found = to_chars(headers[i].0.as_str());
        proof {
            let rest = all.skip(i as int);
            assert(rest[0] == all[i as int]);
            assert(rest.drop_first() =~= all.skip(i as int + 1));
        }
        if names_match(&found, &wanted) {
            return Some(i);
        }
        i += 1;
    }
    assert(all.skip(i as int).len() == 0);
    None
}

/// The number that a text of decimal digits writes. A text that is empty
/// or holds anything but digits writes none.
pub open spec fn number_of(text: Seq<char>) -> Option<nat>
    decreases text.len(),
{
    if text.len() == 0 {
        None
    } else if !('0' <= text.last() <= '9') {
        None
    } else if text.len() == 1 {
        Some((text.last() as u8 - 48) as nat)
    } else {
        match number_of(text.drop_last()) {
            Some(n) => Some(n * 10 + (text.last() as u8 - 48) as nat),
            None => None,
        }
    }
}

/// Reads a number written in decimal digits. Gives nothing where the text
/// writes no number or one that is too large for the machine.
pub fn read_number(text: &str) -> (number: Option<usize>)
    ensures
        match number {
            Some(n) => number_of(text@) == Some(n as nat),
            None => number_of(text@) is None || number_of(text@)->0 > usize::MAX,
        },
{
    let chars = to_chars(text);
    if chars.len() == 0 {
        return None;
    }
    let mut n: usize = 0;
    let mut i: usize = 0;
    while i < chars.len()
        invariant
            i <= chars.len(),
            chars@ == text@,
            chars.len() > 0,
            i > 0 ==> number_of(chars@.take(i as int)) == Some(n as nat),
            i == 0 ==> n == 0,
        decreases chars.len() - i,
    {
        let c = chars[i];
        proof {
            assert(chars@.take(i as int + 1).drop_last() =~= chars@.take(i as int));
            assert(chars@.take(i as int + 1).last() == c);
        }
        if !('0' <= c && c <= '9') {
            proof {
                lemma_not_a_number(chars@, i as int);
            }
            return None;
        }
        let d = (c as u8 - 48) as usize;
        if n > (usize::MAX - d) / 10 {
            proof {
                assert(n * 10 + d > usize::MAX);
                lemma_number_grows(chars@, i as int + 1);
            }
            return None;
        }
        n = n * 10 + d;
        i += 1;
    }
    assert(chars@.take(i as int) =~= chars@);
    Some(n)
}

/// A text with a character that is no digit writes no number.
proof fn lemma_not_a_number(text: Seq<char>, at: int)
    requires
        0 <= at < text.len(),
        !('0' <= text[at] <= '9'),
    ensures
        number_of(text) is None,
    decreases text.len(),
{
    if at < text.len() - 1 {
        lemma_not_a_number(text.drop_last(), at);
    }
}

/// A number is no smaller than the number that its first digits write.
proof fn lemma_number_grows(text: Seq<char>, len: int)
    requires
        0 < len <= text.len(),
        number_of(text.take(len)) is Some,
    ensures
        number_of(text) is Some ==> number_of(text)->0 >= number_of(text.take(len))->0,
    decreases text.len(),
{
    if len == text.len() {
        assert(text.take(len) =~= text);
    } else {
        assert(text.drop_last().take(len) =~= text.take(len));
        lemma_number_grows(text.drop_last(), len);
    }
}

/// Where the first line break stands at or after `from`: a carriage
/// return with a line feed behind it. Where none stands, the length of
/// the input.
pub open spec fn line_break(input: Seq<u8>, from: int) -> int
    decreases input.len() - from,
{
    if from < 0 || from + 1 >= input.len() {
        input.len() as int
    } else if input[from] == 13 && input[from + 1] == 10 {
        from
    } else {
        line_break(input, from + 1)
    }
}

proof fn lemma_line_break(input: Seq<u8>, from: int)
    requires
        0 <= from <= input.len(),
    ensures
        from <= line_break(input, from) <= input.len(),
        line_break(input, from) < input.len() ==> line_break(input, from) + 2 <= input.len(),
    decreases input.len() - from,
{
    if from + 1 < input.len() && !(input[from] == 13 && input[from + 1] == 10) {
        lemma_line_break(input, from + 1);
    }
}

fn find_line_break(input: &[u8], from: usize) -> (at: usize)
    requires
        from <= input.len(),
    ensures
        at == line_break(input@, from as int),
        from <= at <= input.len(),
        at < input.len() ==> at + 2 <= input.len(),
{
    let n = input.len();
    let mut at = from;
    while n - at >= 2
        invariant
            n == input.len(),
            from <= at <= n,
            line_break(input@, from as int) == line_break(input@, at as int),
        decreases n - at,
    {
        if input[at] == 13 && input[at + 1] == 10 {
            return at;
        }
        at += 1;
    }
    n
}

/// The value of a hexadecimal digit.
pub open spec fn hex_value(b: u8) -> Option<nat> {
    if 48 <= b <= 57 {
        Some((b - 48) as nat)
    } else if 97 <= b <= 102 {
        Some((b - 87) as nat)
    } else if 65 <= b <= 70 {
        Some((b - 55) as nat)
    } else {
        None
    }
}

/// The number that a run of hexadecimal digits writes. A run that is
/// empty or holds anything but such digits writes none.
pub open spec fn hex_number(digits: Seq<u8>) -> Option<nat>
    decreases digits.len(),
{
    if digits.len() == 0 {
        None
    } else {
        match hex_value(digits.last()) {
            None => None,
            Some(d) => if digits.len() == 1 {
                Some(d)
            } else {
                match hex_number(digits.drop_last()) {
                    Some(n) => Some(n * 16 + d),
                    None => None,
                }
            },
        }
    }
}

/// Where the digits of a chunk's size end in its size line: at the
/// first semicolon, or at the end of the line.
pub open spec fn size_end(line: Seq<u8>, from: int) -> int
    decreases line.len() - from,
{
    if from < 0 || from >= line.len() {
        line.len() as int
    } else if line[from] == 59 {
        from
    } else {
        size_end(line, from + 1)
    }
}

/// The size that a chunk's size line declares.
pub open spec fn chunk_size(line: Seq<u8>) -> Option<nat> {
    hex_number(line.take(size_end(line, 0)))
}

/// What reading a size gave.
enum Size {
    Is(usize),
    TooLarge,
    Unreadable,
}

proof fn lemma_not_hex(digits: Seq<u8>, at: int)
    requires
        0 <= at < digits.len(),
        hex_value(digits[at]) is None,
    ensures
        hex_number(digits) is None,
    decreases digits.len(),
{
    if at < digits.len() - 1 {
        lemma_not_hex(digits.drop_last(), at);
    }
}

proof fn lemma_hex_grows(digits: Seq<u8>, len: int)
    requires
        0 < len <= digits.len(),
        hex_number(digits.take(len)) is Some,
    ensures
        hex_number(digits) is Some ==> hex_number(digits)->0 >= hex_number(digits.take(len))->0,
    decreases digits.len(),
{
    if len == digits.len() {
        assert(digits.take(len) =~= digits);
    } else {
        assert(digits.drop_last().take(len) =~= digits.take(len));
        lemma_hex_grows(digits.drop_last(), len);
    }
}

fn hex_digit(b: u8) -> (d: Option<usize>)
    ensures
        match d {
            Some(v) => hex_value(b) == Some(v as nat) && v < 16,
            None => hex_value(b) is None,
        },
{
    if 48 <= b && b <= 57 {
        Some((b - 48) as usize)
    } else if 97 <= b && b <= 102 {
        Some((b - 87) as usize)
    } else if 65 <= b && b <= 70 {
        Some((b - 55) as usize)
    } else {
        None
    }
}

fn read_chunk_size(input: &[u8], from: usize, to: usize) -> (size: Size)
    requires
        from <= to <= input.len(),
    ensures
        match size {
            Size::Is(n) => chunk_size(input@.subrange(from as int, to as int)) == Some(n as nat),
            Size::TooLarge => (chunk_size(input@.subrange(from as int, to as int)) matches Some(
                n,
            ) && n > usize::MAX),
            Size::Unreadable => chunk_size(input@.subrange(from as int, to as int)) is None,
        },
{
    let ghost line = input@.subrange(from as int, to as int);
    let mut end = from;
    while end < to && input[end] != 59
        invariant
            from <= end <= to <= input.len(),
            line == input@.subrange(from as int, to as int),
            size_end(line, 0) == size_end(line, end - from),
        decreases to - end,
    {
        end += 1;
    }
    let ghost digits = line.take(end - from);
    assert(digits =~= input@.subrange(from as int, end as int));
    assert(size_end(line, 0) == end - from);
    assert(chunk_size(line) == hex_number(digits));
    if end == from {
        return Size::Unreadable;
    }
    let mut n: usize = 0;
    let mut large = false;
    let mut i = from;
    while i < end
        invariant
            from <= i <= end <= input.len(),
            from < end,
            digits == input@.subrange(from as int, end as int),
            chunk_size(input@.subrange(from as int, to as int)) == hex_number(digits),
            i > from && !large ==> hex_number(digits.take(i - from)) == Some(n as nat),
            i > from && large ==> (hex_number(digits.take(i - from)) matches Some(v) && v
                > usize::MAX),
            i == from ==> n == 0 && !large,
        decreases end - i,
    {
        proof {
            assert(digits.take(i - from + 1).drop_last() =~= digits.take(i - from));
            assert(digits.take(i - from + 1).last() == input@[i as int]);
        }
        match hex_digit(input[i]) {
            None => {
                proof {
                    lemma_not_hex(digits, i - from);
                }
                return Size::Unreadable;
            },
            Some(d) => {
                if large || n > (usize::MAX - d) / 16 {
                    large = true;
                } else {
                    n = n * 16 + d;
                }
            },
        }
        i += 1;
    }
    assert(digits.take(end - from) =~= digits);
    if large {
        Size::TooLarge
    } else {
        Size::Is(n)
    }
}

/// How far a body has come.
pub enum Body {
    /// The body is whole: these are its bytes, and `used` bytes of the
    /// input held it.
    Whole { payload: Vec<u8>, used: usize },
    /// More is to come. These are the bytes of the body so far.
    Partial { payload: Vec<u8> },
    /// The input does not frame a body.
    Malformed,
}

/// The content of a `Body`.
pub enum BodyView {
    Whole { payload: Seq<u8>, used: int },
    Partial { payload: Seq<u8> },
    Malformed,
}

impl View for Body {
    type V = BodyView;

    open spec fn view(&self) -> BodyView {
        match self {
            Body::Whole { payload, used } => BodyView::Whole { payload: payload@, used: *used as int },
            Body::Partial { payload } => BodyView::Partial { payload: payload@ },
            Body::Malformed => BodyView::Malformed,
        }
    }
}

/// A body of a declared length: the first `len` bytes of the input, once
/// so many have come.
pub open spec fn sized(input: Seq<u8>, len: nat) -> BodyView {
    if input.len() >= len {
        BodyView::Whole { payload: input.take(len as int), used: len as int }
    } else {
        BodyView::Partial { payload: input }
    }
}

/// A body in chunks, read from the place `from` on, with `payload` read
/// before. Each chunk is a line with its size in hexadecimal digits, so
/// many bytes, and a line break. A chunk of size zero is the last; the
/// body ends with the first empty line from there on.
pub open spec fn chunked(input: Seq<u8>, from: int, payload: Seq<u8>) -> BodyView
    decreases input.len() - from,
{
    let eol = line_break(input, from);
    if from < 0 || eol < from || eol >= input.len() {
        BodyView::Partial { payload }
    } else {
        match chunk_size(input.subrange(from, eol)) {
            None => BodyView::Malformed,
            Some(size) => if size == 0 {
                if head_end(input, eol) < input.len() {
                    BodyView::Whole { payload, used: head_end(input, eol) + 4 }
                } else {
                    BodyView::Partial { payload }
                }
            } else if eol + 2 + size > input.len() {
                BodyView::Partial { payload: payload + input.subrange(eol + 2, input.len() as int) }
            } else if eol + 2 + size + 2 > input.len() {
                BodyView::Partial { payload: payload + input.subrange(eol + 2, eol + 2 + size) }
            } else if input[eol + 2 + size] != 13 || input[eol + 2 + size + 1] != 10 {
                BodyView::Malformed
            } else {
                chunked(input, eol + 2 + size + 2, payload + input.subrange(eol + 2, eol + 2 + size))
            },
        }
    }
}

fn append_part(payload: &mut Vec<u8>, input: &[u8], from: usize, to: usize)
    requires
        from <= to <= input.len(),
    ensures
        final(payload)@ == old(payload)@ + input@.subrange(from as int, to as int),
{
    let mut part = slice_to_vec(slice_subrange(input, from, to));
    payload.append(&mut part);
}

/// Reads a body that comes in chunks.
pub fn read_chunked(input: &[u8]) -> (body: Body)
    ensures
        body@ == chunked(input@, 0, Seq::empty()),
        body matches Body::Whole { used, .. } ==> used <= input.len(),
{
    let n = input.len();
    let mut payload: Vec<u8> = Vec::new();
    let mut from: usize = 0;
    loop
        invariant
            n == input.len(),
            from <= n,
            chunked(input@, 0, Seq::empty()) == chunked(input@, from as int, payload@),
        decreases n - from,
    {
        let eol = find_line_break(input, from);
        if eol >= n {
            return Body::Partial { payload };
        }
        let start = eol + 2;
        match read_chunk_size(input, from, eol) {
            Size::Unreadable => {
                return Body::Malformed;
            },
            Size::TooLarge => {
                append_part(&mut payload, input, start, n);
                return Body::Partial { payload };
            },
            Size::Is(size) => {
                if size == 0 {
                    let end = find_blank_line(input, eol);
                    if end < n {
                        return Body::Whole { payload, used: end + 4 };
                    } else {
                        return Body::Partial { payload };
                    }
                }
                if size > n - start {
                    append_part(&mut payload, input, start, n);
                    return Body::Partial { payload };
                }
                append_part(&mut payload, input, start, start + size);
                if n - start - size < 2 {
                    return Body::Partial { payload };
                }
                if input[start + size] != 13 || input[start + size + 1] != 10 {
                    return Body::Malformed;
                }
                from = start + size + 2;
            },
        }
    }
}

/// Whether headers say that the body comes in chunks.
pub open spec fn is_chunked(headers: Seq<(Seq<char>, Seq<char>)>) -> bool {
    match header_value(headers, "transfer-encoding"@) {
        Some(coding) => same_name(coding, "chunked"@),
        None => false,
    }
}

/// The body of a request with the given headers, as far as `input` holds
/// it. It comes in chunks where the headers say so; else it has the
/// length they declare; else it is empty.
pub open spec fn request_body(headers: Seq<(Seq<char>, Seq<char>)>, input: Seq<u8>) -> BodyView {
    if is_chunked(headers) {
        chunked(input, 0, Seq::empty())
    } else {
        match header_value(headers, "content-length"@) {
            Some(length) => match number_of(length) {
                Some(len) => sized(input, len),
                None => BodyView::Malformed,
            },
            None => BodyView::Whole { payload: Seq::empty(), used: 0 },
        }
    }
}

/// The body of a response with the given headers, as far as `input` holds
/// it. It comes in chunks where the headers say so; else it has the
/// length they declare; else it goes on until the connection closes.
pub open spec fn response_body(headers: Seq<(Seq<char>, Seq<char>)>, input: Seq<u8>) -> BodyView {
    if is_chunked(headers) {
        chunked(input, 0, Seq::empty())
    } else {
        match header_value(headers, "content-length"@) {
            Some(length) => match number_of(length) {
                Some(len) => sized(input, len),
                None => BodyView::Malformed,
            },
            None => BodyView::Partial { payload: input },
        }
    }
}

fn says_chunked(headers: &Vec<(String, String)>) -> (chunked: bool)
    ensures
        chunked == is_chunked(headers_view(headers@)),
{
    match find_header(headers, "transfer-encoding") {
        Some(i) => {
            let coding = to_chars(headers[i].1.as_str());
            let wanted = to_chars("chunked");
            names_match(&coding, &wanted)
        },
        None => false,
    }
}

/// The body that the headers declare by its length, as far as `input`
/// holds it; nothing where they declare no length.
fn read_sized(headers: &Vec<(String, String)>, input: &[u8]) -> (body: Option<Body>)
    ensures
        match header_value(headers_view(headers@), "content-length"@) {
            Some(length) => body matches Some(b) && b@ == match number_of(length) {
                Some(len) => sized(input@, len),
                None => BodyView::Malformed,
            },
            None => body is None,
        },
        body matches Some(Body::Whole { used, .. }) ==> used <= input.len(),
{
    match find_header(headers, "content-length") {
        Some(i) => {
            let declared = read_number(headers[i].1.as_str());
            let ghost length = headers[i as int].1@;
            match declared {
                Some(len) => {
                    assert(number_of(length) == Some(len as nat));
                    if input.len() >= len {
                        let payload = slice_to_vec(slice_subrange(input, 0, len));
                        assert(payload@ =~= input@.take(len as int));
                        Some(Body::Whole { payload, used: len })
                    } else {
                        Some(Body::Partial { payload: slice_to_vec(input) })
                    }
                },
                None => {
                    if is_number(headers[i].1.as_str()) {
                        let held = input.len();
                        assert(number_of(length)->0 > held);
                        Some(Body::Partial { payload: slice_to_vec(input) })
                    } else {
                        Some(Body::Malformed)
                    }
                },
            }
        },
        None => None,
    }
}

/// Tells whether a text writes a number, however large.
fn is_number(text: &str) -> (number: bool)
    ensures
        number == number_of(text@) is Some,
{
    let chars = to_chars(text);
    if chars.len() == 0 {
        return false;
    }
    let mut i: usize = 0;
    while i < chars.len()
        invariant
            i <= chars.len(),
            chars@ == text@,
            chars.len() > 0,
            i > 0 ==> number_of(chars@.take(i as int)) is Some,
        decreases chars.len() - i,
    {
        let c = chars[i];
        proof {
            assert(chars@.take(i as int + 1).drop_last() =~= chars@.take(i as int));
            assert(chars@.take(i as int + 1).last() == c);
        }
        if !('0' <= c && c <= '9') {
            proof {
                lemma_not_a_number(chars@, i as int);
            }
            return false;
        }
        i += 1;
    }
    assert(chars@.take(i as int) =~= chars@);
    true
}

/// Reads the body of a request with the given headers out of the bytes
/// that follow its head.
pub fn read_request_body(headers: &Vec<(String, String)>, input: &[u8]) -> (body: Body)
    ensures
        body@ == request_body(headers_view(headers@), input@),
        body matches Body::Whole { used, .. } ==> used <= input.len(),
{
    if says_chunked(headers) {
        read_chunked(input)
    } else {
        match read_sized(headers, input) {
            Some(body) => body,
            None => Body::Whole { payload: Vec::new(), used: 0 },
        }
    }
}

/// Reads the body of a response with the given headers out of the bytes
/// that follow its head.
pub fn read_response_body(headers: &Vec<(String, String)>, input: &[u8]) -> (body: Body)
    ensures
        body@ == response_body(headers_view(headers@), input@),
        body matches Body::Whole { used, .. } ==> used <= input.len(),
{
    if says_chunked(headers) {
        read_chunked(input)
    } else {
        match read_sized(headers, input) {
            Some(body) => body,
            None => Body::Partial { payload: slice_to_vec(input) },
        }
    }
}

/// How far a message has come.
pub enum Framed<M> {
    /// The message is whole, and `used` bytes of the input held it.
    Whole { message: M, used: usize },
    /// More is to come: read on.
    Partial,
    /// The connection closed before the end of the body: this is the
    /// message with its body as far as it came.
    Ended { message: M },
    /// The input holds no message.
    Malformed,
}

/// The content of a `Framed`.
pub enum FramedView<V> {
    Whole { message: V, used: int },
    Partial,
    Ended { message: V },
    Malformed,
}

/// A request as far as the bytes `data` hold it. It is whole once its
/// head and the body that the head declares have come.
pub open spec fn framed_request(data: Seq<u8>) -> FramedView<HttpRequestView> {
    if head_end(data, 0) >= data.len() {
        FramedView::Partial
    } else {
        match request_in(data) {
            None => FramedView::Malformed,
            Some(request) => match request_body(request.headers, request.body) {
                BodyView::Whole { payload, used } => FramedView::Whole {
                    message: HttpRequestView { body: payload, ..request },
                    used: head_end(data, 0) + 4 + used,
                },
                BodyView::Partial { .. } => FramedView::Partial,
                BodyView::Malformed => FramedView::Malformed,
            },
        }
    }
}

/// A response as far as the bytes `data` hold it, where `closed` tells
/// whether the connection has closed. It is whole once its head and the
/// body that the head declares have come. Where the connection closes
/// before that, the response ends with the body as far as it came; where
/// it closes before the head is whole, there is no response.
pub open spec fn framed_response(data: Seq<u8>, closed: bool) -> FramedView<HttpResponseView> {
    if head_end(data, 0) >= data.len() {
        if closed {
            FramedView::Malformed
        } else {
            FramedView::Partial
        }
    } else {
        match response_in(data) {
            None => FramedView::Malformed,
            Some(response) => match response_body(response.headers, response.body) {
                BodyView::Whole { payload, used } => FramedView::Whole {
                    message: HttpResponseView { body: payload, ..response },
                    used: head_end(data, 0) + 4 + used,
                },
                BodyView::Partial { payload } => if closed {
                    FramedView::Ended { message: HttpResponseView { body: payload, ..response } }
                } else {
                    FramedView::Partial
                },
                BodyView::Malformed => FramedView::Malformed,
            },
        }
    }
}

/// Whether a result holds what a view of it says.
pub open spec fn frames_request(out: Framed<HttpRequest>, view: FramedView<HttpRequestView>) -> bool {
    match (out, view) {
        (Framed::Whole { message, used }, FramedView::Whole { message: m, used: u }) => message@
            == m && used == u,
        (Framed::Partial, FramedView::Partial) => true,
        (Framed::Ended { message }, FramedView::Ended { message: m }) => message@ == m,
        (Framed::Malformed, FramedView::Malformed) => true,
        _ => false,
    }
}

/// Whether a result holds what a view of it says.
pub open spec fn frames_response(out: Framed<HttpResponse>, view: FramedView<HttpResponseView>) ->
    bool {
    match (out, view) {
        (Framed::Whole { message, used }, FramedView::Whole { message: m, used: u }) => message@
            == m && used == u,
        (Framed::Partial, FramedView::Partial) => true,
        (Framed::Ended { message }, FramedView::Ended { message: m }) => message@ == m,
        (Framed::Malformed, FramedView::Malformed) => true,
        _ => false,
    }
}

/// Reads a request out of the bytes read from a client so far, and tells
/// whether it is whole.
pub fn frame_request(data: &[u8]) -> (out: Framed<HttpRequest>)
    ensures
        frames_request(out, framed_request(data@)),
{
    let end = find_blank_line(data, 0);
    if end >= data.len() {
        return Framed::Partial;
    }
    match read_request(data) {
        None => Framed::Malformed,
        Some(request) => {
            let HttpRequest { method, uri, version, headers, body } = request;
            match read_request_body(&headers, body.as_slice()) {
                Body::Whole { payload, used } => {
                    Framed::Whole {
                        message: HttpRequest { method, uri, version, headers, body: payload },
                        used: end + 4 + used,
                    }
                },
                Body::Partial { .. } => Framed::Partial,
                Body::Malformed => Framed::Malformed,
            }
        },
    }
}

/// Reads a response out of the bytes read from an origin server so far,
/// and tells whether it is whole. `closed` tells whether the connection
/// has closed.
pub fn frame_response(data: &[u8], closed: bool) -> (out: Framed<HttpResponse>)
    ensures
        frames_response(out, framed_response(data@, closed)),
{
    let end = find_blank_line(data, 0);
    if end >= data.len() {
        if closed {
            return Framed::Malformed;
        } else {
            return Framed::Partial;
        }
    }
    match read_response(data) {
        None => Framed::Malformed,
        Some(response) => {
            let HttpResponse { code, status, version, headers, body } = response;
            match read_response_body(&headers, body.as_slice()) {
                Body::Whole { payload, used } => {
                    Framed::Whole {
                        message: HttpResponse { code, status, version, headers, body: payload },
                        used: end + 4 + used,
                    }
                },
                Body::Partial { payload } => {
                    if closed {
                        Framed::Ended {
                            message: HttpResponse { code, status, version, headers, body: payload },
                        }
                    } else {
                        Framed::Partial
                    }
                },
                Body::Malformed => Framed::Malformed,
            }
        },
    }
}

} // verus!
