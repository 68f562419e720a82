//! HTTP responses and the bytes that are sent for them.

use crate::codec::{document_view, json_bytes, normal, write_json};
use crate::json::{Json, JsonTree};
use crate::request::{announced_length, header, header_end, header_map, MAX_HTTP_BODY_BYTES};
use crate::text::{
    concat3, decimal, decimal_reads_back, decimal_text, digit, digits_value, find, find_is_first,
    first_is_find, lowercase, occurs_at, optional_text, parsed_usize, split, string_texts,
    trim_start, trimmed, whitespace,
};
use vstd::prelude::*;
use vstd::string::StringExecFns;
use vstd::utf8::{
    decode_utf8, decode_utf8_first_scalar, decode_utf8_split, encode_utf8, encode_utf8_decode_utf8,
    encode_utf8_valid_utf8, is_ascii_chars, is_ascii_chars_encode_utf8,
    is_char_boundary_iff_not_is_continuation_byte, valid_utf8_split,
};

verus! {

/// A response.
pub struct ResponseView {
    pub status: u16,
    pub reason: Seq<char>,
    pub content_type: Seq<char>,
    pub body: Seq<u8>,
    pub origin: Option<Seq<char>>,
}

/// A response.
#[derive(Debug)]
pub struct HttpResponse {
    pub status: u16,
    pub reason: &'static str,
    pub content_type: &'static str,
    pub body: Vec<u8>,
    /// The web origin that may read the response.
    pub origin: Option<String>,
}

impl View for HttpResponse {
    type V = ResponseView;

    open spec fn view(&self) -> ResponseView {
        ResponseView {
            status: self.status,
            reason: self.reason@,
            content_type: self.content_type@,
            body: self.body@,
            origin: optional_text(self.origin),
        }
    }
}

/// The body for a JSON value: the document that was written, or one that says
/// that none could be.
pub open spec fn body_of(document: Result<Seq<u8>, Seq<char>>) -> Seq<u8> {
    match document {
        Ok(bytes) => bytes,
        Err(_) => encode_utf8("{\"error\":\"Serialization failed.\"}"@),
    }
}

/// A response with a JSON value.
pub open spec fn json_response(
    status: u16,
    reason: Seq<char>,
    payload: JsonTree,
    origin: Option<Seq<char>>,
) -> ResponseView {
    ResponseView {
        status,
        reason,
        content_type: "application/json; charset=utf-8"@,
        body: body_of(json_bytes(normal(payload))),
        origin,
    }
}

/// A response with a text.
pub open spec fn text_response(
    status: u16,
    reason: Seq<char>,
    body: Seq<char>,
    origin: Option<Seq<char>>,
) -> ResponseView {
    ResponseView {
        status,
        reason,
        content_type: "text/plain; charset=utf-8"@,
        body: encode_utf8(body),
        origin,
    }
}

/// The body for a JSON document that was or was not written.
pub fn document_body(document: Result<Vec<u8>, String>) -> (body: Vec<u8>)
    ensures
        body@ == body_of(document_view(document)),
{
    match document {
        Ok(bytes) => bytes,
        Err(_) => bytes_of("{\"error\":\"Serialization failed.\"}"),
    }
}

/// The UTF-8 bytes of a text.
fn bytes_of(text: &str) -> (bytes: Vec<u8>)
    ensures
        bytes@ == encode_utf8(text@),
{
    let mut bytes: Vec<u8> = Vec::new();
    bytes.extend_from_slice(text.as_bytes());
    assert(bytes@ =~= encode_utf8(text@));
    bytes
}

impl HttpResponse {
    /// A response with a JSON value.
    pub fn json(
        status: u16,
        reason: &'static str,
        payload: &Json,
        origin: Option<String>,
    ) -> (response: Self)
        ensures
            response@ == json_response(
                status,
                reason@,
                payload.tree(),
                optional_text(origin),
            ),
    {
        HttpResponse {
            status,
            reason,
            content_type: "application/json; charset=utf-8",
            body: document_body(write_json(payload)),
            origin,
        }
    }

    /// A response with a text.
    pub fn text(
        status: u16,
        reason: &'static str,
        body: &str,
        origin: Option<String>,
    ) -> (response: Self)
        ensures
            response@ == text_response(status, reason@, body@, optional_text(origin)),
    {
        HttpResponse {
            status,
            reason,
            content_type: "text/plain; charset=utf-8",
            body: bytes_of(body),
            origin,
        }
    }

    /// A response without a body.
    pub fn empty(status: u16, reason: &'static str, origin: Option<String>) -> (response: Self)
        ensures
            response@ == (ResponseView {
                status,
                reason: reason@,
                content_type: "text/plain; charset=utf-8"@,
                body: Seq::empty(),
                origin: optional_text(origin),
            }),
    {
        HttpResponse {
            status,
            reason,
            content_type: "text/plain; charset=utf-8",
            body: Vec::new(),
            origin,
        }
    }
}

// ---------------------------------------------------------------------------
// On the wire
// ---------------------------------------------------------------------------

/// What ends a line.
pub open spec fn line_end() -> Seq<char> {
    seq!['\r', '\n']
}

/// Some lines, each with its end.
pub open spec fn terminated(lines: Seq<Seq<char>>) -> Seq<char>
    decreases lines.len(),
{
    if lines.len() == 0 {
        Seq::empty()
    } else {
        terminated(lines.drop_last()) + lines.last() + line_end()
    }
}

/// A header.
pub open spec fn header_line(name: Seq<char>, value: Seq<char>) -> Seq<char> {
    name + ": "@ + value
}

/// The first line of a response.
pub open spec fn status_line(status: u16, reason: Seq<char>) -> Seq<char> {
    "HTTP/1.1 "@ + decimal(status as nat) + " "@ + reason
}

/// The headers that every response carries.
pub open spec fn fixed_headers() -> Seq<Seq<char>> {
    seq![
        header_line("Connection"@, "close"@),
        header_line("Access-Control-Allow-Methods"@, "GET, POST, OPTIONS"@),
        header_line("Access-Control-Allow-Headers"@, "Content-Type, Authorization"@),
        header_line("Access-Control-Allow-Private-Network"@, "true"@),
        header_line("X-Content-Type-Options"@, "nosniff"@),
        header_line("Cache-Control"@, "no-store"@),
    ]
}

/// The headers that name the origin that may read a response.
pub open spec fn origin_headers(origin: Option<Seq<char>>) -> Seq<Seq<char>> {
    match origin {
        Some(origin) => seq![
            header_line("Access-Control-Allow-Origin"@, origin),
            header_line("Vary"@, "Origin"@),
        ],
        None => Seq::empty(),
    }
}

/// The headers of a response.
pub open spec fn response_headers(response: ResponseView) -> Seq<Seq<char>> {
    seq![
        header_line("Content-Type"@, response.content_type),
        header_line("Content-Length"@, decimal(response.body.len())),
    ] + fixed_headers() + origin_headers(response.origin)
}

/// The lines of a response before its body: the status, the headers and an
/// empty line.
pub open spec fn head_lines(response: ResponseView) -> Seq<Seq<char>> {
    seq![status_line(response.status, response.reason)] + response_headers(response) + seq![
        Seq::<char>::empty(),
    ]
}

/// What is sent for a response before its body.
pub open spec fn response_head(response: ResponseView) -> Seq<char> {
    terminated(head_lines(response))
}

/// The bytes that are sent for a response: its head, then its body.
pub open spec fn response_bytes(response: ResponseView) -> Seq<u8> {
    encode_utf8(response_head(response)) + response.body
}

/// Adds a header to some lines.
fn push_header(lines: &mut Vec<String>, name: &str, value: &str)
    ensures
        string_texts(final(lines)@) == string_texts(old(lines)@).push(header_line(name@, value@)),
{
    lines.push(concat3(name, ": ", value));
    assert(string_texts(lines@) =~= string_texts(old(lines)@).push(header_line(name@, value@)));
}

/// Adds the headers that every response carries.
fn push_fixed_headers(lines: &mut Vec<String>)
    ensures
        string_texts(final(lines)@) == string_texts(old(lines)@) + fixed_headers(),
{
    let ghost before = string_texts(lines@);
    push_header(lines, "Connection", "close");
    push_header(lines, "Access-Control-Allow-Methods", "GET, POST, OPTIONS");
    push_header(lines, "Access-Control-Allow-Headers", "Content-Type, Authorization");
    push_header(lines, "Access-Control-Allow-Private-Network", "true");
    push_header(lines, "X-Content-Type-Options", "nosniff");
    push_header(lines, "Cache-Control", "no-store");
    assert(string_texts(lines@) =~= before + fixed_headers());
}

/// Adds the headers that name the origin that may read a response.
fn push_origin_headers(lines: &mut Vec<String>, origin: &Option<String>)
    ensures
        string_texts(final(lines)@) == string_texts(old(lines)@) + origin_headers(
            optional_text(*origin),
        ),
{
    let ghost before = string_texts(lines@);
    if let Some(origin) = origin {
        push_header(lines, "Access-Control-Allow-Origin", origin.as_str());
        push_header(lines, "Vary", "Origin");
    }
    assert(string_texts(lines@) =~= before + origin_headers(optional_text(*origin)));
}

/// The lines of a response before its body.
fn lines_of(response: &HttpResponse) -> (lines: Vec<String>)
    ensures
        string_texts(lines@) == head_lines(response@),
{
    let status = decimal_text(response.status as u64);
    let length = decimal_text(response.body.len() as u64);
    let mut first = concat3("HTTP/1.1 ", status.as_str(), " ");
    first.append(response.reason);
    let mut lines: Vec<String> = vec![first];
    assert(string_texts(lines@) =~= seq![status_line(response@.status, response@.reason)]);
    push_header(&mut lines, "Content-Type", response.content_type);
    push_header(&mut lines, "Content-Length", length.as_str());
    push_fixed_headers(&mut lines);
    push_origin_headers(&mut lines, &response.origin);
    let ghost before = string_texts(lines@);
    assert(before =~= seq![status_line(response@.status, response@.reason)] + response_headers(
        response@,
    ));
    let nothing = String::new();
    assert(nothing@ =~= Seq::<char>::empty());
    lines.push(nothing);
    assert(string_texts(lines@) =~= before.push(Seq::<char>::empty()));
    assert(string_texts(lines@) =~= head_lines(response@));
    lines
}

/// Writes the bytes that are sent for a response.
pub fn write_http_response(response: &HttpResponse) -> (bytes: Vec<u8>)
    ensures
        bytes@ == response_bytes(response@),
{
    let lines = lines_of(response);
    let ghost texts = head_lines(response@);
    let mut head = String::new();
    assert(texts.take(0) =~= Seq::empty());
    assert(head@ =~= terminated(texts.take(0)));
    for i in 0..lines.len()
        invariant
            string_texts(lines@) == texts,
            head@ == terminated(texts.take(i as int)),
    {
        head.append(lines[i].as_str());
        head.append("\r\n");
        proof {
            reveal_strlit("\r\n");
        }
        assert("\r\n"@ =~= line_end());
        assert(texts[i as int] == lines@[i as int]@);
        assert(texts.take(i + 1).drop_last() =~= texts.take(i as int));
        assert(texts.take(i + 1).last() == texts[i as int]);
    }
    assert(texts.take(lines@.len() as int) =~= texts);
    let mut bytes = bytes_of(head.as_str());
    bytes.extend_from_slice(response.body.as_slice());
    assert(bytes@ =~= response_bytes(response@));
    bytes
}

// ---------------------------------------------------------------------------
// Reading a response back
// ---------------------------------------------------------------------------

/// Whether a text stays on one line: it has neither a carriage return nor a
/// line feed.
pub open spec fn one_line(text: Seq<char>) -> bool {
    forall|i: int| 0 <= i < text.len() ==> (#[trigger] text[i]) != '\r' && text[i] != '\n'
}

/// Whether a text has no carriage return, without which it cannot end a line.
pub open spec fn without_return(text: Seq<char>) -> bool {
    forall|i: int| 0 <= i < text.len() ==> (#[trigger] text[i]) != '\r'
}

/// A line that is first ended where it ends is the first part of a split.
proof fn first_line_splits(line: Seq<char>, rest: Seq<char>)
    requires
        without_return(line),
    ensures
        split(line + line_end() + rest, line_end()) == seq![line] + split(rest, line_end()),
{
    let all = line + line_end() + rest;
    let n = line.len() as int;
    assert(all.subrange(n, n + 2) =~= line_end());
    assert(occurs_at(all, line_end(), n));
    assert forall|j: int| 0 <= j < n implies !#[trigger] occurs_at(all, line_end(), j) by {
        if occurs_at(all, line_end(), j) {
            assert(all.subrange(j, j + 2)[0] == '\r');
            assert(all[j] == line[j]);
        }
    }
    first_is_find(all, line_end(), n);
    assert(all.take(n) =~= line);
    assert(all.skip(n + 2) =~= rest);
}

/// Lines with their ends, from the first line.
proof fn terminated_from_start(lines: Seq<Seq<char>>)
    requires
        lines.len() > 0,
    ensures
        terminated(lines) == lines[0] + line_end() + terminated(lines.drop_first()),
    decreases lines.len(),
{
    if lines.len() == 1 {
        assert(lines.drop_last() =~= Seq::empty());
        assert(lines.drop_first() =~= Seq::empty());
        assert(terminated(lines.drop_last()) =~= Seq::empty());
        assert(terminated(lines) =~= lines[0] + line_end() + terminated(lines.drop_first()));
    } else {
        terminated_from_start(lines.drop_last());
        assert(lines.drop_last().drop_first() =~= lines.drop_first().drop_last());
        assert(terminated(lines) =~= lines[0] + line_end() + terminated(lines.drop_first()));
    }
}

/// Lines that were ended and put together are found again where the text is
/// split, with nothing behind the last.
pub proof fn ended_lines_split(lines: Seq<Seq<char>>)
    requires
        forall|i: int| 0 <= i < lines.len() ==> without_return(#[trigger] lines[i]),
    ensures
        split(terminated(lines), line_end()) == lines.push(Seq::empty()),
    decreases lines.len(),
{
    if lines.len() == 0 {
        let nothing = terminated(lines);
        find_is_first(nothing, line_end());
        assert(nothing =~= Seq::empty());
        assert(split(nothing, line_end()) =~= lines.push(Seq::empty()));
    } else {
        let rest = lines.drop_first();
        assert forall|i: int| 0 <= i < rest.len() implies without_return(#[trigger] rest[i]) by {
            assert(rest[i] == lines[i + 1]);
        }
        ended_lines_split(rest);
        terminated_from_start(lines);
        assert(without_return(lines[0]));
        first_line_splits(lines[0], terminated(rest));
        assert(seq![lines[0]] + rest.push(Seq::empty()) =~= lines.push(Seq::empty()));
    }
}

/// Whether a text can be the name of a header.
spec fn plain_name(name: Seq<char>) -> bool {
    &&& name.len() > 0
    &&& without_return(name)
    &&& forall|i: int| 0 <= i < name.len() ==> (#[trigger] name[i]) != ':' && !whitespace(name[i])
}

/// A text without white space at its ends is trimmed.
proof fn trimmed_stays(s: Seq<char>)
    requires
        s.len() > 0,
        !whitespace(s[0]),
        !whitespace(s.last()),
    ensures
        trimmed(s) == s,
{
}

/// A header that is added to some lines is read with them.
proof fn header_is_read(lines: Seq<Seq<char>>, name: Seq<char>, value: Seq<char>)
    requires
        plain_name(name),
    ensures
        header_map(lines.push(header_line(name, value))) == header_map(lines).insert(
            lowercase(name),
            trimmed(" "@ + value),
        ),
{
    reveal_strlit(": ");
    reveal_strlit(" ");
    let line = header_line(name, value);
    let n = name.len() as int;
    assert(line.subrange(n, n + 1) =~= seq![':']);
    assert(occurs_at(line, seq![':'], n));
    assert forall|j: int| 0 <= j < n implies !#[trigger] occurs_at(line, seq![':'], j) by {
        if occurs_at(line, seq![':'], j) {
            assert(line.subrange(j, j + 1)[0] == ':');
            assert(line[j] == name[j]);
        }
    }
    first_is_find(line, seq![':'], n);
    assert(line.take(n) =~= name);
    assert(line.skip(n + 1) =~= " "@ + value);
    trimmed_stays(name);
    assert(lines.push(line).drop_last() =~= lines);
}

/// A number is read from behind the space that a header has before it.
proof fn number_behind_space(n: nat)
    ensures
        trimmed(" "@ + decimal(n)) == decimal(n),
{
    reveal_strlit(" ");
    let digits = decimal(n);
    let s = " "@ + digits;
    decimal_reads_back(n);
    assert(s.drop_first() =~= digits);
    assert(digit(digits[0]));
    assert(digit(digits[digits.len() - 1]));
    trimmed_stays(digits);
    assert(trim_start(digits) == digits);
    assert(trim_start(s) == trim_start(s.drop_first()));
}

/// A header of another name leaves the announced length as it is.
proof fn other_header_is_read(lines: Seq<Seq<char>>, name: Seq<char>, value: Seq<char>)
    requires
        plain_name(name),
        name.len() != "content-length"@.len(),
    ensures
        header(header_map(lines.push(header_line(name, value))), "content-length"@) == header(
            header_map(lines),
            "content-length"@,
        ),
{
    header_is_read(lines, name, value);
    assert(lowercase(name).len() == name.len());
}

/// An empty line is no header.
proof fn empty_line_is_no_header(lines: Seq<Seq<char>>)
    ensures
        header_map(lines.push(Seq::empty())) == header_map(lines),
{
    let nothing = Seq::<char>::empty();
    find_is_first(nothing, seq![':']);
    assert(lines.push(nothing).drop_last() =~= lines);
}

/// The headers that every response carries leave the announced length as it
/// is.
proof fn fixed_headers_are_read(lines: Seq<Seq<char>>)
    ensures
        header(header_map(lines + fixed_headers()), "content-length"@) == header(
            header_map(lines),
            "content-length"@,
        ),
        forall|i: int|
            0 <= i < fixed_headers().len() ==> without_return(#[trigger] fixed_headers()[i])
                && fixed_headers()[i].len() > 0,
{
    reveal_strlit("content-length");
    reveal_strlit(": ");
    reveal_strlit("Connection");
    reveal_strlit("close");
    reveal_strlit("Access-Control-Allow-Methods");
    reveal_strlit("GET, POST, OPTIONS");
    reveal_strlit("Access-Control-Allow-Headers");
    reveal_strlit("Content-Type, Authorization");
    reveal_strlit("Access-Control-Allow-Private-Network");
    reveal_strlit("true");
    reveal_strlit("X-Content-Type-Options");
    reveal_strlit("nosniff");
    reveal_strlit("Cache-Control");
    reveal_strlit("no-store");
    let fixed = fixed_headers();
    other_header_is_read(lines, "Connection"@, "close"@);
    let l1 = lines.push(fixed[0]);
    other_header_is_read(l1, "Access-Control-Allow-Methods"@, "GET, POST, OPTIONS"@);
    let l2 = l1.push(fixed[1]);
    other_header_is_read(l2, "Access-Control-Allow-Headers"@, "Content-Type, Authorization"@);
    let l3 = l2.push(fixed[2]);
    other_header_is_read(l3, "Access-Control-Allow-Private-Network"@, "true"@);
    let l4 = l3.push(fixed[3]);
    other_header_is_read(l4, "X-Content-Type-Options"@, "nosniff"@);
    let l5 = l4.push(fixed[4]);
    other_header_is_read(l5, "Cache-Control"@, "no-store"@);
    assert(lines + fixed =~= l5.push(fixed[5]));
}

/// The headers that name an origin leave the announced length as it is.
proof fn origin_headers_are_read(lines: Seq<Seq<char>>, origin: Option<Seq<char>>)
    requires
        origin matches Some(origin) ==> without_return(origin),
    ensures
        header(header_map(lines + origin_headers(origin)), "content-length"@) == header(
            header_map(lines),
            "content-length"@,
        ),
        forall|i: int|
            0 <= i < origin_headers(origin).len() ==> without_return(
                #[trigger] origin_headers(origin)[i],
            ) && origin_headers(origin)[i].len() > 0,
{
    reveal_strlit("content-length");
    reveal_strlit(": ");
    reveal_strlit("Access-Control-Allow-Origin");
    reveal_strlit("Vary");
    reveal_strlit("Origin");
    match origin {
        Some(value) => {
            let named = header_line("Access-Control-Allow-Origin"@, value);
            let vary = header_line("Vary"@, "Origin"@);
            other_header_is_read(lines, "Access-Control-Allow-Origin"@, value);
            other_header_is_read(lines.push(named), "Vary"@, "Origin"@);
            assert(lines + origin_headers(origin) =~= lines.push(named).push(vary));
        },
        None => {
            assert(lines + origin_headers(origin) =~= lines);
        },
    }
}

/// The headers of a response announce the length of its body.
proof fn headers_announce_the_length(response: ResponseView)
    requires
        without_return(response.content_type),
        response.origin matches Some(origin) ==> without_return(origin),
    ensures
        header(header_map(response_headers(response)), "content-length"@) == Some(
            decimal(response.body.len()),
        ),
        forall|i: int|
            0 <= i < response_headers(response).len() ==> without_return(
                #[trigger] response_headers(response)[i],
            ) && response_headers(response)[i].len() > 0,
{
    reveal_strlit("content-length");
    reveal_strlit(": ");
    reveal_strlit("Content-Type");
    reveal_strlit("Content-Length");
    let length = decimal(response.body.len());
    let kind_line = header_line("Content-Type"@, response.content_type);
    let length_line = header_line("Content-Length"@, length);
    let first = seq![kind_line];
    let two = first.push(length_line);
    decimal_reads_back(response.body.len());
    assert forall|i: int| 0 <= i < length.len() implies (#[trigger] length[i]) != '\r' by {
        assert(digit(length[i]));
    }
    header_is_read(first, "Content-Length"@, length);
    assert(lowercase("Content-Length"@) =~= "content-length"@);
    number_behind_space(response.body.len());
    fixed_headers_are_read(two);
    origin_headers_are_read(two + fixed_headers(), response.origin);
    let all = response_headers(response);
    assert(all =~= two + fixed_headers() + origin_headers(response.origin));
    assert forall|i: int| 0 <= i < all.len() implies without_return(#[trigger] all[i]) && all[i].len()
        > 0 by {
        if i >= 8 {
            assert(all[i] == origin_headers(response.origin)[i - 8]);
        } else if i >= 2 {
            assert(all[i] == fixed_headers()[i - 2]);
        }
    }
}

/// Text that stands behind other text is encoded behind it.
proof fn encoding_adds_up(a: Seq<char>, b: Seq<char>)
    ensures
        encode_utf8(a + b) == encode_utf8(a) + encode_utf8(b),
    decreases a.len(),
{
    if a.len() == 0 {
        assert(a + b =~= b);
        assert(encode_utf8(a) + encode_utf8(b) =~= encode_utf8(b));
    } else {
        encoding_adds_up(a.drop_first(), b);
        assert((a + b).drop_first() =~= a.drop_first() + b);
        assert(encode_utf8(a + b) =~= encode_utf8(a) + encode_utf8(b));
    }
}

/// The byte of a carriage return stands in the encoding of a text only where
/// the text has a carriage return.
proof fn encoded_without_return(text: Seq<char>)
    requires
        without_return(text),
    ensures
        forall|i: int| 0 <= i < encode_utf8(text).len() ==> (#[trigger] encode_utf8(text)[i]) != 13,
{
    let bytes = encode_utf8(text);
    encode_utf8_valid_utf8(text);
    encode_utf8_decode_utf8(text);
    assert forall|i: int| 0 <= i < bytes.len() implies (#[trigger] bytes[i]) != 13 by {
        if bytes[i] == 13 {
            is_char_boundary_iff_not_is_continuation_byte(bytes, i);
            valid_utf8_split(bytes, i);
            decode_utf8_split(bytes, i);
            let front = decode_utf8(bytes.subrange(0, i));
            let rest = bytes.subrange(i, bytes.len() as int);
            assert(rest[0] == 13);
            decode_utf8_first_scalar(rest);
            assert(decode_utf8(rest)[0] == '\r') by {
                assert(13u8 & 0x7f == 13u8) by (bit_vector);
            }
            assert(text[front.len() as int] == '\r');
        }
    }
}

/// The end of the headers is found in bytes at the first empty line.
proof fn empty_line_is_found(lines: Seq<Seq<char>>, body: Seq<u8>)
    requires
        lines.len() >= 2,
        lines.last() == Seq::<char>::empty(),
        forall|i: int| 0 <= i < lines.len() ==> without_return(#[trigger] lines[i]),
        forall|i: int| 0 <= i < lines.len() - 1 ==> (#[trigger] lines[i]).len() > 0,
    ensures
        encode_utf8(terminated(lines)).len() >= 4,
        find(encode_utf8(terminated(lines)) + body, header_end()) == Some(
            (encode_utf8(terminated(lines)).len() - 4) as nat,
        ),
    decreases lines.len(),
{
    let first = encode_utf8(lines[0]);
    let rest = lines.drop_first();
    let tail = encode_utf8(terminated(rest));
    let ending = seq![13u8, 10u8];
    let head = encode_utf8(terminated(lines));
    let whole = head + body;
    let n = first.len() as int;
    terminated_from_start(lines);
    encoding_adds_up(lines[0] + line_end(), terminated(rest));
    encoding_adds_up(lines[0], line_end());
    line_end_is_encoded();
    assert(without_return(lines[0]));
    encoded_without_return(lines[0]);
    assert(head =~= first + ending + tail);
    assert forall|j: int| 0 <= j < n implies !#[trigger] occurs_at(whole, header_end(), j) by {
        if occurs_at(whole, header_end(), j) {
            assert(whole.subrange(j, j + 4)[0] == 13);
            assert(whole[j] == first[j]);
        }
    }
    if lines.len() == 2 {
        assert(rest =~= seq![Seq::<char>::empty()]);
        terminated_from_start(rest);
        assert(rest.drop_first() =~= Seq::empty());
        assert(terminated(rest) =~= line_end());
        assert(tail =~= ending);
        assert(whole.subrange(n, n + 4) =~= header_end());
        first_is_find(whole, header_end(), n);
    } else {
        let next = rest[0];
        assert(next == lines[1]);
        assert forall|i: int| 0 <= i < rest.len() implies without_return(#[trigger] rest[i]) by {
            assert(rest[i] == lines[i + 1]);
        }
        assert forall|i: int| 0 <= i < rest.len() - 1 implies (#[trigger] rest[i]).len() > 0 by {
            assert(rest[i] == lines[i + 1]);
        }
        empty_line_is_found(rest, body);
        let at = tail.len() - 4;
        let later = tail + body;
        assert(whole =~= first + ending + later);
        find_is_first(later, header_end());
        terminated_from_start(rest);
        encoding_adds_up(next + line_end(), terminated(rest.drop_first()));
        encoding_adds_up(next, line_end());
        encoded_without_return(next);
        encode_utf8_decode_utf8(next);
        assert(encode_utf8(next).len() > 0);
        assert(later[0] == encode_utf8(next)[0]);
        assert(whole[n + 2] == later[0]);
        assert(!occurs_at(whole, header_end(), n)) by {
            if occurs_at(whole, header_end(), n) {
                assert(whole.subrange(n, n + 4)[2] == 13);
            }
        }
        assert(!occurs_at(whole, header_end(), n + 1)) by {
            if occurs_at(whole, header_end(), n + 1) {
                assert(whole.subrange(n + 1, n + 5)[0] == 13);
                assert(whole[n + 1] == 10);
            }
        }
        assert forall|j: int| 0 <= j < n + 2 + at implies !#[trigger] occurs_at(
            whole,
            header_end(),
            j,
        ) by {
            if j >= n + 2 && occurs_at(whole, header_end(), j) {
                assert(whole.subrange(j, j + 4) =~= later.subrange(j - n - 2, j - n + 2));
                assert(occurs_at(later, header_end(), j - n - 2));
            }
        }
        assert(whole.subrange(n + 2 + at, n + 6 + at) =~= later.subrange(at, at + 4));
        first_is_find(whole, header_end(), n + 2 + at);
    }
}

/// The end of a line in bytes.
proof fn line_end_is_encoded()
    ensures
        encode_utf8(line_end()) == seq![13u8, 10u8],
{
    assert(is_ascii_chars(line_end()));
    is_ascii_chars_encode_utf8(line_end());
    let bytes = encode_utf8(line_end());
    assert(line_end()[0] as u8 == bytes[0] && line_end()[1] as u8 == bytes[1]);
    assert(bytes =~= seq![13u8, 10u8]);
}

/// A response is read back as it was written: its head splits into the status
/// line and the headers, and a client that reads these as the connector reads
/// those of a request finds the length of the body announced. The first empty
/// line is the end of the head, and the bytes behind it are the body.
pub proof fn response_reads_back(response: ResponseView)
    requires
        without_return(response.reason),
        without_return(response.content_type),
        response.origin matches Some(origin) ==> without_return(origin),
    ensures
        ({
            let head = response_head(response);
            let lines = split(head, seq!['\r', '\n']);
            let headers = header_map(lines.drop_first());
            &&& lines == split(head, line_end())
            &&& lines[0] == status_line(response.status, response.reason)
            &&& lines[0] == "HTTP/1.1 "@ + decimal(response.status as nat) + " "@ + response.reason
            &&& header(headers, "content-length"@) == Some(decimal(response.body.len()))
            &&& digits_value(decimal(response.body.len())) == response.body.len()
            &&& response.body.len() <= MAX_HTTP_BODY_BYTES ==> announced_length(headers) == Ok::<
                usize,
                Seq<char>,
            >(response.body.len() as usize)
            &&& encode_utf8(head).len() >= 4
            &&& find(response_bytes(response), header_end()) == find(
                response_bytes(response),
                seq![13u8, 10u8, 13u8, 10u8],
            )
            &&& find(response_bytes(response), seq![13u8, 10u8, 13u8, 10u8]) == Some(
                (encode_utf8(head).len() - 4) as nat,
            )
            &&& response_bytes(response).skip(encode_utf8(head).len() as int) == response.body
        }),
{
    let lines = head_lines(response);
    let headers = response_headers(response);
    let length = decimal(response.body.len());
    headers_announce_the_length(response);
    reveal_strlit("HTTP/1.1 ");
    reveal_strlit(" ");
    decimal_reads_back(response.status as nat);
    let status = decimal(response.status as nat);
    assert forall|i: int| 0 <= i < status.len() implies (#[trigger] status[i]) != '\r' by {
        assert(digit(status[i]));
    }
    assert forall|i: int| 0 <= i < lines.len() implies without_return(#[trigger] lines[i]) by {
        if 0 < i < lines.len() - 1 {
            assert(lines[i] == headers[i - 1]);
        }
    }
    ended_lines_split(lines);
    assert forall|i: int| 0 <= i < lines.len() - 1 implies (#[trigger] lines[i]).len() > 0 by {
        if i > 0 {
            assert(lines[i] == headers[i - 1]);
            assert(headers[i - 1].len() > 0);
        }
    }
    empty_line_is_found(lines, response.body);
    assert(response_bytes(response).skip(encode_utf8(response_head(response)).len() as int)
        =~= response.body);
    let nothing = Seq::<char>::empty();
    assert(lines.push(nothing).drop_first() =~= headers.push(nothing).push(nothing));
    empty_line_is_no_header(headers);
    empty_line_is_no_header(headers.push(nothing));
    decimal_reads_back(response.body.len());
    assert(digit(length[0]));
    if response.body.len() <= MAX_HTTP_BODY_BYTES {
        assert(parsed_usize(length) == Some(response.body.len() as usize));
    }
}

/// A text is read from behind the space that a header has before it.
proof fn value_behind_space(value: Seq<char>)
    requires
        value.len() > 0,
        !whitespace(value[0]),
        !whitespace(value.last()),
    ensures
        trimmed(" "@ + value) == value,
{
    reveal_strlit(" ");
    let s = " "@ + value;
    assert(s.drop_first() =~= value);
    trimmed_stays(value);
    assert(trim_start(value) == value);
    assert(trim_start(s) == trim_start(s.drop_first()));
}

/// A header that was added is found under its name in small letters, and the
/// others are found as before.
proof fn header_is_found(
    lines: Seq<Seq<char>>,
    name: Seq<char>,
    small: Seq<char>,
    value: Seq<char>,
)
    requires
        plain_name(name),
        small == lowercase(name),
        value.len() > 0,
        !whitespace(value[0]),
        !whitespace(value.last()),
    ensures
        header(header_map(lines.push(header_line(name, value))), small) == Some(value),
        forall|other: Seq<char>|
            other != small ==> #[trigger] header(
                header_map(lines.push(header_line(name, value))),
                other,
            ) == header(header_map(lines), other),
{
    header_is_read(lines, name, value);
    value_behind_space(value);
}

/// The headers that every response carries are found by their names, whatever
/// stands before them, and hide no other.
proof fn fixed_headers_are_found(lines: Seq<Seq<char>>)
    ensures
        ({
            let headers = header_map(lines + fixed_headers());
            &&& header(headers, "connection"@) == Some("close"@)
            &&& header(headers, "access-control-allow-methods"@) == Some("GET, POST, OPTIONS"@)
            &&& header(headers, "access-control-allow-headers"@) == Some(
                "Content-Type, Authorization"@,
            )
            &&& header(headers, "access-control-allow-private-network"@) == Some("true"@)
            &&& header(headers, "x-content-type-options"@) == Some("nosniff"@)
            &&& header(headers, "cache-control"@) == Some("no-store"@)
            &&& header(headers, "content-type"@) == header(header_map(lines), "content-type"@)
            &&& header(headers, "content-length"@) == header(header_map(lines), "content-length"@)
            &&& header(headers, "access-control-allow-origin"@) == header(
                header_map(lines),
                "access-control-allow-origin"@,
            )
        }),
{
    reveal_strlit("connection");
    reveal_strlit("access-control-allow-methods");
    reveal_strlit("access-control-allow-headers");
    reveal_strlit("access-control-allow-private-network");
    reveal_strlit("x-content-type-options");
    reveal_strlit("cache-control");
    reveal_strlit("content-type");
    reveal_strlit("content-length");
    reveal_strlit("access-control-allow-origin");
    reveal_strlit("Connection");
    reveal_strlit("close");
    reveal_strlit("Access-Control-Allow-Methods");
    reveal_strlit("GET, POST, OPTIONS");
    reveal_strlit("Access-Control-Allow-Headers");
    reveal_strlit("Content-Type, Authorization");
    reveal_strlit("Access-Control-Allow-Private-Network");
    reveal_strlit("true");
    reveal_strlit("X-Content-Type-Options");
    reveal_strlit("nosniff");
    reveal_strlit("Cache-Control");
    reveal_strlit("no-store");
    assert(lowercase("Connection"@) =~= "connection"@);
    assert(lowercase("Access-Control-Allow-Methods"@) =~= "access-control-allow-methods"@);
    assert(lowercase("Access-Control-Allow-Headers"@) =~= "access-control-allow-headers"@);
    assert(lowercase("Access-Control-Allow-Private-Network"@)
        =~= "access-control-allow-private-network"@);
    assert(lowercase("X-Content-Type-Options"@) =~= "x-content-type-options"@);
    assert(lowercase("Cache-Control"@) =~= "cache-control"@);
    assert("access-control-allow-methods"@[21] == 'm');
    assert("access-control-allow-headers"@[21] == 'h');
    let fixed = fixed_headers();
    header_is_found(lines, "Connection"@, "connection"@, "close"@);
    let l1 = lines.push(fixed[0]);
    header_is_found(
        l1,
        "Access-Control-Allow-Methods"@,
        "access-control-allow-methods"@,
        "GET, POST, OPTIONS"@,
    );
    let l2 = l1.push(fixed[1]);
    header_is_found(
        l2,
        "Access-Control-Allow-Headers"@,
        "access-control-allow-headers"@,
        "Content-Type, Authorization"@,
    );
    let l3 = l2.push(fixed[2]);
    header_is_found(
        l3,
        "Access-Control-Allow-Private-Network"@,
        "access-control-allow-private-network"@,
        "true"@,
    );
    let l4 = l3.push(fixed[3]);
    header_is_found(l4, "X-Content-Type-Options"@, "x-content-type-options"@, "nosniff"@);
    let l5 = l4.push(fixed[4]);
    header_is_found(l5, "Cache-Control"@, "cache-control"@, "no-store"@);
    assert(lines + fixed =~= l5.push(fixed[5]));
}

/// The headers that name an origin hide no other.
proof fn origin_headers_are_found(
    lines: Seq<Seq<char>>,
    origin: Option<Seq<char>>,
    name: Seq<char>,
)
    requires
        origin matches Some(origin) ==> origin.len() > 0 && !whitespace(origin[0]) && !whitespace(
            origin.last(),
        ),
        name.len() != "access-control-allow-origin"@.len(),
        name.len() != "vary"@.len(),
    ensures
        ({
            let headers = header_map(lines + origin_headers(origin));
            &&& header(headers, name) == header(header_map(lines), name)
            &&& origin is Some ==> header(headers, "access-control-allow-origin"@) == origin
            &&& origin is Some ==> header(headers, "vary"@) == Some("Origin"@)
            &&& origin is None ==> headers == header_map(lines)
        }),
{
    reveal_strlit("access-control-allow-origin");
    reveal_strlit("vary");
    reveal_strlit("Access-Control-Allow-Origin");
    reveal_strlit("Vary");
    reveal_strlit("Origin");
    assert(lowercase("Access-Control-Allow-Origin"@) =~= "access-control-allow-origin"@);
    assert(lowercase("Vary"@) =~= "vary"@);
    match origin {
        Some(value) => {
            let named = header_line("Access-Control-Allow-Origin"@, value);
            let vary = header_line("Vary"@, "Origin"@);
            header_is_found(
                lines,
                "Access-Control-Allow-Origin"@,
                "access-control-allow-origin"@,
                value,
            );
            header_is_found(lines.push(named), "Vary"@, "vary"@, "Origin"@);
            assert(lines + origin_headers(origin) =~= lines.push(named).push(vary));
        },
        None => {
            assert(lines + origin_headers(origin) =~= lines);
        },
    }
}

/// The headers of a response say by their names what the response is: its type,
/// its length, that nothing of it is kept or guessed at, which requests are
/// allowed, and which origin may read it. No origin may read a response that
/// names none.
pub proof fn response_headers_by_name(response: ResponseView)
    requires
        response.content_type.len() > 0,
        !whitespace(response.content_type[0]),
        !whitespace(response.content_type.last()),
        response.origin matches Some(origin) ==> origin.len() > 0 && !whitespace(origin[0])
            && !whitespace(origin.last()),
    ensures
        ({
            let headers = header_map(response_headers(response));
            &&& header(headers, "content-type"@) == Some(response.content_type)
            &&& header(headers, "content-length"@) == Some(decimal(response.body.len()))
            &&& header(headers, "connection"@) == Some("close"@)
            &&& header(headers, "access-control-allow-methods"@) == Some("GET, POST, OPTIONS"@)
            &&& header(headers, "access-control-allow-headers"@) == Some(
                "Content-Type, Authorization"@,
            )
            &&& header(headers, "access-control-allow-private-network"@) == Some("true"@)
            &&& header(headers, "x-content-type-options"@) == Some("nosniff"@)
            &&& header(headers, "cache-control"@) == Some("no-store"@)
            &&& header(headers, "access-control-allow-origin"@) == response.origin
            &&& response.origin is Some ==> header(headers, "vary"@) == Some("Origin"@)
        }),
{
    reveal_strlit("content-type");
    reveal_strlit("content-length");
    reveal_strlit("connection");
    reveal_strlit("access-control-allow-methods");
    reveal_strlit("access-control-allow-headers");
    reveal_strlit("access-control-allow-private-network");
    reveal_strlit("x-content-type-options");
    reveal_strlit("cache-control");
    reveal_strlit("access-control-allow-origin");
    reveal_strlit("vary");
    reveal_strlit("Content-Type");
    reveal_strlit("Content-Length");
    let length = decimal(response.body.len());
    decimal_reads_back(response.body.len());
    assert(digit(length[0]));
    assert(digit(length[length.len() - 1]));
    assert(lowercase("Content-Type"@) =~= "content-type"@);
    assert(lowercase("Content-Length"@) =~= "content-length"@);
    let nothing = Seq::<Seq<char>>::empty();
    let kind_line = header_line("Content-Type"@, response.content_type);
    let length_line = header_line("Content-Length"@, length);
    header_is_found(nothing, "Content-Type"@, "content-type"@, response.content_type);
    header_is_found(nothing.push(kind_line), "Content-Length"@, "content-length"@, length);
    let two = nothing.push(kind_line).push(length_line);
    fixed_headers_are_found(two);
    let most = two + fixed_headers();
    origin_headers_are_found(most, response.origin, "content-type"@);
    origin_headers_are_found(most, response.origin, "content-length"@);
    origin_headers_are_found(most, response.origin, "connection"@);
    origin_headers_are_found(most, response.origin, "access-control-allow-methods"@);
    origin_headers_are_found(most, response.origin, "access-control-allow-headers"@);
    origin_headers_are_found(most, response.origin, "access-control-allow-private-network"@);
    origin_headers_are_found(most, response.origin, "x-content-type-options"@);
    origin_headers_are_found(most, response.origin, "cache-control"@);
    assert(response_headers(response) =~= most + origin_headers(response.origin));
    assert(header(header_map(nothing), "access-control-allow-origin"@) is None);
}

/// A JSON value is sent as the document that was written for it, whatever it is,
/// and a text as its bytes; the type of each is named.
pub proof fn values_are_sent_as_they_are(
    status: u16,
    reason: Seq<char>,
    payload: JsonTree,
    text: Seq<char>,
    origin: Option<Seq<char>>,
)
    ensures
        ({
            let sent = json_response(status, reason, payload, origin);
            &&& sent.status == status && sent.reason == reason && sent.origin == origin
            &&& sent.content_type == "application/json; charset=utf-8"@
            &&& json_bytes(normal(payload)) matches Ok(bytes) ==> sent.body == bytes
            &&& json_bytes(normal(payload)) is Err ==> sent.body == encode_utf8(
                "{\"error\":\"Serialization failed.\"}"@,
            )
        }),
        ({
            let sent = text_response(status, reason, text, origin);
            &&& sent.status == status && sent.reason == reason && sent.origin == origin
            &&& sent.content_type == "text/plain; charset=utf-8"@
            &&& sent.body == encode_utf8(text)
        }),
{
}

} // verus!
