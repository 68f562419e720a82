//! HTTP requests, read from the chunks of bytes that arrive on a connection.
//!
//! [`request_in`] says what request a stream of bytes holds; [`RequestReader`]
//! takes the chunks of the stream one by one and gives the answer as soon as
//! there is one.

use crate::text::{
    after_first_word, chars_of, find, find_bytes, find_chars, find_in_extension, find_is_first,
    first_is_find, first_word, lowercase, occurs_at, parse_usize, parsed_usize, split, split_chars,
    split_then_join, string_from_utf8, text_of, to_ascii_lowercase, trim_chars, trimmed,
    word_bounds,
};
use crate::text_map::TextMap;
use vstd::prelude::*;
use vstd::utf8::{
    decode_utf8, encode_utf8, encode_utf8_decode_utf8, encode_utf8_valid_utf8, valid_utf8,
};

verus! {

/// The most bytes that may arrive up to the end of the headers.
pub const MAX_HTTP_HEADER_BYTES: usize = 65536;

/// The longest request body.
pub const MAX_HTTP_BODY_BYTES: usize = 4194304;

/// The headers of a request, by their names in small letters.
pub type Headers = TextMap<String>;

/// The text of each header.
pub open spec fn header_texts(headers: Headers) -> Map<Seq<char>, Seq<char>> {
    headers@.map_values(|value: String| value@)
}

/// The header of a name.
pub open spec fn header(
    headers: Map<Seq<char>, Seq<char>>,
    name: Seq<char>,
) -> Option<Seq<char>> {
    if headers.dom().contains(name) {
        Some(headers[name])
    } else {
        None
    }
}

/// The header of a name.
pub fn get_header<'a>(headers: &'a Headers, name: &str) -> (value: Option<&'a str>)
    ensures
        match value {
            Some(s) => header(header_texts(*headers), name@) == Some(s@),
            None => header(header_texts(*headers), name@) is None,
        },
{
    match headers.get(name) {
        Some(value) => Some(value.as_str()),
        None => None,
    }
}

// ---------------------------------------------------------------------------
// The head of a request
// ---------------------------------------------------------------------------

/// What a request says before its body.
pub struct HeadView {
    pub method: Seq<char>,
    pub path: Seq<char>,
    pub headers: Map<Seq<char>, Seq<char>>,
    pub content_length: usize,
}

/// What a request says before its body.
pub struct RequestHead {
    pub method: String,
    pub path: String,
    pub headers: Headers,
    pub content_length: usize,
}

impl View for RequestHead {
    type V = HeadView;

    open spec fn view(&self) -> HeadView {
        HeadView {
            method: self.method@,
            path: self.path@,
            headers: header_texts(self.headers),
            content_length: self.content_length,
        }
    }
}

/// The headers that some lines make. A line is a name, a colon and a value; a
/// later line replaces an earlier one of the same name, and a line without a
/// colon counts for nothing.
pub open spec fn header_map(lines: Seq<Seq<char>>) -> Map<Seq<char>, Seq<char>>
    decreases lines.len(),
{
    if lines.len() == 0 {
        Map::empty()
    } else {
        let headers = header_map(lines.drop_last());
        let line = lines.last();
        match find(line, seq![':']) {
            Some(i) => headers.insert(
                lowercase(trimmed(line.take(i as int))),
                trimmed(line.skip((i + 1) as int)),
            ),
            None => headers,
        }
    }
}

/// The length of the body that the headers announce; none means zero.
pub open spec fn announced_length(headers: Map<Seq<char>, Seq<char>>) -> Result<usize, Seq<char>> {
    match header(headers, "content-length"@) {
        Some(value) => match parsed_usize(value) {
            Some(n) => if n > MAX_HTTP_BODY_BYTES {
                Err("Request body is too large."@)
            } else {
                Ok(n)
            },
            None => Err("Invalid Content-Length."@),
        },
        None => Ok(0),
    }
}

/// What the head in some bytes says, or why it is refused.
pub open spec fn parsed_head(bytes: Seq<u8>) -> Result<HeadView, Seq<char>> {
    if !valid_utf8(bytes) {
        Err("HTTP headers must be UTF-8."@)
    } else {
        let lines = split(decode_utf8(bytes), seq!['\r', '\n']);
        let method = first_word(lines[0]);
        let path = first_word(after_first_word(lines[0]));
        let headers = header_map(lines.drop_first());
        if method.len() == 0 || path.len() == 0 {
            Err("Invalid HTTP request line."@)
        } else {
            match announced_length(headers) {
                Ok(content_length) => Ok(HeadView { method, path, headers, content_length }),
                Err(error) => Err(error),
            }
        }
    }
}

/// Reads the header lines.
fn parse_headers(lines: &Vec<Vec<char>>) -> (headers: Headers)
    requires
        lines@.len() > 0,
    ensures
        headers.wf(),
        header_texts(headers) == header_map(
            lines@.map_values(|line: Vec<char>| line@).drop_first(),
        ),
{
    let ghost texts = lines@.map_values(|line: Vec<char>| line@).drop_first();
    let mut headers: Headers = TextMap::new();
    let colon: [char; 1] = [':'];
    assert(colon@ =~= seq![':']);
    assert(header_texts(headers) =~= header_map(texts.take(0)));
    for i in 1..lines.len()
        invariant
            colon@ == seq![':'],
            texts == lines@.map_values(|line: Vec<char>| line@).drop_first(),
            headers.wf(),
            header_texts(headers) == header_map(texts.take(i - 1)),
    {
        let line = lines[i].as_slice();
        let width: usize = line.len();
        assert(texts.take(i as int).drop_last() =~= texts.take(i - 1));
        assert(texts.take(i as int).last() == line@);
        proof {
            find_is_first(line@, colon@);
        }
        if let Some(at) = find_chars(line, colon.as_slice()) {
            let left = &line[0..at];
            let right = &line[at + 1..width];
            assert(left@ =~= line@.take(at as int));
            assert(right@ =~= line@.skip(at + 1));
            let name_text = text_of(trim_chars(left));
            let name = to_ascii_lowercase(name_text.as_str());
            let value = text_of(trim_chars(right));
            let ghost before = headers;
            headers.insert(name, value);
            assert(header_texts(headers) =~= header_texts(before).insert(name@, value@));
        }
    }
    assert(texts.take(lines@.len() - 1) =~= texts);
    headers
}

/// Reads the head of a request.
pub fn parse_request_head(bytes: Vec<u8>) -> (head: Result<RequestHead, String>)
    ensures
        match head {
            Ok(head) => parsed_head(bytes@) == Ok::<HeadView, Seq<char>>(head@)
                && head.headers.wf(),
            Err(error) => parsed_head(bytes@) == Err::<HeadView, Seq<char>>(error@),
        },
{
    let text = match string_from_utf8(bytes) {
        Some(text) => text,
        None => {
            return Err("HTTP headers must be UTF-8.".to_string());
        },
    };
    let chars = chars_of(text.as_str());
    let crlf: [char; 2] = ['\r', '\n'];
    assert(crlf@ =~= seq!['\r', '\n']);
    let lines = split_chars(chars.as_slice(), crlf.as_slice());
    let ghost all = split(text@, seq!['\r', '\n']);
    proof {
        split_then_join(text@, crlf@);
    }
    assert(lines@.map_values(|line: Vec<char>| line@) =~= all);
    let first = lines[0].as_slice();
    assert(first@ == all[0]);
    let (start, end) = word_bounds(first);
    let method = text_of(&first[start..end]);
    let rest = &first[end..first.len()];
    assert(rest@ =~= after_first_word(first@));
    let (start, end) = word_bounds(rest);
    let path = text_of(&rest[start..end]);
    if method.as_str().is_empty() || path.as_str().is_empty() {
        return Err("Invalid HTTP request line.".to_string());
    }
    let headers = parse_headers(&lines);
    let content_length = match get_header(&headers, "content-length") {
        Some(value) => match parse_usize(value) {
            Some(n) => n,
            None => {
                return Err("Invalid Content-Length.".to_string());
            },
        },
        None => 0,
    };
    if content_length > MAX_HTTP_BODY_BYTES {
        return Err("Request body is too large.".to_string());
    }
    Ok(RequestHead { method, path, headers, content_length })
}

// ---------------------------------------------------------------------------
// A whole request
// ---------------------------------------------------------------------------

/// A request.
pub struct RequestView {
    pub method: Seq<char>,
    pub path: Seq<char>,
    pub headers: Map<Seq<char>, Seq<char>>,
    pub body: Seq<u8>,
}

/// A request.
pub struct HttpRequest {
    pub method: String,
    pub path: String,
    pub headers: Headers,
    pub body: Vec<u8>,
}

impl View for HttpRequest {
    type V = RequestView;

    open spec fn view(&self) -> RequestView {
        RequestView {
            method: self.method@,
            path: self.path@,
            headers: header_texts(self.headers),
            body: self.body@,
        }
    }
}

/// The empty line that ends the headers.
pub open spec fn header_end() -> Seq<u8> {
    seq![13u8, 10u8, 13u8, 10u8]
}

/// How far the reading of a request has come.
pub enum ReadOutcome {
    /// More bytes are needed.
    Incomplete,
    /// The request is there.
    Complete(RequestView),
    /// There will be no request, and why.
    Refused(Seq<char>),
}

/// The request that a stream of bytes holds, as far as it has arrived. The
/// body is as long as the headers announce; what follows it is ignored.
pub open spec fn request_in(stream: Seq<u8>) -> ReadOutcome {
    match find(stream, header_end()) {
        None => ReadOutcome::Incomplete,
        Some(i) => {
            let start = i + 4;
            match parsed_head(stream.take(start as int)) {
                Err(error) => ReadOutcome::Refused(error),
                Ok(head) => if stream.len() - start < head.content_length {
                    ReadOutcome::Incomplete
                } else {
                    ReadOutcome::Complete(
                        RequestView {
                            method: head.method,
                            path: head.path,
                            headers: head.headers,
                            body: stream.subrange(start as int, start + head.content_length),
                        },
                    )
                },
            }
        },
    }
}

/// What a chunk leads to, behind the bytes that came before it. An empty chunk
/// is the end of the stream.
pub open spec fn after_chunk(received: Seq<u8>, chunk: Seq<u8>) -> ReadOutcome {
    let headers_ended = find(received, header_end()) is Some;
    if chunk.len() == 0 {
        if headers_ended {
            ReadOutcome::Refused("Connection closed before the body was complete."@)
        } else {
            ReadOutcome::Refused("Connection closed before the request was complete."@)
        }
    } else if !headers_ended && received.len() + chunk.len() > MAX_HTTP_HEADER_BYTES {
        ReadOutcome::Refused("HTTP headers are too large."@)
    } else {
        request_in(received + chunk)
    }
}

/// What a reader answers to a chunk.
pub enum ReadStep {
    /// More bytes are needed.
    NeedMore,
    /// The request is there.
    Done(HttpRequest),
    /// There will be no request, and why.
    Failed(String),
}

impl ReadStep {
    /// How far the reading has come.
    pub open spec fn outcome(self) -> ReadOutcome {
        match self {
            ReadStep::NeedMore => ReadOutcome::Incomplete,
            ReadStep::Done(request) => ReadOutcome::Complete(request@),
            ReadStep::Failed(error) => ReadOutcome::Refused(error@),
        }
    }
}

/// A request that is being read.
pub struct RequestReader {
    received: Vec<u8>,
    /// The head and the number of bytes up to its end, once it is there.
    head: Option<(RequestHead, usize)>,
}

impl View for RequestReader {
    type V = Seq<u8>;

    /// The bytes that have arrived.
    closed spec fn view(&self) -> Seq<u8> {
        self.received@
    }
}

/// A copy of a part of some bytes.
fn copy_bytes(bytes: &Vec<u8>, from: usize, to: usize) -> (part: Vec<u8>)
    requires
        from <= to <= bytes@.len(),
    ensures
        part@ == bytes@.subrange(from as int, to as int),
{
    let mut part: Vec<u8> = Vec::new();
    part.extend_from_slice(&bytes.as_slice()[from..to]);
    assert(part@ =~= bytes@.subrange(from as int, to as int));
    part
}

impl RequestReader {
    /// The bytes so far hold no request yet and no reason to refuse one, and
    /// the head is kept once it is there.
    pub closed spec fn wf(&self) -> bool {
        &&& request_in(self.received@) is Incomplete
        &&& match self.head {
            Some((head, end)) => {
                &&& head.headers.wf()
                &&& 4 <= end <= self.received@.len()
                &&& find(self.received@, header_end()) == Some((end - 4) as nat)
                &&& parsed_head(self.received@.take(end as int)) == Ok::<HeadView, Seq<char>>(
                    head@,
                )
            },
            None => find(self.received@, header_end()) is None,
        }
    }

    /// A reader to which nothing has arrived.
    pub fn new() -> (reader: Self)
        ensures
            reader.wf(),
            reader@ == Seq::<u8>::empty(),
    {
        proof {
            find_is_first(Seq::<u8>::empty(), header_end());
        }
        RequestReader { received: Vec::new(), head: None }
    }

    /// Takes the next chunk of the stream. An empty chunk says that the stream
    /// has ended.
    pub fn feed(&mut self, chunk: &[u8]) -> (step: ReadStep)
        requires
            old(self).wf(),
        ensures
            step.outcome() == after_chunk(old(self)@, chunk@),
            step is NeedMore ==> final(self).wf() && final(self)@ == old(self)@ + chunk@,
            step matches ReadStep::Done(request) ==> request.headers.wf(),
    {
        let ghost before = self.received@;
        if chunk.len() == 0 {
            return ReadStep::Failed(
                if self.head.is_some() {
                    "Connection closed before the body was complete.".to_string()
                } else {
                    "Connection closed before the request was complete.".to_string()
                },
            );
        }
        self.received.extend_from_slice(chunk);
        assert(self.received@ =~= before + chunk@);
        let total: usize = self.received.len();
        if self.head.is_none() {
            if total > MAX_HTTP_HEADER_BYTES {
                return ReadStep::Failed("HTTP headers are too large.".to_string());
            }
            let end_mark: [u8; 4] = [13u8, 10u8, 13u8, 10u8];
            assert(end_mark@ =~= header_end());
            proof {
                find_is_first(self.received@, header_end());
            }
            match find_bytes(self.received.as_slice(), end_mark.as_slice()) {
                None => {
                    return ReadStep::NeedMore;
                },
                Some(at) => {
                    let end: usize = at + 4;
                    let head_bytes = copy_bytes(&self.received, 0, end);
                    assert(head_bytes@ =~= self.received@.take(end as int));
                    match parse_request_head(head_bytes) {
                        Ok(head) => {
                            self.head = Some((head, end));
                        },
                        Err(error) => {
                            return ReadStep::Failed(error);
                        },
                    }
                },
            }
        } else {
            proof {
                find_in_extension(before, chunk@, header_end());
                let (_, end) = self.head->0;
                assert(self.received@.take(end as int) =~= before.take(end as int));
            }
        }
        match self.head.take() {
            Some((head, end)) => {
                if total - end < head.content_length {
                    self.head = Some((head, end));
                    ReadStep::NeedMore
                } else {
                    let body = copy_bytes(&self.received, end, end + head.content_length);
                    ReadStep::Done(
                        HttpRequest {
                            method: head.method,
                            path: head.path,
                            headers: head.headers,
                            body,
                        },
                    )
                }
            },
            None => ReadStep::NeedMore,
        }
    }
}

// ---------------------------------------------------------------------------
// How the stream is cut
// ---------------------------------------------------------------------------

/// The chunks of a stream, put together.
pub open spec fn stream_of(chunks: Seq<Seq<u8>>) -> Seq<u8>
    decreases chunks.len(),
{
    if chunks.len() == 0 {
        Seq::empty()
    } else {
        chunks[0] + stream_of(chunks.drop_first())
    }
}

/// What a reader answers in the end when it is given chunk after chunk until
/// it needs no more.
pub open spec fn read_stream(received: Seq<u8>, chunks: Seq<Seq<u8>>) -> ReadOutcome
    decreases chunks.len(),
{
    if chunks.len() == 0 {
        ReadOutcome::Incomplete
    } else {
        match after_chunk(received, chunks[0]) {
            ReadOutcome::Incomplete => read_stream(received + chunks[0], chunks.drop_first()),
            outcome => outcome,
        }
    }
}

/// Whether no chunk up to the end of the headers brings more bytes than
/// headers may have.
pub open spec fn within_header_limit(received: Seq<u8>, chunks: Seq<Seq<u8>>) -> bool
    decreases chunks.len(),
{
    ||| chunks.len() == 0
    ||| find(received, header_end()) is Some
    ||| received.len() + chunks[0].len() <= MAX_HTTP_HEADER_BYTES && within_header_limit(
        received + chunks[0],
        chunks.drop_first(),
    )
}

/// What a stream holds does not change when more arrives behind it, once that
/// is a request or a reason to refuse one.
pub proof fn settled_request_stays(stream: Seq<u8>, more: Seq<u8>)
    requires
        !(request_in(stream) is Incomplete),
    ensures
        request_in(stream + more) == request_in(stream),
{
    find_in_extension(stream, more, header_end());
    find_is_first(stream, header_end());
    let start = find(stream, header_end())->0 + 4;
    assert((stream + more).take(start as int) =~= stream.take(start as int));
    if let Ok(head) = parsed_head(stream.take(start as int)) {
        assert((stream + more).subrange(start as int, start + head.content_length)
            =~= stream.subrange(start as int, start + head.content_length));
    }
}

/// How a stream is cut into chunks makes no difference: the reader gives the
/// request that the whole stream holds. This leaves out a stream that ends
/// (an empty chunk), and one whose headers exceed their limit.
pub proof fn chunks_make_no_difference(received: Seq<u8>, chunks: Seq<Seq<u8>>)
    requires
        request_in(received) is Incomplete,
        forall|i: int| 0 <= i < chunks.len() ==> (#[trigger] chunks[i]).len() > 0,
        within_header_limit(received, chunks),
    ensures
        read_stream(received, chunks) == request_in(received + stream_of(chunks)),
    decreases chunks.len(),
{
    if chunks.len() == 0 {
        assert(received + stream_of(chunks) =~= received);
    } else {
        let next = received + chunks[0];
        let rest = chunks.drop_first();
        assert(chunks[0].len() > 0);
        assert(received + stream_of(chunks) =~= next + stream_of(rest));
        if request_in(next) is Incomplete {
            assert forall|i: int| 0 <= i < rest.len() implies (#[trigger] rest[i]).len() > 0 by {
                assert(rest[i] == chunks[i + 1]);
            }
            if find(received, header_end()) is Some {
                find_in_extension(received, chunks[0], header_end());
            }
            chunks_make_no_difference(next, rest);
        } else {
            settled_request_stays(next, stream_of(rest));
        }
    }
}

/// How a stream that ends is cut makes no difference either: the reader gives
/// what the whole stream holds, and where that is no whole request, it says
/// that the connection was closed too early. This leaves out a stream whose
/// headers exceed their limit.
pub proof fn ended_stream_is_settled(received: Seq<u8>, chunks: Seq<Seq<u8>>)
    requires
        request_in(received) is Incomplete,
        forall|i: int| 0 <= i < chunks.len() ==> (#[trigger] chunks[i]).len() > 0,
        within_header_limit(received, chunks),
    ensures
        ({
            let stream = received + stream_of(chunks);
            let end = Seq::<u8>::empty();
            read_stream(received, chunks.push(end)) == match request_in(stream) {
                ReadOutcome::Incomplete => after_chunk(stream, end),
                settled => settled,
            }
        }),
        !(read_stream(received, chunks.push(Seq::empty())) is Incomplete),
    decreases chunks.len(),
{
    let end = Seq::<u8>::empty();
    let all = chunks.push(end);
    if chunks.len() == 0 {
        assert(received + stream_of(chunks) =~= received);
        assert(all[0] == end);
    } else {
        let next = received + chunks[0];
        let rest = chunks.drop_first();
        assert(all[0] == chunks[0]);
        assert(chunks[0].len() > 0);
        assert(all.drop_first() =~= rest.push(end));
        assert(received + stream_of(chunks) =~= next + stream_of(rest));
        if request_in(next) is Incomplete {
            assert forall|i: int| 0 <= i < rest.len() implies (#[trigger] rest[i]).len() > 0 by {
                assert(rest[i] == chunks[i + 1]);
            }
            if find(received, header_end()) is Some {
                find_in_extension(received, chunks[0], header_end());
            }
            ended_stream_is_settled(next, rest);
        } else {
            settled_request_stays(next, stream_of(rest));
        }
    }
}

// ---------------------------------------------------------------------------
// What is read
// ---------------------------------------------------------------------------

/// The body is what the headers announce, to the byte: behind a head that ends
/// with its first empty line, a request is complete as soon as that many bytes
/// have arrived, they are its body, and what follows them counts for nothing.
/// Fewer bytes are not enough.
pub proof fn body_is_what_was_announced(
    head: Seq<u8>,
    body: Seq<u8>,
    more: Seq<u8>,
    short: Seq<u8>,
)
    requires
        head.len() >= 4,
        find(head, seq![13u8, 10u8, 13u8, 10u8]) == Some((head.len() - 4) as nat),
        parsed_head(head) is Ok,
        body.len() == parsed_head(head)->Ok_0.content_length,
        short.len() < body.len(),
    ensures
        ({
            let said = parsed_head(head)->Ok_0;
            request_in(head + body + more) == ReadOutcome::Complete(
                RequestView {
                    method: said.method,
                    path: said.path,
                    headers: said.headers,
                    body,
                },
            )
        }),
        request_in(head + short) is Incomplete,
{
    let n = head.len() as int;
    let all = head + body + more;
    find_in_extension(head, body + more, header_end());
    assert(all =~= head + (body + more));
    assert(all.take(n) =~= head);
    assert(all.subrange(n, n + body.len()) =~= body);
    find_in_extension(head, short, header_end());
    assert((head + short).take(n) =~= head);
}

/// As long as the headers have not ended, there is no request and no refusal.
pub proof fn headers_must_end(stream: Seq<u8>)
    requires
        find(stream, seq![13u8, 10u8, 13u8, 10u8]) is None,
    ensures
        request_in(stream) is Incomplete,
{
}

/// A head that is refused refuses the request, with the same words.
pub proof fn refused_head_refuses_the_request(head: Seq<u8>, more: Seq<u8>)
    requires
        head.len() >= 4,
        find(head, seq![13u8, 10u8, 13u8, 10u8]) == Some((head.len() - 4) as nat),
        parsed_head(head) is Err,
    ensures
        request_in(head + more) == ReadOutcome::Refused(parsed_head(head)->Err_0),
{
    find_in_extension(head, more, header_end());
    assert((head + more).take(head.len() as int) =~= head);
}

/// The length of the body is the number in the `content-length` header, of up
/// to four mebibytes; without one it is zero. A longer one is refused, and so is
/// one that is no number.
pub proof fn length_is_the_announced_number(headers: Map<Seq<char>, Seq<char>>)
    ensures
        !headers.dom().contains("content-length"@) ==> announced_length(headers) == Ok::<
            usize,
            Seq<char>,
        >(0),
        headers.dom().contains("content-length"@) ==> match parsed_usize(
            headers["content-length"@],
        ) {
            None => announced_length(headers) == Err::<usize, Seq<char>>(
                "Invalid Content-Length."@,
            ),
            Some(n) => if n <= 4194304 {
                announced_length(headers) == Ok::<usize, Seq<char>>(n)
            } else {
                announced_length(headers) == Err::<usize, Seq<char>>("Request body is too large."@)
            },
        },
{
}

/// A line with a colon is a header: the name before the first colon in small
/// letters, the value behind it, both without the white space at their ends,
/// whatever they are; it takes the place of an earlier one of that name. A line
/// without a colon is none.
pub proof fn header_lines_are_read(
    lines: Seq<Seq<char>>,
    name: Seq<char>,
    value: Seq<char>,
)
    requires
        !name.contains(':'),
    ensures
        header_map(Seq::empty()) == Map::<Seq<char>, Seq<char>>::empty(),
        header_map(lines.push(name + seq![':'] + value)) == header_map(lines).insert(
            lowercase(trimmed(name)),
            trimmed(value),
        ),
        header_map(lines.push(name)) == header_map(lines),
{
    let line = name + seq![':'] + value;
    let n = name.len() as int;
    assert(line.subrange(n, n + 1) =~= seq![':']);
    assert(occurs_at(line, seq![':'], n));
    assert forall|j: int| 0 <= j < n implies !#[trigger] occurs_at(line, seq![':'], j) by {
        if occurs_at(line, seq![':'], j) {
            assert(line.subrange(j, j + 1)[0] == ':');
            assert(name[j] == ':');
        }
    }
    first_is_find(line, seq![':'], n);
    assert(line.take(n) =~= name);
    assert(line.skip(n + 1) =~= value);
    assert(lines.push(line).drop_last() =~= lines);
    find_is_first(name, seq![':']);
    if let Some(i) = find(name, seq![':']) {
        assert(name.subrange(i as int, (i + 1) as int)[0] == ':');
        assert(name[i as int] == ':');
    }
    assert(lines.push(name).drop_last() =~= lines);
}

/// What a head says is what its lines say: the method and the path are the
/// first two words of the first line, whatever they are, and the other lines
/// are the headers. It is refused only where a word is missing or the length is
/// refused.
pub proof fn head_says_what_its_lines_say(text: Seq<char>)
    ensures
        ({
            let lines = split(text, seq!['\r', '\n']);
            let method = first_word(lines[0]);
            let path = first_word(after_first_word(lines[0]));
            let headers = header_map(lines.drop_first());
            let said = parsed_head(encode_utf8(text));
            &&& method.len() == 0 || path.len() == 0 ==> said == Err::<HeadView, Seq<char>>(
                "Invalid HTTP request line."@,
            )
            &&& method.len() > 0 && path.len() > 0 ==> match announced_length(headers) {
                Err(error) => said == Err::<HeadView, Seq<char>>(error),
                Ok(content_length) => said == Ok::<HeadView, Seq<char>>(
                    HeadView { method, path, headers, content_length },
                ),
            }
        }),
{
    encode_utf8_valid_utf8(text);
    encode_utf8_decode_utf8(text);
}

/// Bytes that are no text are refused as a head.
pub proof fn head_must_be_text(bytes: Seq<u8>)
    requires
        !valid_utf8(bytes),
    ensures
        parsed_head(bytes) == Err::<HeadView, Seq<char>>("HTTP headers must be UTF-8."@),
{
}

/// A chunk leads to what the bytes so far hold with it; only the end of the
/// stream, or headers that have not ended within 64 kibibytes, cut this short.
pub proof fn chunks_are_taken(received: Seq<u8>, chunk: Seq<u8>)
    ensures
        ({
            let ended = find(received, seq![13u8, 10u8, 13u8, 10u8]) is Some;
            &&& chunk.len() > 0 && (ended || received.len() + chunk.len() <= 65536) ==> after_chunk(
                received,
                chunk,
            ) == request_in(received + chunk)
            &&& chunk.len() > 0 && !ended && received.len() + chunk.len() > 65536 ==> after_chunk(
                received,
                chunk,
            ) == ReadOutcome::Refused("HTTP headers are too large."@)
            &&& chunk.len() == 0 && ended ==> after_chunk(received, chunk) == ReadOutcome::Refused(
                "Connection closed before the body was complete."@,
            )
            &&& chunk.len() == 0 && !ended ==> after_chunk(received, chunk)
                == ReadOutcome::Refused("Connection closed before the request was complete."@)
        }),
{
}

/// A header is found by its name where there is one, whatever both are: the one
/// that was entered last under that name.
pub proof fn headers_are_found_by_name(
    headers: Map<Seq<char>, Seq<char>>,
    name: Seq<char>,
    value: Seq<char>,
    other: Seq<char>,
)
    requires
        other != name,
    ensures
        header(headers.insert(name, value), name) == Some(value),
        header(headers.insert(name, value), other) == header(headers, other),
        header(headers, name) is Some <==> headers.dom().contains(name),
        header(Map::<Seq<char>, Seq<char>>::empty(), name) is None,
{
}

} // verus!
