//! The HTTP endpoint that serves the metrics.

use subtle::ConstantTimeEq;
use vstd::prelude::*;

use crate::metrics::MetricsRegistry;
use crate::text::push_decimal;

verus! {

/// The longest request that is read.
pub const MAX_REQUEST_BYTES: usize = 4_096;

/// Calls `ConstantTimeEq::ct_eq` of `subtle` on two byte slices: it tells whether they hold the
/// same bytes. That it takes the same time for all contents of one length is not part of the
/// contract.
#[verifier::external_body]
fn same_bytes(left: &[u8], right: &[u8]) -> (result: bool)
    ensures
        result == (left@ == right@),
{
    bool::from(left.ct_eq(right))
}

/// The bytes that a text is sent as.
pub open spec fn bytes_of(text: Seq<char>) -> Seq<u8> {
    vstd::utf8::encode_utf8(text)
}

/// The line feed that ends a line.
pub open spec fn line_feed() -> u8 {
    10
}

/// The carriage return that may stand before a line feed.
pub open spec fn carriage_return() -> u8 {
    13
}

/// ASCII white space: tab, line feed, form feed, carriage return and space.
pub open spec fn is_ascii_space(byte: u8) -> bool {
    byte == 9 || byte == 10 || byte == 12 || byte == 13 || byte == 32
}

fn is_space(byte: u8) -> (result: bool)
    ensures
        result == is_ascii_space(byte),
{
    byte == 9 || byte == 10 || byte == 12 || byte == 13 || byte == 32
}

/// `bytes` without the white space at their front.
pub open spec fn front_trimmed(bytes: Seq<u8>) -> Seq<u8>
    decreases bytes.len(),
{
    if bytes.len() > 0 && is_ascii_space(bytes[0]) {
        front_trimmed(bytes.skip(1))
    } else {
        bytes
    }
}

/// `bytes` without the white space at their back.
pub open spec fn back_trimmed(bytes: Seq<u8>) -> Seq<u8>
    decreases bytes.len(),
{
    if bytes.len() > 0 && is_ascii_space(bytes.last()) {
        back_trimmed(bytes.drop_last())
    } else {
        bytes
    }
}

/// `bytes` without the white space around them.
pub open spec fn ascii_trimmed(bytes: Seq<u8>) -> Seq<u8> {
    back_trimmed(front_trimmed(bytes))
}

/// The part of `value` that is left when the white space around it is taken off.
pub fn trim_ascii(value: &[u8]) -> (result: &[u8])
    ensures
        result@ == ascii_trimmed(value@),
{
    let mut start: usize = 0;
    assert(value@.skip(0) =~= value@);
    while start < value.len() && is_space(value[start])
        invariant
            start <= value@.len(),
            front_trimmed(value@) == front_trimmed(value@.skip(start as int)),
        decreases value@.len() - start,
    {
        assert(value@.skip(start as int).skip(1) =~= value@.skip(start + 1));
        start = start + 1;
    }
    let mut end: usize = value.len();
    assert(value@.subrange(start as int, end as int) =~= value@.skip(start as int));
    while start < end && is_space(value[end - 1])
        invariant
            start <= end <= value@.len(),
            ascii_trimmed(value@) == back_trimmed(value@.subrange(start as int, end as int)),
        decreases end,
    {
        let ghost rest = value@.subrange(start as int, end as int);
        assert(rest.drop_last() =~= value@.subrange(start as int, end - 1));
        end = end - 1;
    }
    vstd::slice::slice_subrange(value, start, end)
}

/// An ASCII letter in lower case; another byte as it is.
pub open spec fn lower_byte(byte: u8) -> u8 {
    if 65 <= byte <= 90 {
        (byte + 32) as u8
    } else {
        byte
    }
}

/// The same bytes, whatever the case of ASCII letters.
pub open spec fn same_ignoring_case(left: Seq<u8>, right: Seq<u8>) -> bool {
    &&& left.len() == right.len()
    &&& forall|i: int| 0 <= i < left.len() ==> lower_byte(left[i]) == lower_byte(right[i])
}

fn to_lower(byte: u8) -> (result: u8)
    ensures
        result == lower_byte(byte),
{
    if 65 <= byte && byte <= 90 {
        byte + 32
    } else {
        byte
    }
}

fn eq_ignoring_case(left: &[u8], right: &[u8]) -> (result: bool)
    ensures
        result == same_ignoring_case(left@, right@),
{
    if left.len() != right.len() {
        return false;
    }
    let mut i: usize = 0;
    while i < left.len()
        invariant
            i <= left@.len(),
            left@.len() == right@.len(),
            forall|j: int| 0 <= j < i ==> lower_byte(left@[j]) == lower_byte(right@[j]),
        decreases left@.len() - i,
    {
        if to_lower(left[i]) != to_lower(right[i]) {
            return false;
        }
        i = i + 1;
    }
    true
}

/// A line without the carriage return at its end.
pub open spec fn without_return(line: Seq<u8>) -> Seq<u8> {
    if line.len() > 0 && line.last() == carriage_return() {
        line.drop_last()
    } else {
        line
    }
}

/// The value of an authorization header holds the bearer token `token`: the scheme in any case,
/// white space, and the token.
pub open spec fn is_bearer_value(value: Seq<u8>, token: Seq<u8>) -> bool {
    &&& value.len() >= 7
    &&& same_ignoring_case(value.take(6), bytes_of("bearer"@))
    &&& is_ascii_space(value[6])
    &&& ascii_trimmed(value.skip(6)) == token
}

/// The line is an authorization header with the bearer token `token`.
pub open spec fn is_authorization(line: Seq<u8>, token: Seq<u8>) -> bool {
    let header = without_return(line);
    match header.index_of_first(58u8) {
        None => false,
        Some(colon) => {
            &&& same_ignoring_case(header.take(colon), bytes_of("authorization"@))
            &&& is_bearer_value(ascii_trimmed(header.skip(colon + 1)), token)
        },
    }
}

/// Where the line that holds `start` ends: at a line feed, or with the bytes.
pub open spec fn line_end(bytes: Seq<u8>, start: int) -> int
    decreases bytes.len() - start,
{
    if start >= bytes.len() || bytes[start] == line_feed() {
        start
    } else {
        line_end(bytes, start + 1)
    }
}

/// The line that starts at `start`.
pub open spec fn line_at(bytes: Seq<u8>, start: int) -> Seq<u8> {
    bytes.subrange(start, line_end(bytes, start))
}

/// A line that is not the first starts at `start`.
pub open spec fn is_next_line(bytes: Seq<u8>, start: int) -> bool {
    0 < start <= bytes.len() && bytes[start - 1] == line_feed()
}

/// A line of the request, other than the first, is an authorization header with the bearer
/// token `token`.
pub open spec fn is_authorized(request: Seq<u8>, token: Seq<u8>) -> bool {
    exists|start: int|
        #[trigger] is_next_line(request, start) && is_authorization(line_at(request, start), token)
}

fn find_byte(bytes: &[u8], byte: u8) -> (result: Option<usize>)
    ensures
        match result {
            Some(index) => bytes@.index_of_first(byte) == Some(index as int) && index < bytes@.len(),
            None => bytes@.index_of_first(byte) is None,
        },
{
    proof {
        bytes@.index_of_first_ensures(byte);
    }
    let mut i: usize = 0;
    while i < bytes.len()
        invariant
            i <= bytes@.len(),
            match bytes@.index_of_first(byte) {
                Some(index) => i <= index < bytes@.len() && bytes@[index] == byte && (forall|j: int|
                    0 <= j < index ==> bytes@[j] != byte),
                None => !bytes@.contains(byte),
            },
        decreases bytes@.len() - i,
    {
        if bytes[i] == byte {
            assert(bytes@.contains(bytes@[i as int]));
            return Some(i);
        }
        i = i + 1;
    }
    None
}

fn is_authorization_line(line: &[u8], token: &[u8]) -> (result: bool)
    ensures
        result == is_authorization(line@, token@),
{
    let mut end: usize = line.len();
    if end > 0 && line[end - 1] == 13 {
        end = end - 1;
    }
    let header = vstd::slice::slice_subrange(line, 0, end);
    assert(header@ =~= without_return(line@));
    let colon = match find_byte(header, 58) {
        Some(index) => index,
        None => {
            return false;
        },
    };
    let name = vstd::slice::slice_subrange(header, 0, colon);
    assert(name@ =~= header@.take(colon as int));
    if !eq_ignoring_case(name, "authorization".as_bytes()) {
        return false;
    }
    let rest = vstd::slice::slice_subrange(header, colon + 1, header.len());
    assert(rest@ =~= header@.skip(colon + 1));
    let value = trim_ascii(rest);
    if value.len() < 7 {
        return false;
    }
    let scheme = vstd::slice::slice_subrange(value, 0, 6);
    assert(scheme@ =~= value@.take(6));
    if !eq_ignoring_case(scheme, "bearer".as_bytes()) || !is_space(value[6]) {
        return false;
    }
    let given = vstd::slice::slice_subrange(value, 6, value.len());
    assert(given@ =~= value@.skip(6));
    same_bytes(trim_ascii(given), token)
}

fn find_line_end(bytes: &[u8], start: usize) -> (result: usize)
    requires
        start <= bytes@.len(),
    ensures
        start <= result <= bytes@.len(),
        result == line_end(bytes@, start as int),
        forall|i: int| start <= i < result ==> bytes@[i] != line_feed(),
        result < bytes@.len() ==> bytes@[result as int] == line_feed(),
{
    let mut end: usize = start;
    while end < bytes.len() && bytes[end] != 10
        invariant
            start <= end <= bytes@.len(),
            line_end(bytes@, start as int) == line_end(bytes@, end as int),
            forall|i: int| start <= i < end ==> bytes@[i] != line_feed(),
        decreases bytes@.len() - end,
    {
        end = end + 1;
    }
    end
}

/// Whether a line of the request, other than the first, is an authorization header with the
/// bearer token `expected`.
pub fn has_valid_bearer_token(request: &[u8], expected: &str) -> (result: bool)
    ensures
        result == is_authorized(request@, bytes_of(expected@)),
{
    let token = expected.as_bytes();
    let mut end: usize = find_line_end(request, 0);
    while end < request.len()
        invariant
            end <= request@.len(),
            end < request@.len() ==> request@[end as int] == line_feed(),
            token@ == bytes_of(expected@),
            forall|start: int|
                start <= end && #[trigger] is_next_line(request@, start) ==> !is_authorization(
                    line_at(request@, start),
                    token@,
                ),
        decreases request@.len() - end,
    {
        let start: usize = end + 1;
        end = find_line_end(request, start);
        let line = vstd::slice::slice_subrange(request, start, end);
        assert(line@ =~= line_at(request@, start as int));
        assert(is_next_line(request@, start as int));
        if is_authorization_line(line, token) {
            return true;
        }
        assert forall|other: int|
            other <= end && #[trigger] is_next_line(request@, other) implies !is_authorization(
            line_at(request@, other),
            token@,
        ) by {
            if start < other {
                assert(request@[other - 1] != line_feed());
            }
        }
    }
    false
}

/// The empty line that ends the head of a request stands at `index`.
pub open spec fn is_head_end(bytes: Seq<u8>, index: int) -> bool {
    &&& 0 <= index <= bytes.len() - 4
    &&& bytes[index] == carriage_return()
    &&& bytes[index + 1] == line_feed()
    &&& bytes[index + 2] == carriage_return()
    &&& bytes[index + 3] == line_feed()
}

/// The bytes hold the whole head of a request.
pub open spec fn has_whole_head(bytes: Seq<u8>) -> bool {
    exists|index: int| is_head_end(bytes, index)
}

fn holds_whole_head(bytes: &[u8]) -> (result: bool)
    ensures
        result == has_whole_head(bytes@),
{
    let mut i: usize = 0;
    while i < bytes.len() && bytes.len() - i >= 4
        invariant
            i <= bytes@.len(),
            forall|index: int| index < i ==> !is_head_end(bytes@, index),
        decreases bytes@.len() - i,
    {
        if bytes[i] == 13 && bytes[i + 1] == 10 && bytes[i + 2] == 13 && bytes[i + 3] == 10 {
            assert(is_head_end(bytes@, i as int));
            return true;
        }
        i = i + 1;
    }
    false
}

/// A request while it is read.
pub struct RequestView {
    /// The bytes that were read.
    pub bytes: Seq<u8>,
    /// Whether the request is whole, once there is nothing more to read for it.
    pub outcome: Option<bool>,
}

impl RequestView {
    /// What holds of every request, however it is read: it is not too long, and is found whole
    /// exactly where it holds a whole head.
    pub open spec fn wf(self) -> bool {
        &&& self.bytes.len() <= MAX_REQUEST_BYTES
        &&& self.outcome == Some(true) <==> has_whole_head(self.bytes)
    }
}

/// The request after one more read. Nothing is read where the peer has sent all it sends, or no
/// room is left.
pub open spec fn after_read(request: RequestView, read: Seq<u8>) -> RequestView {
    if read.len() == 0 {
        RequestView { bytes: request.bytes, outcome: Some(false) }
    } else {
        let bytes = request.bytes + read;
        RequestView {
            bytes,
            outcome: if has_whole_head(bytes) {
                Some(true)
            } else {
                None
            },
        }
    }
}

/// Reads a request, one piece after the other.
#[derive(Debug)]
pub struct RequestReader {
    bytes: Vec<u8>,
    outcome: Option<bool>,
}

impl View for RequestReader {
    type V = RequestView;

    closed spec fn view(&self) -> RequestView {
        RequestView { bytes: self.bytes@, outcome: self.outcome }
    }
}

impl RequestReader {
    #[verifier::type_invariant]
    spec fn inv(self) -> bool {
        self@.wf()
    }

    /// A request of which nothing was read.
    pub fn new() -> (result: RequestReader)
        ensures
            result@ == (RequestView { bytes: Seq::empty(), outcome: None }),
            result@.wf(),
    {
        RequestReader { bytes: Vec::new(), outcome: None }
    }

    /// How many bytes may be read at most.
    pub fn room(&self) -> (result: usize)
        ensures
            self@.wf(),
            result == MAX_REQUEST_BYTES - self@.bytes.len(),
    {
        proof {
            use_type_invariant(self);
        }
        MAX_REQUEST_BYTES - self.bytes.len()
    }

    /// Whether the request is whole, once there is nothing more to read for it.
    pub fn outcome(&self) -> (result: Option<bool>)
        ensures
            result == self@.outcome,
    {
        self.outcome
    }

    /// The bytes that were read.
    pub fn bytes(&self) -> (result: &[u8])
        ensures
            result@ == self@.bytes,
    {
        self.bytes.as_slice()
    }

    /// Takes in the bytes of a read, none where there is nothing more to read.
    pub fn read_metrics_request(&mut self, read: &[u8])
        requires
            old(self)@.outcome is None,
            read@.len() <= MAX_REQUEST_BYTES - old(self)@.bytes.len(),
        ensures
            final(self)@ == after_read(old(self)@, read@),
            final(self)@.wf(),
    {
        proof {
            use_type_invariant(&*self);
        }
        if read.len() == 0 {
            self.outcome = Some(false);
            return;
        }
        let mut bytes: Vec<u8> = Vec::new();
        std::mem::swap(&mut bytes, &mut self.bytes);
        bytes.extend_from_slice(read);
        assert(bytes@ =~= old(self)@.bytes + read@);
        let whole = holds_whole_head(bytes.as_slice());
        *self = RequestReader {
            bytes,
            outcome: if whole {
                Some(true)
            } else {
                None
            },
        };
    }
}

/// How a request is answered.
#[derive(Clone, Copy, Debug, PartialEq, Eq, Structural)]
pub enum Reply {
    /// The token is missing or wrong.
    Unauthorized,
    /// The request is not whole.
    BadRequest,
    /// The metrics.
    Metrics,
    /// Something else than the metrics was asked for.
    NotFound,
}

/// The first line asks for the metrics.
pub open spec fn asks_for_metrics(request: Seq<u8>) -> bool {
    bytes_of("GET /metrics "@).is_prefix_of(line_at(request, 0))
}

/// How a request is answered. Nothing is said of the request to a client without the token.
pub open spec fn reply_to(request: Seq<u8>, complete: bool, token: Option<Seq<char>>) -> Reply {
    if token matches Some(token) && !is_authorized(request, bytes_of(token)) {
        Reply::Unauthorized
    } else if !complete {
        Reply::BadRequest
    } else if asks_for_metrics(request) {
        Reply::Metrics
    } else {
        Reply::NotFound
    }
}

fn starts_with_text(bytes: &[u8], text: &str) -> (result: bool)
    ensures
        result == bytes_of(text@).is_prefix_of(bytes@),
{
    let start = text.as_bytes();
    if start.len() > bytes.len() {
        return false;
    }
    let mut i: usize = 0;
    while i < start.len()
        invariant
            i <= start@.len() <= bytes@.len(),
            start@ == bytes_of(text@),
            forall|j: int| 0 <= j < i ==> start@[j] == bytes@[j],
        decreases start@.len() - i,
    {
        if start[i] != bytes[i] {
            assert(bytes_of(text@)[i as int] != bytes@.subrange(0, start@.len() as int)[i as int]);
            return false;
        }
        i = i + 1;
    }
    assert(bytes@.subrange(0, start@.len() as int) =~= start@);
    true
}

/// Decides how a request is answered.
pub fn metrics_reply(request: &[u8], complete: bool, token: &Option<String>) -> (result: Reply)
    ensures
        result == reply_to(request@, complete, crate::text::optional(*token)),
{
    if let Some(token) = token {
        if !has_valid_bearer_token(request, token.as_str()) {
            return Reply::Unauthorized;
        }
    }
    if !complete {
        return Reply::BadRequest;
    }
    let end = find_line_end(request, 0);
    let line = vstd::slice::slice_subrange(request, 0, end);
    assert(line@ =~= line_at(request@, 0));
    if starts_with_text(line, "GET /metrics ") {
        Reply::Metrics
    } else {
        Reply::NotFound
    }
}

impl Reply {
    /// The status of the answer.
    pub open spec fn status_text(self) -> Seq<char> {
        match self {
            Reply::Unauthorized => "401 Unauthorized"@,
            Reply::BadRequest => "400 Bad Request"@,
            Reply::Metrics => "200 OK"@,
            Reply::NotFound => "404 Not Found"@,
        }
    }

    /// The kind of text that the answer is.
    pub open spec fn content_type_text(self) -> Seq<char> {
        match self {
            Reply::Metrics => "text/plain; version=0.0.4; charset=utf-8"@,
            _ => "text/plain; charset=utf-8"@,
        }
    }

    /// The header that asks for a token, where that is the answer.
    pub open spec fn challenge_text(self) -> Seq<char> {
        match self {
            Reply::Unauthorized => "WWW-Authenticate: Bearer\r\n"@,
            _ => ""@,
        }
    }

    /// The text of the answer.
    pub open spec fn body_text(self, relays: Seq<crate::metrics::RelayMetricsView>) -> Seq<char> {
        match self {
            Reply::Unauthorized => "unauthorized\n"@,
            Reply::BadRequest => "bad request\n"@,
            Reply::Metrics => crate::metrics::exposition(relays),
            Reply::NotFound => "not found\n"@,
        }
    }

    /// The head of an answer with the text `body`.
    pub open spec fn header_text(self, body: Seq<char>) -> Seq<char> {
        "HTTP/1.1 "@ + self.status_text() + "\r\nContent-Type: "@ + self.content_type_text()
            + "\r\nContent-Length: "@ + crate::text::decimal(bytes_of(body).len()) + "\r\n"@
            + self.challenge_text() + "Connection: close\r\n\r\n"@
    }

    fn status(self) -> (result: &'static str)
        ensures
            result@ == self.status_text(),
    {
        match self {
            Reply::Unauthorized => "401 Unauthorized",
            Reply::BadRequest => "400 Bad Request",
            Reply::Metrics => "200 OK",
            Reply::NotFound => "404 Not Found",
        }
    }

    fn content_type(self) -> (result: &'static str)
        ensures
            result@ == self.content_type_text(),
    {
        match self {
            Reply::Metrics => "text/plain; version=0.0.4; charset=utf-8",
            _ => "text/plain; charset=utf-8",
        }
    }

    fn challenge(self) -> (result: &'static str)
        ensures
            result@ == self.challenge_text(),
    {
        match self {
            Reply::Unauthorized => "WWW-Authenticate: Bearer\r\n",
            _ => "",
        }
    }

    fn body(self, registry: &MetricsRegistry) -> (result: String)
        ensures
            result@ == self.body_text(registry@),
    {
        match self {
            Reply::Unauthorized => "unauthorized\n".to_owned(),
            Reply::BadRequest => "bad request\n".to_owned(),
            Reply::Metrics => registry.render(),
            Reply::NotFound => "not found\n".to_owned(),
        }
    }
}

/// An answer: its head, and the text that follows it.
#[derive(Debug)]
pub struct Response {
    pub header: String,
    pub body: String,
}

/// The answer to a request.
pub fn metrics_response(
    request: &[u8],
    complete: bool,
    token: &Option<String>,
    registry: &MetricsRegistry,
) -> (result: Response)
    ensures
        ({
            let reply = reply_to(request@, complete, crate::text::optional(*token));
            &&& result.body@ == reply.body_text(registry@)
            &&& result.header@ == reply.header_text(result.body@)
        }),
{
    let reply = metrics_reply(request, complete, token);
    let body = reply.body(registry);
    let mut header = "HTTP/1.1 ".to_owned();
    header.append(reply.status());
    header.append("\r\nContent-Type: ");
    header.append(reply.content_type());
    header.append("\r\nContent-Length: ");
    push_decimal(&mut header, body.as_str().as_bytes().len() as u128);
    header.append("\r\n");
    header.append(reply.challenge());
    header.append("Connection: close\r\n\r\n");
    Response { header, body }
}

/// A client without the token gets the same answer whatever it asks for and whatever the
/// counters hold: that it is not authorized, and which kind of token is wanted.
pub proof fn refused_clients_learn_nothing(
    request: Seq<u8>,
    complete: bool,
    token: Seq<char>,
    relays: Seq<crate::metrics::RelayMetricsView>,
)
    requires
        !is_authorized(request, bytes_of(token)),
    ensures
        reply_to(request, complete, Some(token)) == Reply::Unauthorized,
        reply_to(request, complete, Some(token)).body_text(relays) == "unauthorized\n"@,
        reply_to(request, complete, Some(token)).status_text() == "401 Unauthorized"@,
        reply_to(request, complete, Some(token)).challenge_text()
            == "WWW-Authenticate: Bearer\r\n"@,
{
}

/// The metrics are the answer exactly to whole requests for them that carry the token, where
/// there is one.
pub proof fn metrics_need_token_and_whole_request(
    request: Seq<u8>,
    complete: bool,
    token: Option<Seq<char>>,
)
    ensures
        reply_to(request, complete, token) == Reply::Metrics <==> complete && asks_for_metrics(
            request,
        ) && (token matches Some(token) ==> is_authorized(request, bytes_of(token))),
{
}

proof fn lemma_line_end(bytes: Seq<u8>, start: int, end: int)
    requires
        0 <= start <= end < bytes.len(),
        bytes[end] == line_feed(),
        forall|i: int| start <= i < end ==> bytes[i] != line_feed(),
    ensures
        line_end(bytes, start) == end,
    decreases end - start,
{
    if start < end {
        lemma_line_end(bytes, start + 1, end);
    }
}

proof fn lemma_trimmed_same(bytes: Seq<u8>)
    requires
        bytes.len() > 0,
        !is_ascii_space(bytes[0]),
        !is_ascii_space(bytes.last()),
    ensures
        ascii_trimmed(bytes) == bytes,
{
}

proof fn lemma_trimmed_after_space(bytes: Seq<u8>)
    requires
        bytes.len() > 1,
        is_ascii_space(bytes[0]),
        !is_ascii_space(bytes[1]),
        !is_ascii_space(bytes.last()),
    ensures
        ascii_trimmed(bytes) == bytes.skip(1),
{
    assert(front_trimmed(bytes) == front_trimmed(bytes.skip(1)));
    lemma_trimmed_same(bytes.skip(1));
}

/// A header line that gives the token by the bearer scheme authorizes a request, wherever it
/// stands behind the first line, and whatever else the request holds.
pub proof fn bearer_headers_authorize(before: Seq<u8>, token: Seq<u8>, after: Seq<u8>)
    requires
        before.len() > 0,
        before.last() == line_feed(),
        token.len() > 0,
        !is_ascii_space(token[0]),
        !is_ascii_space(token.last()),
        !token.contains(line_feed()),
    ensures
        is_authorized(
            before + bytes_of("Authorization: Bearer "@) + token + bytes_of("\r\n"@) + after,
            token,
        ),
{
    reveal_strlit("Authorization: Bearer ");
    reveal_strlit("authorization");
    reveal_strlit("bearer");
    reveal_strlit("\r\n");
    vstd::utf8::is_ascii_chars_encode_utf8("Authorization: Bearer "@);
    vstd::utf8::is_ascii_chars_encode_utf8("authorization"@);
    vstd::utf8::is_ascii_chars_encode_utf8("bearer"@);
    vstd::utf8::is_ascii_chars_encode_utf8("\r\n"@);
    let start = before.len() as int;
    let lead = bytes_of("Authorization: Bearer "@);
    let request = before + lead + token + bytes_of("\r\n"@) + after;
    let header = lead + token;
    let end = start + header.len() + 1;
    assert forall|i: int| start <= i < end implies request[i] != line_feed() by {
        if start + lead.len() <= i < start + header.len() {
            assert(token.contains(token[i - start - lead.len()]));
        }
    }
    lemma_line_end(request, start, end);
    assert(is_next_line(request, start));
    let line = line_at(request, start);
    assert(without_return(line) =~= header);
    header.index_of_first_ensures(58u8);
    assert(header[13] == 58);
    assert(header.contains(header[13]));
    assert(header.index_of_first(58u8) == Some(13int));
    assert(same_ignoring_case(header.take(13), bytes_of("authorization"@)));
    let value = header.skip(15);
    assert(header.skip(14).skip(1) =~= value);
    lemma_trimmed_after_space(header.skip(14));
    assert(same_ignoring_case(value.take(6), bytes_of("bearer"@)));
    assert(value.skip(6).skip(1) =~= token);
    lemma_trimmed_after_space(value.skip(6));
    assert(is_bearer_value(value, token));
}

proof fn lemma_front_trimmed_last(bytes: Seq<u8>)
    requires
        bytes.len() > 0,
        !is_ascii_space(bytes.last()),
    ensures
        front_trimmed(bytes).len() > 0,
        front_trimmed(bytes).last() == bytes.last(),
    decreases bytes.len(),
{
    if is_ascii_space(bytes[0]) {
        lemma_front_trimmed_last(bytes.skip(1));
    }
}

proof fn lemma_back_trimmed_last(bytes: Seq<u8>)
    ensures
        back_trimmed(bytes).len() > 0 ==> !is_ascii_space(back_trimmed(bytes).last()),
    decreases bytes.len(),
{
    if bytes.len() > 0 && is_ascii_space(bytes.last()) {
        lemma_back_trimmed_last(bytes.drop_last());
    }
}

/// No request carries an empty token.
pub proof fn empty_tokens_authorize_nothing(request: Seq<u8>)
    ensures
        !is_authorized(request, Seq::empty()),
{
    assert forall|start: int| #[trigger] is_next_line(request, start) implies !is_authorization(
        line_at(request, start),
        Seq::empty(),
    ) by {
        let header = without_return(line_at(request, start));
        if let Some(colon) = header.index_of_first(58u8) {
            let value = ascii_trimmed(header.skip(colon + 1));
            lemma_back_trimmed_last(front_trimmed(header.skip(colon + 1)));
            if value.len() >= 7 {
                lemma_front_trimmed_last(value.skip(6));
            }
        }
    }
}

/// A whole head stays whole: what is read behind it changes nothing.
pub proof fn whole_heads_stay_whole(bytes: Seq<u8>, more: Seq<u8>)
    ensures
        has_whole_head(bytes) ==> has_whole_head(bytes + more),
{
    if has_whole_head(bytes) {
        let index = choose|index: int| is_head_end(bytes, index);
        assert(is_head_end(bytes + more, index));
    }
}

/// The part of what a peer sends that can be read: the first bytes, up to the longest request.
pub open spec fn readable(stream: Seq<u8>) -> Seq<u8> {
    if stream.len() <= MAX_REQUEST_BYTES {
        stream
    } else {
        stream.take(MAX_REQUEST_BYTES as int)
    }
}

/// A request after the first `count` of `pieces` were read.
pub open spec fn request_after(pieces: Seq<Seq<u8>>, count: nat) -> RequestView
    decreases count,
{
    if count == 0 {
        RequestView { bytes: Seq::empty(), outcome: None }
    } else {
        after_read(request_after(pieces, (count - 1) as nat), pieces[count - 1])
    }
}

/// A piece can be read next of what a peer sends, which is `stream`: it is what follows the
/// bytes that were read, and fits the room that is left. It is empty only where all that can be
/// read was read.
pub open spec fn can_read(request: RequestView, piece: Seq<u8>, stream: Seq<u8>) -> bool {
    &&& request.outcome is None
    &&& (request.bytes + piece).is_prefix_of(readable(stream))
    &&& piece.len() == 0 ==> request.bytes == readable(stream)
}

/// The first `count` of `pieces` can be read, one after the other, of a peer that sends `stream`.
pub open spec fn is_request_run(pieces: Seq<Seq<u8>>, stream: Seq<u8>, count: nat) -> bool
    decreases count,
{
    count > 0 ==> is_request_run(pieces, stream, (count - 1) as nat) && can_read(
        request_after(pieces, (count - 1) as nat),
        pieces[count - 1],
        stream,
    )
}

/// In whatever pieces a request arrives, the bytes held are the start of what the peer sends;
/// and once it is read, or all that can be read of it was read, it is found whole exactly where
/// the part that can be read holds a whole head.
pub proof fn pieces_do_not_matter(pieces: Seq<Seq<u8>>, stream: Seq<u8>, count: nat)
    requires
        is_request_run(pieces, stream, count),
    ensures
        ({
            let request = request_after(pieces, count);
            &&& request.wf()
            &&& request.bytes.is_prefix_of(readable(stream))
            &&& request.bytes.is_prefix_of(stream)
            &&& request.outcome is Some || request.bytes == readable(stream) ==> (request.outcome
                == Some(true) <==> has_whole_head(readable(stream)))
        }),
    decreases count,
{
    let request = request_after(pieces, count);
    if count > 0 {
        pieces_do_not_matter(pieces, stream, (count - 1) as nat);
        let before = request_after(pieces, (count - 1) as nat);
        let piece = pieces[count - 1];
        if piece.len() == 0 {
            assert(before.bytes + piece =~= before.bytes);
        }
    } else {
        assert(request.bytes =~= readable(stream).subrange(0, 0));
    }
    assert(request.bytes =~= stream.subrange(0, request.bytes.len() as int));
    let rest = readable(stream).skip(request.bytes.len() as int);
    assert(readable(stream) =~= request.bytes + rest);
    whole_heads_stay_whole(request.bytes, rest);
}

/// Two readings of what one peer sends, in different pieces, find the same: both a whole request
/// or neither.
pub proof fn readings_agree(first: Seq<Seq<u8>>, second: Seq<Seq<u8>>, stream: Seq<u8>)
    requires
        is_request_run(first, stream, first.len()),
        is_request_run(second, stream, second.len()),
        request_after(first, first.len()).outcome is Some,
        request_after(second, second.len()).outcome is Some,
    ensures
        request_after(first, first.len()).outcome == request_after(second, second.len()).outcome,
{
    pieces_do_not_matter(first, stream, first.len());
    pieces_do_not_matter(second, stream, second.len());
}

} // verus!
