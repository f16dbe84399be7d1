//! What a metrics request must look like, and what is answered to it.

use vstd::prelude::*;

use crate::http::{Reply, RequestView};
use crate::metrics::RelayMetricsView;

verus! {

/// A tab, line feed, form feed, carriage return or space.
pub open spec fn is_blank(byte: u8) -> bool {
    byte == 9 || byte == 10 || byte == 12 || byte == 13 || byte == 32
}

/// All bytes from `start` up to `end` are blank.
pub open spec fn are_blank(bytes: Seq<u8>, start: int, end: int) -> bool {
    forall|i: int| start <= i < end ==> is_blank(#[trigger] bytes[i])
}

/// The bytes are the word of small letters, with letters of either case.
pub open spec fn spell(bytes: Seq<u8>, word: Seq<char>) -> bool {
    &&& bytes.len() == word.len()
    &&& forall|i: int|
        0 <= i < bytes.len() ==> (#[trigger] bytes[i]) as int == word[i] as int || (65 <= bytes[i]
            <= 90 && bytes[i] + 32 == word[i] as int)
}

proof fn lemma_front(bytes: Seq<u8>) -> (start: int)
    ensures
        0 <= start <= bytes.len(),
        crate::http::front_trimmed(bytes) == bytes.skip(start),
        are_blank(bytes, 0, start),
        start < bytes.len() ==> !is_blank(bytes[start]),
    decreases bytes.len(),
{
    if bytes.len() > 0 && is_blank(bytes[0]) {
        let rest = lemma_front(bytes.skip(1));
        assert(bytes.skip(1).skip(rest) =~= bytes.skip(rest + 1));
        assert forall|i: int| 0 <= i < rest + 1 implies is_blank(#[trigger] bytes[i]) by {
            if i > 0 {
                assert(bytes[i] == bytes.skip(1)[i - 1]);
            }
        }
        rest + 1
    } else {
        assert(bytes.skip(0) =~= bytes);
        0
    }
}

proof fn lemma_back(bytes: Seq<u8>) -> (end: int)
    ensures
        0 <= end <= bytes.len(),
        crate::http::back_trimmed(bytes) == bytes.take(end),
        are_blank(bytes, end, bytes.len() as int),
        end > 0 ==> !is_blank(bytes[end - 1]),
    decreases bytes.len(),
{
    if bytes.len() > 0 && is_blank(bytes.last()) {
        let end = lemma_back(bytes.drop_last());
        assert(bytes.drop_last().take(end) =~= bytes.take(end));
        assert forall|i: int| end <= i < bytes.len() implies is_blank(#[trigger] bytes[i]) by {
            if i < bytes.len() - 1 {
                assert(bytes[i] == bytes.drop_last()[i]);
            }
        }
        end
    } else {
        assert(bytes.take(bytes.len() as int) =~= bytes);
        bytes.len() as int
    }
}

proof fn lemma_trim(bytes: Seq<u8>) -> (bounds: (int, int))
    ensures
        0 <= bounds.0 <= bounds.1 <= bytes.len(),
        crate::http::ascii_trimmed(bytes) == bytes.subrange(bounds.0, bounds.1),
        are_blank(bytes, 0, bounds.0),
        are_blank(bytes, bounds.1, bytes.len() as int),
        bounds.0 < bounds.1 ==> !is_blank(bytes[bounds.0]) && !is_blank(bytes[bounds.1 - 1]),
        bounds.0 == bounds.1 ==> are_blank(bytes, 0, bytes.len() as int),
{
    let start = lemma_front(bytes);
    let rest = bytes.skip(start);
    let end = lemma_back(rest);
    assert(rest.take(end) =~= bytes.subrange(start, start + end));
    assert forall|i: int| start + end <= i < bytes.len() implies is_blank(#[trigger] bytes[i]) by {
        assert(bytes[i] == rest[i - start]);
    }
    if end > 0 {
        assert(!is_blank(rest[end - 1]));
    }
    (start, start + end)
}

/// Trimming bytes that have blanks only around something else leaves exactly that; and it leaves
/// nothing of bytes that are all blank.
pub proof fn trimming_leaves_what_blanks_surround(bytes: Seq<u8>, start: int, end: int)
    requires
        0 <= start <= end <= bytes.len(),
        start < end ==> !is_blank(bytes[start]) && !is_blank(bytes[end - 1]),
        are_blank(bytes, 0, start),
        are_blank(bytes, end, bytes.len() as int),
    ensures
        crate::http::ascii_trimmed(bytes) == bytes.subrange(start, end),
{
    let (first, last) = lemma_trim(bytes);
    if start < end {
        assert(first == start);
        assert(last == end);
    } else {
        if first < last {
            assert(is_blank(bytes[first]));
        }
        assert(bytes.subrange(first, last) =~= bytes.subrange(start, end));
    }
}

proof fn lemma_spell(bytes: Seq<u8>, word: Seq<char>)
    requires
        forall|i: int| 0 <= i < word.len() ==> 'a' <= #[trigger] word[i] && word[i] <= 'z',
    ensures
        crate::http::same_ignoring_case(bytes, crate::http::bytes_of(word)) <==> spell(bytes, word),
{
    assert(vstd::utf8::is_ascii_chars(word));
    vstd::utf8::is_ascii_chars_encode_utf8(word);
    let small = crate::http::bytes_of(word);
    assert(small.len() == word.len());
    assert forall|i: int| 0 <= i < word.len() implies small[i] as int == word[i] as int
        && crate::http::lower_byte(small[i]) == small[i] by {
        assert('a' <= word[i] && word[i] <= 'z');
    }
    if crate::http::same_ignoring_case(bytes, small) {
        assert forall|i: int| 0 <= i < bytes.len() implies (#[trigger] bytes[i]) as int
            == word[i] as int || (65 <= bytes[i] <= 90 && bytes[i] + 32 == word[i] as int) by {
            assert(crate::http::lower_byte(bytes[i]) == crate::http::lower_byte(small[i]));
        }
    }
    if spell(bytes, word) {
        assert forall|i: int| 0 <= i < bytes.len() implies crate::http::lower_byte(bytes[i])
            == crate::http::lower_byte(small[i]) by {
            assert('a' <= word[i] && word[i] <= 'z');
        }
    }
}

/// Where the parts of a bearer header are in a line: the name up to its colon, the scheme, and the
/// token up to `end`, with blanks around them and at least one behind the scheme.
pub open spec fn are_bearer_parts(
    line: Seq<u8>,
    token: Seq<u8>,
    colon: int,
    scheme: int,
    start: int,
    end: int,
) -> bool {
    &&& 0 <= colon < scheme
    &&& scheme + 6 < start < end <= line.len()
    &&& spell(line.take(colon), "authorization"@)
    &&& line[colon] == 58
    &&& are_blank(line, colon + 1, scheme)
    &&& spell(line.subrange(scheme, scheme + 6), "bearer"@)
    &&& are_blank(line, scheme + 6, start)
    &&& line.subrange(start, end) == token
    &&& are_blank(line, end, line.len() as int)
}

/// A header line that carries the token: its name is `authorization` and its value the scheme
/// `bearer`, both in any case, with blanks and the token behind it.
pub open spec fn is_bearer_line(line: Seq<u8>, token: Seq<u8>) -> bool {
    &&& token.len() > 0
    &&& !is_blank(token[0])
    &&& !is_blank(token.last())
    &&& exists|colon: int, scheme: int, start: int, end: int|
        #[trigger] are_bearer_parts(line, token, colon, scheme, start, end)
}

proof fn lemma_bearer_line_accepted(
    line: Seq<u8>,
    token: Seq<u8>,
    colon: int,
    scheme: int,
    start: int,
    end: int,
)
    requires
        are_bearer_parts(line, token, colon, scheme, start, end),
        token.len() > 0,
        !is_blank(token[0]),
        !is_blank(token.last()),
    ensures
        crate::http::is_authorization(line, token),
{
    reveal_strlit("authorization");
    reveal_strlit("bearer");
    let header = crate::http::without_return(line);
    assert(token[0] == line[start]);
    assert(token.last() == line[end - 1]);
    assert(end <= header.len());
    assert forall|i: int| 0 <= i < header.len() implies header[i] == line[i] by {}
    header.index_of_first_ensures(58u8);
    assert(header[colon] == 58);
    assert(header.contains(header[colon]));
    let name = line.take(colon);
    let found = header.index_of_first(58u8)->0;
    if found < colon {
        assert(name[found] == 58);
    }
    assert(found == colon);
    assert(header.take(colon) =~= name);
    lemma_spell(name, "authorization"@);
    let rest = header.skip(colon + 1);
    let word = line.subrange(scheme, scheme + 6);
    assert(word[0] == line[scheme]);
    assert(!is_blank(line[scheme]));
    let first = scheme - colon - 1;
    let last = end - colon - 1;
    assert forall|i: int| 0 <= i < first implies is_blank(#[trigger] rest[i]) by {
        assert(rest[i] == line[i + colon + 1]);
    }
    assert forall|i: int| last <= i < rest.len() implies is_blank(#[trigger] rest[i]) by {
        assert(rest[i] == line[i + colon + 1]);
    }
    trimming_leaves_what_blanks_surround(rest, first, last);
    let value = rest.subrange(first, last);
    assert(value =~= line.subrange(scheme, end));
    assert(value.take(6) =~= word);
    lemma_spell(word, "bearer"@);
    assert(value[6] == line[scheme + 6]);
    let tail = value.skip(6);
    assert forall|i: int| 0 <= i < start - scheme - 6 implies is_blank(#[trigger] tail[i]) by {
        assert(tail[i] == line[i + scheme + 6]);
    }
    trimming_leaves_what_blanks_surround(tail, start - scheme - 6, tail.len() as int);
    assert(tail.subrange(start - scheme - 6, tail.len() as int) =~= token);
}

proof fn lemma_authorization_parts(line: Seq<u8>, token: Seq<u8>)
    requires
        crate::http::is_authorization(line, token),
    ensures
        is_bearer_line(line, token),
{
    reveal_strlit("authorization");
    reveal_strlit("bearer");
    let header = crate::http::without_return(line);
    header.index_of_first_ensures(58u8);
    let colon = header.index_of_first(58u8)->0;
    lemma_spell(header.take(colon), "authorization"@);
    assert(header.take(colon) =~= line.take(colon));
    let rest = header.skip(colon + 1);
    let (first, last) = lemma_trim(rest);
    let value = rest.subrange(first, last);
    let scheme = colon + 1 + first;
    assert(value.len() >= 7);
    lemma_spell(value.take(6), "bearer"@);
    assert(value.take(6) =~= line.subrange(scheme, scheme + 6));
    let tail = value.skip(6);
    let (from, to) = lemma_trim(tail);
    assert(tail[0] == value[6]);
    assert(tail.last() == value.last());
    assert(!is_blank(tail.last()));
    assert(from < to);
    assert(to == tail.len());
    assert(from > 0);
    let start = scheme + 6 + from;
    let end = scheme + 6 + to;
    assert(token =~= line.subrange(start, end));
    assert(token[0] == tail[from]);
    assert(token.last() == tail[to - 1]);
    assert forall|i: int| colon + 1 <= i < scheme implies is_blank(#[trigger] line[i]) by {
        assert(line[i] == rest[i - colon - 1]);
    }
    assert forall|i: int| scheme + 6 <= i < start implies is_blank(#[trigger] line[i]) by {
        assert(line[i] == tail[i - scheme - 6]);
    }
    assert forall|i: int| end <= i < line.len() implies is_blank(#[trigger] line[i]) by {
        if i < header.len() {
            assert(line[i] == rest[i - colon - 1]);
        }
    }
    assert(are_bearer_parts(line, token, colon, scheme, start, end));
}

/// A line carries the token exactly where it is a bearer header with it.
pub proof fn bearer_lines_carry_their_token(line: Seq<u8>, token: Seq<u8>)
    ensures
        crate::http::is_authorization(line, token) <==> is_bearer_line(line, token),
{
    if crate::http::is_authorization(line, token) {
        lemma_authorization_parts(line, token);
    }
    if is_bearer_line(line, token) {
        let (colon, scheme, start, end) = choose|colon: int, scheme: int, start: int, end: int|
            #[trigger] are_bearer_parts(line, token, colon, scheme, start, end);
        lemma_bearer_line_accepted(line, token, colon, scheme, start, end);
    }
}

/// The bytes from `start` up to `end` are a line behind the first: a line feed stands before them
/// and none in them, and they end at a line feed or with the request.
pub open spec fn is_later_line(request: Seq<u8>, start: int, end: int) -> bool {
    &&& 0 < start <= end <= request.len()
    &&& request[start - 1] == 10
    &&& end == request.len() || request[end] == 10
    &&& forall|i: int| start <= i < end ==> #[trigger] request[i] != 10
}

proof fn lemma_line(bytes: Seq<u8>, start: int)
    requires
        0 <= start <= bytes.len(),
    ensures
        ({
            let end = crate::http::line_end(bytes, start);
            &&& start <= end <= bytes.len()
            &&& end == bytes.len() || bytes[end] == 10
            &&& forall|i: int| start <= i < end ==> #[trigger] bytes[i] != 10
        }),
    decreases bytes.len() - start,
{
    if start < bytes.len() && bytes[start] != 10 {
        lemma_line(bytes, start + 1);
    }
}

/// A request carries the token exactly where one of its lines behind the first is a bearer header
/// with it.
pub proof fn requests_carry_tokens_in_headers(request: Seq<u8>, token: Seq<u8>)
    ensures
        crate::http::is_authorized(request, token) <==> exists|start: int, end: int|
            #[trigger] is_later_line(request, start, end) && is_bearer_line(
                request.subrange(start, end),
                token,
            ),
{
    if crate::http::is_authorized(request, token) {
        let start = choose|start: int|
            #[trigger] crate::http::is_next_line(request, start) && crate::http::is_authorization(
                crate::http::line_at(request, start),
                token,
            );
        lemma_line(request, start);
        let end = crate::http::line_end(request, start);
        bearer_lines_carry_their_token(request.subrange(start, end), token);
        assert(is_later_line(request, start, end));
    }
    if exists|start: int, end: int|
        #[trigger] is_later_line(request, start, end) && is_bearer_line(
            request.subrange(start, end),
            token,
        ) {
        let (start, end) = choose|start: int, end: int|
            #[trigger] is_later_line(request, start, end) && is_bearer_line(
                request.subrange(start, end),
                token,
            );
        lemma_line(request, start);
        let found = crate::http::line_end(request, start);
        if found < end {
            assert(request[found] != 10);
        }
        if end < found {
            assert(request[end] != 10);
        }
        bearer_lines_carry_their_token(request.subrange(start, end), token);
        assert(crate::http::is_next_line(request, start));
    }
}

/// The head of a request is whole exactly where an empty line ends it: two line breaks in a row.
pub proof fn heads_end_at_empty_lines(bytes: Seq<u8>)
    ensures
        crate::http::has_whole_head(bytes) <==> exists|index: int|
            0 <= index <= bytes.len() - 4 && #[trigger] bytes.subrange(index, index + 4) == seq![
                13u8,
                10u8,
                13u8,
                10u8,
            ],
{
    let stop = seq![13u8, 10u8, 13u8, 10u8];
    if crate::http::has_whole_head(bytes) {
        let index = choose|index: int| crate::http::is_head_end(bytes, index);
        assert(bytes.subrange(index, index + 4) =~= stop);
    }
    if exists|index: int|
        0 <= index <= bytes.len() - 4 && #[trigger] bytes.subrange(index, index + 4) == stop {
        let index = choose|index: int|
            0 <= index <= bytes.len() - 4 && #[trigger] bytes.subrange(index, index + 4) == stop;
        let part = bytes.subrange(index, index + 4);
        assert(part[0] == bytes[index]);
        assert(part[1] == bytes[index + 1]);
        assert(part[2] == bytes[index + 2]);
        assert(part[3] == bytes[index + 3]);
        assert(crate::http::is_head_end(bytes, index));
    }
}

/// A request asks for the metrics exactly where it starts with `GET /metrics` and a space.
pub proof fn metrics_are_asked_for_by_path(request: Seq<u8>)
    ensures
        crate::http::asks_for_metrics(request) <==> request.len() >= 13 && forall|i: int|
            0 <= i < 13 ==> #[trigger] request[i] as int == "GET /metrics "@[i] as int,
{
    reveal_strlit("GET /metrics ");
    let start = "GET /metrics "@;
    assert(vstd::utf8::is_ascii_chars(start));
    vstd::utf8::is_ascii_chars_encode_utf8(start);
    let wanted = crate::http::bytes_of(start);
    assert(wanted.len() == 13);
    assert forall|i: int| 0 <= i < 13 implies #[trigger] wanted[i] as int == start[i] as int by {}
    lemma_line(request, 0);
    let line = crate::http::line_at(request, 0);
    let end = crate::http::line_end(request, 0);
    if crate::http::asks_for_metrics(request) {
        assert forall|i: int| 0 <= i < 13 implies #[trigger] request[i] as int
            == start[i] as int by {
            assert(wanted[i] == line.subrange(0, 13)[i]);
        }
    }
    if request.len() >= 13 && forall|i: int|
        0 <= i < 13 ==> #[trigger] request[i] as int == start[i] as int {
        if end < 13 {
            assert(request[end] as int == start[end] as int);
            assert(start[end] as int != 10);
        }
        assert(wanted =~= line.subrange(0, 13));
    }
}

/// What each request is answered. Without the token that is asked for, nothing else counts; then
/// a request must be whole, and only the metrics are there to be asked for.
pub proof fn requests_get_their_answer(
    request: Seq<u8>,
    complete: bool,
    token: Option<Seq<char>>,
)
    ensures
        ({
            let reply = crate::http::reply_to(request, complete, token);
            let is_refused = token is Some && !crate::http::is_authorized(
                request,
                crate::http::bytes_of(token->0),
            );
            let asks = crate::http::asks_for_metrics(request);
            &&& reply == Reply::Unauthorized <==> is_refused
            &&& reply == Reply::BadRequest <==> !is_refused && !complete
            &&& reply == Reply::Metrics <==> !is_refused && complete && asks
            &&& reply == Reply::NotFound <==> !is_refused && complete && !asks
        }),
{
}

/// The texts of all answers: the status, the kind and length of the body, and that the connection
/// ends. Only a refused client is told how to authenticate, and only a `200` holds the metrics.
pub proof fn answers_have_these_texts(body: Seq<char>, relays: Seq<RelayMetricsView>)
    ensures
        ({
            let length = "\r\nContent-Length: "@ + crate::text::decimal(
                crate::http::bytes_of(body).len(),
            ) + "\r\n"@;
            let plain = "\r\nContent-Type: "@ + "text/plain; charset=utf-8"@;
            let versioned = "\r\nContent-Type: "@ + "text/plain; version=0.0.4; charset=utf-8"@;
            let close = "Connection: close\r\n\r\n"@;
            &&& Reply::Metrics.header_text(body) == "HTTP/1.1 "@ + "200 OK"@ + versioned + length
                + close
            &&& Reply::BadRequest.header_text(body) == "HTTP/1.1 "@ + "400 Bad Request"@ + plain
                + length + close
            &&& Reply::Unauthorized.header_text(body) == "HTTP/1.1 "@ + "401 Unauthorized"@ + plain
                + length + "WWW-Authenticate: Bearer\r\n"@ + close
            &&& Reply::NotFound.header_text(body) == "HTTP/1.1 "@ + "404 Not Found"@ + plain
                + length + close
        }),
        Reply::Metrics.body_text(relays) == crate::metrics::exposition(relays),
        Reply::BadRequest.body_text(relays) == "bad request\n"@,
        Reply::Unauthorized.body_text(relays) == "unauthorized\n"@,
        Reply::NotFound.body_text(relays) == "not found\n"@,
{
    reveal_strlit("");
    let number = crate::text::decimal(crate::http::bytes_of(body).len());
    lemma_header(Reply::Metrics, body);
    lemma_header(Reply::BadRequest, body);
    lemma_header(Reply::Unauthorized, body);
    lemma_header(Reply::NotFound, body);
    let length = "\r\nContent-Length: "@ + number + "\r\n"@;
    let plain = "\r\nContent-Type: "@ + "text/plain; charset=utf-8"@;
    let versioned = "\r\nContent-Type: "@ + "text/plain; version=0.0.4; charset=utf-8"@;
    assert("HTTP/1.1 "@ + "200 OK"@ + versioned + length + ""@ =~= "HTTP/1.1 "@ + "200 OK"@
        + versioned + length);
    assert("HTTP/1.1 "@ + "400 Bad Request"@ + plain + length + ""@ =~= "HTTP/1.1 "@
        + "400 Bad Request"@ + plain + length);
    assert("HTTP/1.1 "@ + "404 Not Found"@ + plain + length + ""@ =~= "HTTP/1.1 "@
        + "404 Not Found"@ + plain + length);
}

proof fn lemma_header(reply: Reply, body: Seq<char>)
    ensures
        reply.header_text(body) == "HTTP/1.1 "@ + reply.status_text() + ("\r\nContent-Type: "@
            + reply.content_type_text()) + ("\r\nContent-Length: "@ + crate::text::decimal(
            crate::http::bytes_of(body).len(),
        ) + "\r\n"@) + reply.challenge_text() + "Connection: close\r\n\r\n"@,
{
    let number = crate::text::decimal(crate::http::bytes_of(body).len());
    let start = "HTTP/1.1 "@ + reply.status_text();
    let kind = reply.content_type_text();
    assert(start + "\r\nContent-Type: "@ + kind =~= start + ("\r\nContent-Type: "@ + kind));
    let head = start + ("\r\nContent-Type: "@ + kind);
    assert(head + "\r\nContent-Length: "@ + number + "\r\n"@ =~= head + ("\r\nContent-Length: "@
        + number + "\r\n"@));
}

/// Reading goes on until the head is whole or there is nothing more to read: what was read is
/// kept in order, the request is whole as soon as its head is, and it is given up only where a
/// read brings nothing. A request has at most 4096 bytes.
pub proof fn requests_are_read_until_their_head_ends(request: RequestView, read: Seq<u8>)
    ensures
        ({
            let after = crate::http::after_read(request, read);
            &&& after.bytes == request.bytes + read
            &&& read.len() == 0 <==> after.outcome == Some(false)
            &&& read.len() > 0 && crate::http::has_whole_head(after.bytes) <==> after.outcome
                == Some(true)
            &&& read.len() > 0 && !crate::http::has_whole_head(after.bytes) <==> after.outcome
                is None
        }),
        request.wf() ==> request.bytes.len() <= 4_096,
        request.outcome == Some(true) && request.wf() ==> crate::http::has_whole_head(
            request.bytes,
        ),
{
    if read.len() == 0 {
        assert(request.bytes + read =~= request.bytes);
    }
}

/// Texts are compared with requests, and measured, by their UTF-8 bytes.
pub proof fn texts_stand_for_their_bytes(text: Seq<char>)
    ensures
        crate::http::bytes_of(text) == vstd::utf8::encode_utf8(text),
        crate::http::line_feed() == 10,
        crate::http::carriage_return() == 13,
{
}

} // verus!
