//! Which texts write an endpoint, and which endpoint they write.

use vstd::prelude::*;

use crate::endpoint::EndpointView;

verus! {

/// What a host part and a port part read as: the port must be a number of at most 65535, and not
/// zero where that is not allowed; the host must not be missing where that is not allowed, hold
/// white space or be `*`. A missing host stands for all interfaces.
pub open spec fn is_reading_of(
    result: Result<EndpointView, Seq<char>>,
    host: Seq<char>,
    port: Seq<char>,
    allow_empty_host: bool,
    allow_port_zero: bool,
) -> bool {
    let digits = crate::text_laws::without_plus(port);
    let number = crate::text_laws::place_value(digits);
    let is_number = digits.len() > 0 && crate::text_laws::are_digits(digits) && number <= 65_535;
    let is_high = number > 0 || allow_port_zero;
    let is_there = host.len() > 0 || allow_empty_host;
    let full = if host.len() == 0 {
        "0.0.0.0"@
    } else {
        host
    };
    let is_name = host != "*"@ && forall|i: int|
        0 <= i < host.len() ==> !crate::text::is_white_space(#[trigger] host[i]);
    &&& !is_number ==> result == Err::<EndpointView, Seq<char>>(
        "invalid TCP port "@ + crate::text::quoted(port) + ": "@ + crate::text::number(
            port,
            65_535,
        )->Err_0.text(),
    )
    &&& is_number && !is_high ==> result == Err::<EndpointView, Seq<char>>(
        "TCP port must be greater than zero"@,
    )
    &&& is_number && is_high && !is_there ==> result == Err::<EndpointView, Seq<char>>(
        "target host cannot be empty"@,
    )
    &&& is_number && is_high && is_there && !is_name ==> result == Err::<EndpointView, Seq<char>>(
        "invalid endpoint host "@ + crate::text::quoted(host),
    )
    &&& is_number && is_high && is_there && is_name ==> {
        &&& result is Ok
        &&& result->Ok_0.host == full
        &&& result->Ok_0.port == number
        &&& result->Ok_0.address == if exists|i: int|
            0 <= i < host.len() && #[trigger] host[i] == ':' {
            "["@ + full + "]:"@ + crate::text::decimal(number)
        } else {
            full + ":"@ + crate::text::decimal(number)
        }
    }
}

proof fn lemma_joined(
    host: Seq<char>,
    port: Seq<char>,
    allow_empty_host: bool,
    allow_port_zero: bool,
)
    ensures
        is_reading_of(
            crate::endpoint::join_endpoint(host, port, allow_empty_host, allow_port_zero),
            host,
            port,
            allow_empty_host,
            allow_port_zero,
        ),
{
    reveal_strlit("0.0.0.0");
    reveal_strlit("*");
    crate::text_laws::numbers_are_their_digits(port, 65_535);
    let full = if host.len() == 0 {
        "0.0.0.0"@
    } else {
        host
    };
    if exists|i: int| 0 <= i < host.len() && #[trigger] host[i] == ':' {
        let place = choose|i: int| 0 <= i < host.len() && #[trigger] host[i] == ':';
        assert(full.contains(full[place]));
    } else {
        assert(!full.contains(':'));
    }
}

/// White space around the text of an endpoint does not matter.
pub proof fn white_space_around_endpoints_does_not_matter(
    before: Seq<char>,
    text: Seq<char>,
    after: Seq<char>,
    allow_empty_host: bool,
    allow_port_zero: bool,
)
    requires
        text.len() > 0,
        !crate::text::is_white_space(text[0]),
        !crate::text::is_white_space(text.last()),
        forall|i: int|
            0 <= i < before.len() ==> crate::text::is_white_space(#[trigger] before[i]),
        forall|i: int| 0 <= i < after.len() ==> crate::text::is_white_space(#[trigger] after[i]),
    ensures
        crate::endpoint::parse_endpoint(before + text + after, allow_empty_host, allow_port_zero)
            == crate::endpoint::parse_endpoint(text, allow_empty_host, allow_port_zero),
{
    let value = before + text + after;
    let start = before.len() as int;
    let end = start + text.len();
    assert(value[start] == text[0]);
    assert(value[end - 1] == text.last());
    assert forall|i: int| 0 <= i < start || end <= i < value.len() implies crate::text::is_white_space(
        #[trigger] value[i],
    ) by {
        if i < start {
            assert(value[i] == before[i]);
        } else {
            assert(value[i] == after[i - end]);
        }
    }
    crate::text_laws::trimming_leaves_what_is_between(value, start, end);
    assert(value.subrange(start, end) =~= text);
    crate::text::lemma_trimmed_same(text);
}

/// A host without a colon and a port with a colon between them write the endpoint of both.
pub proof fn plain_endpoints_are_read(
    host: Seq<char>,
    port: Seq<char>,
    allow_empty_host: bool,
    allow_port_zero: bool,
)
    requires
        forall|i: int| 0 <= i < host.len() ==> #[trigger] host[i] != ':',
        forall|i: int| 0 <= i < port.len() ==> #[trigger] port[i] != ':',
        host.len() > 0 ==> host[0] != '[' && !crate::text::is_white_space(host[0]),
        port.len() > 0 ==> !crate::text::is_white_space(port.last()),
    ensures
        is_reading_of(
            crate::endpoint::parse_endpoint(
                host + ":"@ + port,
                allow_empty_host,
                allow_port_zero,
            ),
            host,
            port,
            allow_empty_host,
            allow_port_zero,
        ),
{
    reveal_strlit(":");
    let value = host + ":"@ + port;
    assert(value.len() == host.len() + 1 + port.len());
    assert(value[host.len() as int] == ':');
    if host.len() > 0 {
        assert(value[0] == host[0]);
    }
    if port.len() > 0 {
        assert(value.last() == port.last());
    }
    crate::text::lemma_trimmed_same(value);
    value.index_of_last_ensures(':');
    assert(value.contains(':'));
    let colon = value.index_of_last(':')->0;
    if colon < host.len() {
        assert(value[colon] == host[colon]);
    }
    if colon > host.len() {
        assert(value[colon] == port[colon - host.len() - 1]);
    }
    assert(colon == host.len());
    assert(value.take(colon) =~= host);
    assert(value.skip(colon + 1) =~= port);
    assert(!host.contains(':'));
    lemma_joined(host, port, allow_empty_host, allow_port_zero);
}

/// A host in brackets, without a closing one of its own, and a port behind a colon write the
/// endpoint of both. So a host with colons can be written.
pub proof fn bracketed_endpoints_are_read(
    host: Seq<char>,
    port: Seq<char>,
    allow_empty_host: bool,
    allow_port_zero: bool,
)
    requires
        forall|i: int| 0 <= i < host.len() ==> #[trigger] host[i] != ']',
        port.len() > 0 ==> !crate::text::is_white_space(port.last()),
    ensures
        is_reading_of(
            crate::endpoint::parse_endpoint(
                "["@ + host + "]:"@ + port,
                allow_empty_host,
                allow_port_zero,
            ),
            host,
            port,
            allow_empty_host,
            allow_port_zero,
        ),
{
    reveal_strlit("[");
    reveal_strlit("]:");
    let value = "["@ + host + "]:"@ + port;
    assert(value[0] == '[');
    if port.len() > 0 {
        assert(value.last() == port.last());
    } else {
        assert(value.last() == ':');
    }
    crate::text::lemma_trimmed_same(value);
    let rest = value.skip(1);
    rest.index_of_first_ensures(']');
    assert(rest =~= host + "]:"@ + port);
    assert(rest[host.len() as int] == ']');
    assert(rest.contains(']'));
    let close = rest.index_of_first(']')->0;
    if close < host.len() {
        assert(rest[close] == host[close]);
    }
    assert(close == host.len());
    assert(rest.take(close) =~= host);
    assert(rest.skip(close + 2) =~= port);
    lemma_joined(host, port, allow_empty_host, allow_port_zero);
}

/// A text that writes no endpoint is refused by what is missing: any text, a port, a closing
/// bracket, or the brackets around a host with colons.
pub proof fn texts_without_a_port_are_refused(
    text: Seq<char>,
    allow_empty_host: bool,
    allow_port_zero: bool,
)
    requires
        text.len() > 0,
        !crate::text::is_white_space(text[0]),
        !crate::text::is_white_space(text.last()),
    ensures
        ({
            let result = crate::endpoint::parse_endpoint(text, allow_empty_host, allow_port_zero);
            &&& text[0] == '[' && (forall|i: int| 0 < i < text.len() ==> #[trigger] text[i] != ']')
                ==> result == Err::<EndpointView, Seq<char>>(
                "invalid IPv6 endpoint "@ + crate::text::quoted(text),
            )
            &&& text[0] != '[' && (forall|i: int| 0 <= i < text.len() ==> #[trigger] text[i] != ':')
                ==> result == Err::<EndpointView, Seq<char>>(
                "endpoint must include port: "@ + crate::text::quoted(text),
            )
            &&& text[0] != '[' && (exists|i: int, j: int|
                0 <= i < j < text.len() && #[trigger] text[i] == ':' && #[trigger] text[j] == ':')
                ==> result == Err::<EndpointView, Seq<char>>(
                "IPv6 endpoints must use bracket notation, for example [::1]:3306"@,
            )
        }),
{
    crate::text::lemma_trimmed_same(text);
    if text[0] == '[' {
        let rest = text.skip(1);
        rest.index_of_first_ensures(']');
        if forall|i: int| 0 < i < text.len() ==> #[trigger] text[i] != ']' {
            assert forall|i: int| 0 <= i < rest.len() implies rest[i] != ']' by {
                assert(rest[i] == text[i + 1]);
            }
            assert(!rest.contains(']'));
        }
    } else {
        text.index_of_last_ensures(':');
        if forall|i: int| 0 <= i < text.len() ==> #[trigger] text[i] != ':' {
            assert(!text.contains(':'));
        }
        if exists|i: int, j: int|
            0 <= i < j < text.len() && #[trigger] text[i] == ':' && #[trigger] text[j] == ':' {
            let (i, j) = choose|i: int, j: int|
                0 <= i < j < text.len() && #[trigger] text[i] == ':' && #[trigger] text[j] == ':';
            assert(text.contains(text[j]));
            let colon = text.index_of_last(':')->0;
            assert(colon >= j);
            assert(text.take(colon)[i] == ':');
            assert(text.take(colon).contains(text.take(colon)[i]));
        }
    }
}

/// A bracketed host must be followed by a colon.
pub proof fn brackets_without_a_port_are_refused(
    host: Seq<char>,
    rest: Seq<char>,
    allow_empty_host: bool,
    allow_port_zero: bool,
)
    requires
        forall|i: int| 0 <= i < host.len() ==> #[trigger] host[i] != ']',
        rest.len() > 0 ==> rest[0] != ':' && !crate::text::is_white_space(rest.last()),
    ensures
        ({
            let text = "["@ + host + "]"@ + rest;
            crate::endpoint::parse_endpoint(text, allow_empty_host, allow_port_zero) == Err::<
                EndpointView,
                Seq<char>,
            >("endpoint must include port: "@ + crate::text::quoted(text))
        }),
{
    reveal_strlit("[");
    reveal_strlit("]");
    let value = "["@ + host + "]"@ + rest;
    assert(value[0] == '[');
    if rest.len() > 0 {
        assert(value.last() == rest.last());
    } else {
        assert(value.last() == ']');
    }
    crate::text::lemma_trimmed_same(value);
    let tail = value.skip(1);
    tail.index_of_first_ensures(']');
    assert(tail =~= host + "]"@ + rest);
    assert(tail[host.len() as int] == ']');
    assert(tail.contains(']'));
    let close = tail.index_of_first(']')->0;
    if close < host.len() {
        assert(tail[close] == host[close]);
    }
    assert(close == host.len());
    if rest.len() > 0 {
        assert(tail[close + 1] == rest[0]);
    }
}

/// A text of white space alone writes no endpoint.
pub proof fn blank_texts_are_no_endpoints(
    text: Seq<char>,
    allow_empty_host: bool,
    allow_port_zero: bool,
)
    requires
        forall|i: int| 0 <= i < text.len() ==> crate::text::is_white_space(#[trigger] text[i]),
    ensures
        crate::endpoint::parse_endpoint(text, allow_empty_host, allow_port_zero) == Err::<
            EndpointView,
            Seq<char>,
        >("endpoint cannot be empty"@),
{
    crate::text_laws::trimming_takes_white_space_only(text);
}

} // verus!
