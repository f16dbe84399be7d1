//! TCP endpoints in the form `HOST:PORT`.

use vstd::prelude::*;

use crate::error::{plain_error, quoted_error, ConfigError};
use crate::text::{
    chars_of, find_first, find_last, is_whitespace, parse_number, push_decimal, quote, string_of, trim,
};

verus! {

/// A TCP endpoint: a host and a port, and the text that names both.
#[derive(Clone, Debug, PartialEq, Eq, Hash)]
pub struct Endpoint {
    address: String,
    host: String,
    port: u16,
}

/// The parts of an endpoint.
pub struct EndpointView {
    /// Host and port in one text.
    pub address: Seq<char>,
    /// The host, without brackets.
    pub host: Seq<char>,
    /// The TCP port.
    pub port: u16,
}

/// The text that names `host` and `port`; a host with a colon stands in brackets.
pub open spec fn endpoint_address(host: Seq<char>, port: u16) -> Seq<char> {
    if host.contains(':') {
        "["@ + host + "]:"@ + crate::text::decimal(port as nat)
    } else {
        host + ":"@ + crate::text::decimal(port as nat)
    }
}

/// A host that an endpoint may have: some text without white space, other than `*`.
pub open spec fn is_host(host: Seq<char>) -> bool {
    &&& host.len() > 0
    &&& forall|i: int| 0 <= i < host.len() ==> !crate::text::is_white_space(#[trigger] host[i])
    &&& host != "*"@
}

impl EndpointView {
    /// The host is one that an endpoint may have, and the address names host and port.
    pub open spec fn wf(self) -> bool {
        &&& is_host(self.host)
        &&& self.host.contains(':') ==> !self.host.contains(']')
        &&& self.address == endpoint_address(self.host, self.port)
    }
}

/// The host part and the port part of an endpoint text that is not empty, or the message that
/// says what is missing. A host in brackets ends at the first closing bracket; otherwise the
/// port stands behind the last colon.
pub open spec fn split_endpoint(value: Seq<char>) -> Result<(Seq<char>, Seq<char>), Seq<char>> {
    if value[0] == '[' {
        let rest = value.skip(1);
        match rest.index_of_first(']') {
            None => Err("invalid IPv6 endpoint "@ + crate::text::quoted(value)),
            Some(close) => if close + 1 < rest.len() && rest[close + 1] == ':' {
                Ok((rest.take(close), rest.skip(close + 2)))
            } else {
                Err("endpoint must include port: "@ + crate::text::quoted(value))
            },
        }
    } else {
        match value.index_of_last(':') {
            None => Err("endpoint must include port: "@ + crate::text::quoted(value)),
            Some(colon) => if value.take(colon).contains(':') {
                Err("IPv6 endpoints must use bracket notation, for example [::1]:3306"@)
            } else {
                Ok((value.take(colon), value.skip(colon + 1)))
            },
        }
    }
}

/// The endpoint with the given host part and port part, or the message that says why there is
/// none.
pub open spec fn join_endpoint(
    host: Seq<char>,
    port: Seq<char>,
    allow_empty_host: bool,
    allow_port_zero: bool,
) -> Result<EndpointView, Seq<char>> {
    match crate::text::number(port, 65_535) {
        Err(error) => Err("invalid TCP port "@ + crate::text::quoted(port) + ": "@ + error.text()),
        Ok(number) => {
            let full = if host.len() == 0 {
                "0.0.0.0"@
            } else {
                host
            };
            if number == 0 && !allow_port_zero {
                Err("TCP port must be greater than zero"@)
            } else if host.len() == 0 && !allow_empty_host {
                Err("target host cannot be empty"@)
            } else if !is_host(full) {
                Err("invalid endpoint host "@ + crate::text::quoted(full))
            } else {
                Ok(
                    EndpointView {
                        address: endpoint_address(full, number as u16),
                        host: full,
                        port: number as u16,
                    },
                )
            }
        },
    }
}

/// The endpoint that `value` writes, or the message that says why it writes none.
pub open spec fn parse_endpoint(
    value: Seq<char>,
    allow_empty_host: bool,
    allow_port_zero: bool,
) -> Result<EndpointView, Seq<char>> {
    let value = crate::text::trimmed(value);
    if value.len() == 0 {
        Err("endpoint cannot be empty"@)
    } else {
        match split_endpoint(value) {
            Err(message) => Err(message),
            Ok(parts) => join_endpoint(parts.0, parts.1, allow_empty_host, allow_port_zero),
        }
    }
}

/// Whether `result` is what `expected` says.
pub open spec fn is_endpoint_result(
    result: Result<Endpoint, ConfigError>,
    expected: Result<EndpointView, Seq<char>>,
) -> bool {
    match result {
        Ok(endpoint) => expected == Ok::<EndpointView, Seq<char>>(endpoint@),
        Err(error) => expected matches Err(message) && error.is_invalid(message),
    }
}

/// An endpoint that is read is well formed.
pub proof fn lemma_parsed_wf(value: Seq<char>, allow_empty_host: bool, allow_port_zero: bool)
    ensures
        parse_endpoint(value, allow_empty_host, allow_port_zero) matches Ok(endpoint)
            ==> endpoint.wf(),
{
    reveal_strlit("0.0.0.0");
    let value = crate::text::trimmed(value);
    if value.len() > 0 {
        if value[0] == '[' {
            let rest = value.skip(1);
            rest.index_of_first_ensures(']');
            if let Some(close) = rest.index_of_first(']') {
                let host = rest.take(close);
                assert forall|i: int| 0 <= i < host.len() implies host[i] != ']' by {
                    assert(rest[i] != ']');
                }
            }
        }
    }
}

/// The address of an endpoint reads back as the endpoint, whatever text the endpoint was read
/// from. The exception is a host that starts with an opening bracket and has no colon, as in
/// `[[x]:80`: its address `[x:80` lacks a closing bracket.
pub proof fn address_reads_back(value: Seq<char>, allow_empty_host: bool, allow_port_zero: bool)
    requires
        parse_endpoint(value, allow_empty_host, allow_port_zero) matches Ok(endpoint) && (
        endpoint.host[0] != '[' || endpoint.host.contains(':')),
    ensures
        parse_endpoint(
            parse_endpoint(value, allow_empty_host, allow_port_zero)->Ok_0.address,
            false,
            true,
        ) == parse_endpoint(value, allow_empty_host, allow_port_zero),
{
    let endpoint = parse_endpoint(value, allow_empty_host, allow_port_zero)->Ok_0;
    lemma_parsed_wf(value, allow_empty_host, allow_port_zero);
    let digits = crate::text::decimal(endpoint.port as nat);
    crate::text::lemma_decimal_digits(endpoint.port as nat);
    crate::text::decimal_reads_back(endpoint.port as nat, 65_535);
    reveal_strlit("[");
    reveal_strlit("]:");
    reveal_strlit(":");
    let address = endpoint.address;
    let host = endpoint.host;
    assert(address.last() == digits.last());
    assert(!crate::text::is_white_space(address[0])) by {
        if !host.contains(':') {
            assert(address[0] == host[0]);
        }
    }
    crate::text::lemma_trimmed_same(address);
    if host.contains(':') {
        let rest = address.skip(1);
        rest.index_of_first_ensures(']');
        assert(rest =~= host + "]:"@ + digits);
        assert(rest[host.len() as int] == ']');
        assert(rest.contains(']'));
        let close = rest.index_of_first(']')->0;
        if close < host.len() {
            assert(host.contains(rest[close]));
        }
        assert(close == host.len());
        assert(rest.take(close) =~= host);
        assert(rest.skip(close + 2) =~= digits);
    } else {
        address.index_of_last_ensures(':');
        assert(address[host.len() as int] == ':');
        assert(address.contains(':'));
        let colon = address.index_of_last(':')->0;
        if colon < host.len() {
            assert(host.contains(address[colon]));
        }
        if colon > host.len() {
            assert(address[colon] == digits[colon - host.len() - 1]);
        }
        assert(colon == host.len());
        assert(address.take(colon) =~= host);
        assert(address.skip(colon + 1) =~= digits);
    }
}

/// A listener that names only a port, as in `:10022`, is for that port on all IPv4 interfaces.
pub proof fn bare_ports_mean_all_interfaces(port: u16)
    ensures
        parse_endpoint(":"@ + crate::text::decimal(port as nat), true, true) == Ok::<
            EndpointView,
            Seq<char>,
        >(
            EndpointView {
                address: "0.0.0.0:"@ + crate::text::decimal(port as nat),
                host: "0.0.0.0"@,
                port,
            },
        ),
{
    reveal_strlit(":");
    reveal_strlit("0.0.0.0");
    reveal_strlit("0.0.0.0:");
    reveal_strlit("*");
    let digits = crate::text::decimal(port as nat);
    crate::text::lemma_decimal_digits(port as nat);
    crate::text::decimal_reads_back(port as nat, 65_535);
    let value = ":"@ + digits;
    assert(value.last() == digits.last());
    crate::text::lemma_trimmed_same(value);
    value.index_of_last_ensures(':');
    assert(value[0] == ':');
    assert(value.contains(':'));
    let colon = value.index_of_last(':')->0;
    if colon > 0 {
        assert(value[colon] == digits[colon - 1]);
    }
    assert(value.take(0) =~= Seq::<char>::empty());
    assert(value.skip(1) =~= digits);
    assert("0.0.0.0"@ + ":"@ + digits =~= "0.0.0.0:"@ + digits);
}

impl View for Endpoint {
    type V = EndpointView;

    closed spec fn view(&self) -> EndpointView {
        EndpointView { address: self.address@, host: self.host@, port: self.port }
    }
}

impl Endpoint {
    fn split(value: &[char]) -> (result: Result<(&[char], &[char]), ConfigError>)
        requires
            value@.len() > 0,
        ensures
            match result {
                Ok(parts) => split_endpoint(value@) == Ok::<(Seq<char>, Seq<char>), Seq<char>>(
                    (parts.0@, parts.1@),
                ),
                Err(error) => split_endpoint(value@) matches Err(message) && error.is_invalid(message),
            },
    {
        if value[0] == '[' {
            let rest = vstd::slice::slice_subrange(value, 1, value.len());
            assert(rest@ =~= value@.skip(1));
            match find_first(rest, ']') {
                None => Err(quoted_error("invalid IPv6 endpoint ", string_of(value).as_str())),
                Some(close) => {
                    if close + 1 < rest.len() && rest[close + 1] == ':' {
                        let host = vstd::slice::slice_subrange(rest, 0, close);
                        let port = vstd::slice::slice_subrange(rest, close + 2, rest.len());
                        assert(host@ =~= rest@.take(close as int));
                        assert(port@ =~= rest@.skip(close + 2));
                        Ok((host, port))
                    } else {
                        Err(quoted_error("endpoint must include port: ", string_of(value).as_str()))
                    }
                },
            }
        } else {
            match find_last(value, ':') {
                None => Err(quoted_error("endpoint must include port: ", string_of(value).as_str())),
                Some(colon) => {
                    let host = vstd::slice::slice_subrange(value, 0, colon);
                    let port = vstd::slice::slice_subrange(value, colon + 1, value.len());
                    assert(host@ =~= value@.take(colon as int));
                    assert(port@ =~= value@.skip(colon + 1));
                    proof {
                        host@.index_of_first_ensures(':');
                    }
                    match find_first(host, ':') {
                        Some(_) => Err(
                            plain_error(
                                "IPv6 endpoints must use bracket notation, for example [::1]:3306",
                            ),
                        ),
                        None => Ok((host, port)),
                    }
                },
            }
        }
    }

    fn host_is_valid(host: &[char]) -> (result: bool)
        requires
            host@.len() > 0,
        ensures
            result == is_host(host@),
    {
        proof {
            reveal_strlit("*");
        }
        let mut i: usize = 0;
        while i < host.len()
            invariant
                i <= host@.len(),
                forall|j: int| 0 <= j < i ==> !crate::text::is_white_space(#[trigger] host@[j]),
            decreases host@.len() - i,
        {
            if is_whitespace(host[i]) {
                assert(crate::text::is_white_space(host@[i as int]));
                return false;
            }
            i = i + 1;
        }
        if host.len() == 1 && host[0] == '*' {
            assert(host@ =~= "*"@);
            false
        } else {
            assert(host@ != "*"@);
            true
        }
    }

    fn join(host: &[char], port: &[char], allow_empty_host: bool, allow_port_zero: bool) -> (result:
        Result<Endpoint, ConfigError>)
        ensures
            is_endpoint_result(
                result,
                join_endpoint(host@, port@, allow_empty_host, allow_port_zero),
            ),
    {
        let number: u64 = match parse_number(port, 65_535) {
            Ok(number) => number,
            Err(error) => {
                let mut message = String::new();
                message.append("invalid TCP port ");
                message.append(quote(string_of(port).as_str()).as_str());
                message.append(": ");
                message.append(error.message());
                return Err(ConfigError::invalid(message));
            },
        };
        proof {
            crate::text::lemma_number_bound(port@, 65_535);
        }
        if number == 0 && !allow_port_zero {
            return Err(plain_error("TCP port must be greater than zero"));
        }
        let wildcard = chars_of("0.0.0.0");
        let full: &[char] = if host.len() == 0 {
            if !allow_empty_host {
                return Err(plain_error("target host cannot be empty"));
            }
            wildcard.as_slice()
        } else {
            host
        };
        proof {
            reveal_strlit("0.0.0.0");
        }
        if !Endpoint::host_is_valid(full) {
            return Err(quoted_error("invalid endpoint host ", string_of(full).as_str()));
        }
        let host = string_of(full);
        let mut address = String::new();
        proof {
            full@.index_of_first_ensures(':');
        }
        match find_first(full, ':') {
            Some(_) => {
                address.append("[");
                address.append(host.as_str());
                address.append("]:");
            },
            None => {
                address.append(host.as_str());
                address.append(":");
            },
        }
        push_decimal(&mut address, number as u128);
        assert(address@ =~= endpoint_address(full@, number as u16));
        Ok(Endpoint { address, host, port: number as u16 })
    }

    /// Reads an endpoint. Without a host, the endpoint is on all IPv4 interfaces where
    /// `allow_empty_host` permits that; port zero is for `allow_port_zero` only.
    pub fn parse(value: &str, allow_empty_host: bool, allow_port_zero: bool) -> (result: Result<
        Endpoint,
        ConfigError,
    >)
        ensures
            is_endpoint_result(
                result,
                parse_endpoint(value@, allow_empty_host, allow_port_zero),
            ),
            result matches Ok(endpoint) ==> endpoint@.wf(),
    {
        proof {
            lemma_parsed_wf(value@, allow_empty_host, allow_port_zero);
        }
        let chars = chars_of(value);
        let value = trim(chars.as_slice());
        if value.len() == 0 {
            return Err(plain_error("endpoint cannot be empty"));
        }
        match Endpoint::split(value) {
            Ok(parts) => Endpoint::join(parts.0, parts.1, allow_empty_host, allow_port_zero),
            Err(error) => Err(error),
        }
    }

    /// Host and port in one text.
    pub fn address(&self) -> (result: &str)
        ensures
            result@ == self@.address,
    {
        self.address.as_str()
    }

    /// The host, without brackets.
    pub fn host(&self) -> (result: &str)
        ensures
            result@ == self@.host,
    {
        self.host.as_str()
    }

    /// The TCP port.
    pub fn port(&self) -> (result: u16)
        ensures
            result == self@.port,
    {
        self.port
    }

    /// Host and port in one text.
    pub fn to_string(&self) -> (result: String)
        ensures
            result@ == self@.address,
    {
        self.address.clone()
    }
}

impl std::str::FromStr for Endpoint {
    type Err = ConfigError;

    /// Reads the endpoint of a target: its host is not empty and its port not zero.
    fn from_str(value: &str) -> (result: Result<Endpoint, ConfigError>)
        ensures
            is_endpoint_result(result, parse_endpoint(value@, false, false)),
            result matches Ok(endpoint) ==> endpoint@.wf(),
    {
        Endpoint::parse(value, false, false)
    }
}

} // verus!
