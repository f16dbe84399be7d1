use std::sync::Arc;

use portrelay::http::{
    has_valid_bearer_token, metrics_reply, metrics_response, trim_ascii, Reply, RequestReader,
    Response, MAX_REQUEST_BYTES,
};
use portrelay::metrics::{MetricsRegistry, RelayMetrics};

fn registry() -> MetricsRegistry {
    MetricsRegistry::new(vec![Arc::new(RelayMetrics::new("défaut"))])
}

fn read(pieces: &[&[u8]]) -> RequestReader {
    let mut reader = RequestReader::new();
    for piece in pieces {
        assert_eq!(reader.outcome(), None);
        assert!(piece.len() <= reader.room());
        reader.read_metrics_request(piece);
    }
    reader
}

fn answer(pieces: &[&[u8]], token: Option<&str>) -> Response {
    let reader = read(pieces);
    metrics_response(
        reader.bytes(),
        reader.outcome().unwrap(),
        &token.map(str::to_owned),
        &registry(),
    )
}

#[test]
fn serves_metrics_with_the_length_of_their_bytes() {
    let response = answer(&[b"GET /metrics HTTP/1.1\r\nHost: localhost\r\n\r\n"], None);
    assert_eq!(response.body, registry().render());
    assert!(response.body.len() > response.body.chars().count());
    assert_eq!(
        response.header,
        format!(
            "HTTP/1.1 200 OK\r\nContent-Type: text/plain; version=0.0.4; charset=utf-8\r\n\
             Content-Length: {}\r\nConnection: close\r\n\r\n",
            response.body.len()
        )
    );
}

#[test]
fn asks_for_the_token_and_takes_headers_in_pieces() {
    let refused = answer(
        &[b"GET /metrics HTTP/1.1\r\nHost: localhost\r\nAuthorization: Bearerxsecret-token\r\n\r\n"],
        Some("secret-token"),
    );
    assert_eq!(
        refused.header,
        "HTTP/1.1 401 Unauthorized\r\nContent-Type: text/plain; charset=utf-8\r\n\
         Content-Length: 13\r\nWWW-Authenticate: Bearer\r\nConnection: close\r\n\r\n"
    );
    assert_eq!(refused.body, "unauthorized\n");

    let served = answer(
        &[
            b"GET /metrics HTTP/1.1\r\nHost: localhost\r\nAuthorization: Bearer secret-token",
            b"\r\n\r\n",
        ],
        Some("secret-token"),
    );
    assert!(served.header.starts_with("HTTP/1.1 200 OK"));
    assert!(served.body.contains("portrelay_active_connections"));
}

#[test]
fn refuses_other_paths_and_cut_requests() {
    let other = answer(&[b"GET / HTTP/1.1\r\n\r\n"], None);
    assert_eq!(
        other.header,
        "HTTP/1.1 404 Not Found\r\nContent-Type: text/plain; charset=utf-8\r\n\
         Content-Length: 10\r\nConnection: close\r\n\r\n"
    );
    assert_eq!(other.body, "not found\n");
    let cut = answer(&[b"GET /metrics HTTP/1.1\r\n", b""], None);
    assert_eq!(
        cut.header,
        "HTTP/1.1 400 Bad Request\r\nContent-Type: text/plain; charset=utf-8\r\n\
         Content-Length: 12\r\nConnection: close\r\n\r\n"
    );
    assert_eq!(cut.body, "bad request\n");
}

#[test]
fn tells_nothing_to_clients_without_the_token() {
    let token = Some("t".to_owned());
    for (request, complete) in [
        (&b""[..], false),
        (b"GET / HTTP/1.1\r\n\r\n", true),
        (b"GET /metrics HTTP/1.1\r\n\r\n", true),
        (b"Authorization: Bearer t\r\n\r\n", true),
    ] {
        assert_eq!(
            metrics_reply(request, complete, &token),
            Reply::Unauthorized
        );
    }
    assert_eq!(metrics_reply(b"POST /metrics ", true, &None), Reply::NotFound);
    assert_eq!(metrics_reply(b"GET /metrics", true, &None), Reply::NotFound);
    assert_eq!(metrics_reply(b"GET /metrics \n", true, &None), Reply::Metrics);
    assert_eq!(metrics_reply(b"GET /metrics ", false, &None), Reply::BadRequest);
    assert_eq!(metrics_reply(b"\nGET /metrics ", true, &None), Reply::NotFound);
}

#[test]
fn tokens_are_compared_whole() {
    let has = |line: &str, token: &str| {
        has_valid_bearer_token(format!("GET / HTTP/1.1\r\n{line}\r\n\r\n").as_bytes(), token)
    };
    assert!(has("Authorization: Bearer secret", "secret"));
    assert!(has("AUTHORIZATION:bEaReR\t  secret  ", "secret"));
    assert!(has("Host: x\r\nAuthorization: Bearer secret", "secret"));
    assert!(has("Authorization: Bearer wrong\r\nAuthorization: Bearer secret", "secret"));
    assert!(has("Authorization: Bearer two words", "two words"));
    assert!(has("Authorization: Bearer schlüssel", "schlüssel"));
    assert!(!has("Authorization: Bearer secre", "secret"));
    assert!(!has("Authorization: Bearer secret2", "secret"));
    assert!(!has("Authorization: Bearer Secret", "secret"));
    assert!(!has("Authorization: Basic secret", "secret"));
    assert!(!has("Authorization: Bearersecret", "secret"));
    assert!(!has("Authorization : Bearer secret", "secret"));
    assert!(!has("Authorization Bearer secret", "secret"));
    assert!(!has("X-Authorization: Bearer secret", "secret"));
    assert!(!has("Authorization: Bearer ", ""));
    assert!(!has("Authorization: Bearer", ""));
    assert!(!has("Authorization: Bearer  secret", " secret"));
    assert!(!has_valid_bearer_token(b"Authorization: Bearer secret\r\n\r\n", "secret"));
    assert!(has_valid_bearer_token(b"\nAuthorization: Bearer secret", "secret"));
}

#[test]
fn white_space_around_bytes_is_taken_off() {
    assert_eq!(trim_ascii(b" \t\r\n\x0ca b \n"), b"a b");
    assert_eq!(trim_ascii(b" \t"), b"");
    assert_eq!(trim_ascii(b""), b"");
    assert_eq!(trim_ascii(b"\x0bx"), b"\x0bx");
    for byte in 0..=u8::MAX {
        assert_eq!(
            trim_ascii(&[byte]).is_empty(),
            byte.is_ascii_whitespace(),
            "{byte}"
        );
    }
}

#[test]
fn requests_end_with_their_head() {
    let reader = read(&[b"GET", b" / HTTP/1.1\r\n\r", b"\nrest"]);
    assert_eq!(reader.outcome(), Some(true));
    assert_eq!(reader.bytes(), b"GET / HTTP/1.1\r\n\r\nrest");
    assert_eq!(read(&[b"\r\n\n\r\r\n"]).outcome(), None);
    assert_eq!(read(&[b""]).outcome(), Some(false));
}

#[test]
fn requests_have_room_for_so_many_bytes() {
    let mut reader = RequestReader::new();
    assert_eq!(reader.room(), MAX_REQUEST_BYTES);
    reader.read_metrics_request(&[b'x'; 4_000]);
    assert_eq!(reader.room(), 96);
    reader.read_metrics_request(&[b'x'; 96]);
    assert_eq!(reader.room(), 0);
    assert_eq!(reader.outcome(), None);
    reader.read_metrics_request(&[]);
    assert_eq!(reader.outcome(), Some(false));
}

#[test]
fn pieces_of_a_request_do_not_matter() {
    let mut long = vec![b'x'; MAX_REQUEST_BYTES - 4];
    long.extend_from_slice(b"\r\n\r\n");
    let mut longer = vec![b'x'; MAX_REQUEST_BYTES - 3];
    longer.extend_from_slice(b"\r\n\r\n");
    for (stream, whole) in [
        (
            b"GET /metrics HTTP/1.1\r\nHost: localhost\r\n\r\nrest".to_vec(),
            true,
        ),
        (b"GET /metrics HTTP/1.1\r\nHost: localhost\r\n".to_vec(), false),
        (Vec::new(), false),
        (long, true),
        (longer, false),
    ] {
        for size in [1, 2, 3, 5, 64, 4_095, 4_096, 10_000] {
            let mut reader = RequestReader::new();
            let mut sent = stream.as_slice();
            while reader.outcome().is_none() {
                let count = sent.len().min(size).min(reader.room());
                reader.read_metrics_request(&sent[..count]);
                sent = &sent[count..];
            }
            assert_eq!(reader.outcome(), Some(whole));
            assert!(stream.starts_with(reader.bytes()));
        }
    }
}
