use rustenphp::error::ServerError;
use rustenphp::http::{
    content_type, parse_request, sniff_body, split_target, type_of_extension, write_response,
};
use rustenphp::path::PathRules;

#[test]
fn a_target_splits_at_its_first_question_mark() {
    assert_eq!(split_target("/a?b?c"), ("/a", "b?c"));
    assert_eq!(split_target("/a"), ("/a", ""));
    assert_eq!(split_target("/a?"), ("/a", ""));
    assert_eq!(split_target("?x"), ("", "x"));
    assert_eq!(split_target(""), ("", ""));
    for t in ["/a?b?c", "/a", "/a?", "?", "/caf\u{e9}?\u{e9}=1"] {
        let expected = t.split_once('?').map_or((t, ""), |(path, query)| (path, query));
        assert_eq!(split_target(t), expected);
    }
}

#[test]
fn a_request_is_the_start_of_its_first_line() {
    let read = |text: &str| parse_request(text).map(|r| (r.method, r.target));
    let pair = |m: &str, t: &str| Some((m.to_string(), t.to_string()));
    assert_eq!(read("GET /a HTTP/1.1\r\nHost: b\r\n\r\n"), pair("GET", "/a"));
    assert_eq!(read("POST"), pair("POST", "/"));
    assert_eq!(read("\r\nGET /a"), pair("GET", "/"));
    assert_eq!(read("   "), pair("GET", "/"));
    assert_eq!(read(""), None);
}

#[test]
fn the_media_type_goes_by_the_extension() {
    let expected = [
        ("css", "text/css; charset=utf-8"),
        ("js", "application/javascript; charset=utf-8"),
        ("json", "application/json; charset=utf-8"),
        ("png", "image/png"),
        ("jpg", "image/jpeg"),
        ("jpeg", "image/jpeg"),
        ("svg", "image/svg+xml"),
        ("ico", "image/x-icon"),
        ("txt", "text/html; charset=utf-8"),
        ("log", "text/html; charset=utf-8"),
        ("CSS", "application/octet-stream"),
        ("", "application/octet-stream"),
        ("bin", "application/octet-stream"),
    ];
    for (extension, kind) in expected {
        assert_eq!(type_of_extension(extension), kind);
        assert_eq!(content_type(PathRules::Unix, &format!("/srv/a.{extension}")), kind);
    }
    assert_eq!(content_type(PathRules::Unix, "/srv/css"), "application/octet-stream");
    assert_eq!(content_type(PathRules::Unix, "/srv/.css"), "application/octet-stream");
    assert_eq!(content_type(PathRules::Windows, "D:\\a.b\\c.svg"), "image/svg+xml");
    assert_eq!(content_type(PathRules::Windows, "D:\\a.css\\c"), "application/octet-stream");
}

#[test]
fn a_body_in_braces_or_brackets_is_json() {
    let json = "application/json; charset=utf-8";
    let html = "text/html; charset=utf-8";
    for body in ["{}", " {\"a\":1}\n", "[1]", "\t[]\r\n"] {
        assert_eq!(sniff_body(body), json);
    }
    for body in ["", " ", "{", "}", "{]", "[}", "x{}", "<html>", "{} x"] {
        assert_eq!(sniff_body(body), html);
    }
}

#[test]
fn a_response_is_written_byte_by_byte() {
    assert_eq!(
        write_response(200, "text/html; charset=utf-8", b"hi"),
        b"HTTP/1.1 200 OK\r\nContent-Type: text/html; charset=utf-8\r\nContent-Length: 2\r\nConnection: close\r\n\r\nhi".to_vec()
    );
    let reasons = [
        (200, "OK"),
        (405, "Method Not Allowed"),
        (500, "Internal Server Error"),
        (404, "OK"),
        (0, "OK"),
    ];
    for (status, reason) in reasons {
        let body = [0_u8, 255, 13, 10, 13, 10];
        let mut expected = format!(
            "HTTP/1.1 {status} {reason}\r\nContent-Type: a/b\r\nContent-Length: {}\r\nConnection: close\r\n\r\n",
            body.len()
        )
        .into_bytes();
        expected.extend_from_slice(&body);
        assert_eq!(write_response(status, "a/b", &body), expected);
    }
}

#[test]
fn the_first_blank_line_ends_the_head() {
    let body = b"\r\n\r\nagain\r\n\r\n";
    let bytes = write_response(200, "image/png", body);
    let at = bytes.windows(4).position(|w| w == b"\r\n\r\n").unwrap();
    assert_eq!(&bytes[at + 4..], body);
}

#[test]
fn errors_are_told_in_full() {
    let s = |t: &str| t.to_string();
    let told = [
        (ServerError::Boot { status: -1 }, "php_embed_init failed with status -1"),
        (ServerError::NullByte, "PHP code contains an interior null byte"),
        (ServerError::Eval { status: 255 }, "zend_eval_string failed with status 255"),
        (
            ServerError::ChangeDirectory { root: s("/srv"), cause: s("gone") },
            "failed to chdir to Laravel root /srv: gone",
        ),
        (
            ServerError::Bind { address: s("127.0.0.1:8787"), cause: s("in use") },
            "failed to bind 127.0.0.1:8787: in use",
        ),
        (ServerError::ReadRequest { cause: s("reset") }, "failed to read request: reset"),
        (ServerError::EmptyRequest, "empty HTTP request"),
        (
            ServerError::ReadStatic { file: s("/srv/a"), cause: s("denied") },
            "failed to read static file /srv/a: denied",
        ),
        (ServerError::WorkerStopped, "PHP background worker thread panicked or stopped"),
        (ServerError::NoReply, "Failed to receive response from PHP worker"),
        (ServerError::Worker { cause: s("as it is") }, "as it is"),
        (
            ServerError::ReadOutput { path: s("/srv/t"), cause: s("gone") },
            "failed to read PHP response /srv/t: gone",
        ),
        (ServerError::WriteResponse { cause: s("pipe") }, "failed to write response: pipe"),
    ];
    for (error, text) in told {
        assert_eq!(error.message(), text);
    }
}
