use rustenphp::connection::{
    handle_connection, open, post_path, read_http_request, step, Action, Event, Reply, State,
};
use rustenphp::http::write_response;
use rustenphp::path::PathRules;
use rustenphp::script::run_laravel_request;
use rustenphp::server::Server;

const PLAIN: &str = "text/plain; charset=utf-8";

fn server() -> Server {
    Server::configure(PathRules::Unix, Some("/srv".to_string()), None, None, None)
}

fn sent(action: Action) -> Vec<u8> {
    match action {
        Action::Send { bytes } => bytes,
        _ => panic!("nothing is sent"),
    }
}

fn told(text: &str) -> Vec<u8> {
    write_response(500, PLAIN, format!("rustenphp error: {text}").as_bytes())
}

fn receive(text: &str) -> (State, Action) {
    let (state, action) = open();
    assert!(matches!(action, Action::Receive));
    step(&server(), state, Event::Received { read: Ok(text.as_bytes().to_vec()) })
}

fn stamp() -> Event {
    Event::Stamped { seq: 5, millis: 0x0123_4567_89ab, process_id: 0x2345 }
}

fn probed(state: State, is_file: bool) -> (State, Action) {
    step(&server(), state, Event::Probed { is_file })
}

fn running(text: &str) -> State {
    let (state, action) = receive(text);
    let (state, action) = match action {
        Action::Probe { .. } => probed(state, false),
        other => (state, other),
    };
    assert!(matches!(action, Action::Stamp));
    let (state, action) = step(&server(), state, stamp());
    assert!(matches!(action, Action::Run { .. }));
    state
}

#[test]
fn bytes_are_read_as_text() {
    assert_eq!(read_http_request(Ok(b"GET /".to_vec())).ok(), Some("GET /".to_string()));
    assert_eq!(
        read_http_request(Ok("caf\u{e9}".as_bytes().to_vec())).ok(),
        Some("caf\u{e9}".to_string())
    );
    assert_eq!(
        read_http_request(Ok(vec![b'a', 0xff, b'b', 0xe2, 0x82])).ok(),
        Some("a\u{fffd}b\u{fffd}".to_string())
    );
    assert_eq!(read_http_request(Ok(vec![])).ok(), Some(String::new()));
    assert_eq!(
        read_http_request(Err("reset".to_string())).err().map(|e| e.message()),
        Some("failed to read request: reset".to_string())
    );
}

#[test]
fn a_request_with_stray_bytes_is_answered() {
    let (state, _) = open();
    let bytes = b"GET /\xff.css HTTP/1.1\r\n\r\n".to_vec();
    match step(&server(), state, Event::Received { read: Ok(bytes) }) {
        (State::Probing { request }, Action::Probe { path }) => {
            assert_eq!(request.target, "/\u{fffd}.css");
            assert_eq!(path, "/srv/logs/\u{fffd}.css");
        }
        _ => panic!("a file is looked for"),
    }
}

#[test]
fn other_methods_are_refused() {
    let refusal =
        write_response(405, PLAIN, b"Only GET and HEAD are implemented in this prototype.");
    for text in ["POST / HTTP/1.1\r\n\r\n", "get /a.css", "DELETE /x"] {
        let (state, action) = receive(text);
        assert!(matches!(state, State::Replying));
        assert_eq!(sent(action), refusal);
        let (state, action) = step(&server(), state, Event::Sent { written: Ok(()) });
        assert!(matches!(state, State::Closed));
        assert!(matches!(action, Action::Close));
    }
}

#[test]
fn an_empty_request_is_told() {
    let (state, action) = receive("");
    assert!(matches!(state, State::Failing));
    assert_eq!(sent(action), told("empty HTTP request"));
}

#[test]
fn a_request_that_cannot_be_read_is_told() {
    let (state, _) = open();
    let event = Event::Received { read: Err("reset".to_string()) };
    let (_, action) = step(&server(), state, event);
    assert_eq!(sent(action), told("failed to read request: reset"));
}

#[test]
fn a_static_file_is_sent() {
    for method in ["GET", "HEAD"] {
        let (state, action) = receive(&format!("{method} /a.css?v=1 HTTP/1.1\r\n\r\n"));
        match action {
            Action::Probe { path } => assert_eq!(path, "/srv/logs/a.css"),
            _ => panic!("a file is looked for"),
        }
        let (state, action) = probed(state, true);
        match action {
            Action::Load { path } => assert_eq!(path, "/srv/logs/a.css"),
            _ => panic!("a file is read"),
        }
        let (state, action) = step(&server(), state, Event::Loaded { read: Ok(b"b{}".to_vec()) });
        assert!(matches!(state, State::Replying));
        assert_eq!(sent(action), write_response(200, "text/css; charset=utf-8", b"b{}"));
    }
}

#[test]
fn a_static_file_that_cannot_be_read_is_told() {
    let (state, _) = receive("GET /a.css");
    let (state, _) = probed(state, true);
    let event = Event::Loaded { read: Err("denied".to_string()) };
    let (_, action) = step(&server(), state, event);
    assert_eq!(sent(action), told("failed to read static file /srv/logs/a.css: denied"));
}

#[test]
fn sources_and_logs_are_not_sent() {
    for target in ["/index.php", "/INDEX.PHP", "/rustenphp-error.log", "/a.Log?x"] {
        let (state, action) = receive(&format!("GET {target}"));
        assert!(matches!(action, Action::Probe { .. }));
        let (_, action) = probed(state, true);
        assert!(matches!(action, Action::Stamp));
    }
}

#[test]
fn a_target_that_names_no_file_goes_to_php() {
    for text in ["GET /", "GET /?a=1", "GET /../x", "\n"] {
        let (state, action) = handle_connection(&server(), text);
        assert!(matches!(state, State::Stamping { .. }));
        assert!(matches!(action, Action::Stamp));
    }
}

#[test]
fn php_is_given_the_program_for_the_request() {
    let (state, _) = receive("HEAD /x/y?q='1 HTTP/1.1\r\n\r\n");
    let (state, _) = probed(state, false);
    let (state, action) = step(&server(), state, stamp());
    let job = run_laravel_request(
        PathRules::Unix,
        "/srv",
        "/srv/logs",
        "req-456789ab-8005-0123-2345",
        "HEAD",
        "/x/y?q='1",
        "q='1",
        "127.0.0.1",
        "8787",
    );
    match (state, action) {
        (State::Running { output_path: path }, Action::Run { code, output_path }) => {
            assert_eq!(path, "/srv/logs/tmp/req-456789ab-8005-0123-2345");
            assert_eq!(output_path, path);
            assert_eq!(code, job.php_code);
        }
        _ => panic!("PHP is run"),
    }
}

#[test]
fn what_php_leaves_is_sent_and_removed() {
    let kinds = [
        ("<p>caf\u{e9}</p>", "text/html; charset=utf-8"),
        (" {\"a\": [1]} \n", "application/json; charset=utf-8"),
    ];
    for (body, kind) in kinds {
        let path = "/srv/logs/tmp/req-456789ab-8005-0123-2345";
        let state = running("GET /");
        let event = Event::Ran { reply: Reply::Answered { outcome: Ok(()) } };
        let (state, action) = step(&server(), state, event);
        match action {
            Action::Collect { path: p } => assert_eq!(p, path),
            _ => panic!("the response is read"),
        }
        let event = Event::Collected { text: Ok(body.to_string()), shown: format!("{path:?}") };
        let (state, action) = step(&server(), state, event);
        match action {
            Action::Discard { path: p, post } => {
                assert_eq!(p, path);
                assert_eq!(post, "\"/srv/logs/tmp/req-456789ab-8005-0123-2345\".post");
            }
            _ => panic!("the response is removed"),
        }
        let (_, action) = step(&server(), state, Event::Discarded);
        assert_eq!(sent(action), write_response(200, kind, body.as_bytes()));
    }
}

#[test]
fn what_becomes_of_a_job_is_told() {
    let cases = [
        (Reply::Unsent, "PHP background worker thread panicked or stopped"),
        (Reply::Lost, "Failed to receive response from PHP worker"),
        (
            Reply::Answered { outcome: Err("zend_eval_string failed with status -1".to_string()) },
            "zend_eval_string failed with status -1",
        ),
    ];
    for (reply, text) in cases {
        let (state, action) = step(&server(), running("GET /"), Event::Ran { reply });
        assert!(matches!(state, State::Failing));
        assert_eq!(sent(action), told(text));
    }
}

#[test]
fn a_response_of_php_that_cannot_be_read_is_told() {
    let event = Event::Ran { reply: Reply::Answered { outcome: Ok(()) } };
    let (state, _) = step(&server(), running("GET /"), event);
    let event = Event::Collected { text: Err("gone".to_string()), shown: "gone".to_string() };
    let (_, action) = step(&server(), state, event);
    assert_eq!(
        sent(action),
        told("failed to read PHP response /srv/logs/tmp/req-456789ab-8005-0123-2345: gone")
    );
}

#[test]
fn a_response_that_cannot_be_written_is_told_once() {
    let (state, _) = receive("POST /");
    let event = Event::Sent { written: Err("pipe".to_string()) };
    let (state, action) = step(&server(), state, event);
    assert_eq!(sent(action), told("failed to write response: pipe"));
    let event = Event::Sent { written: Err("pipe".to_string()) };
    let (state, action) = step(&server(), state, event);
    assert!(matches!(state, State::Closed));
    assert!(matches!(action, Action::Close));
}

#[test]
fn an_event_out_of_turn_ends_the_connection() {
    let (state, _) = receive("GET /");
    let (state, action) = step(&server(), state, Event::Discarded);
    assert!(matches!(state, State::Closed));
    assert!(matches!(action, Action::Close));
}

#[test]
fn near_requests_leave_their_responses_apart() {
    let path = |seq: u64| {
        let (state, _) = receive("GET /");
        let event = Event::Stamped { seq, millis: 1_700_000_000_000, process_id: 9 };
        match step(&server(), state, event).0 {
            State::Running { output_path } => output_path,
            _ => panic!("PHP is run"),
        }
    };
    assert_ne!(path(0), path(1));
    assert_ne!(path(0), path(0x3fff));
    assert_eq!(path(0), path(0x4000));
}

#[test]
fn a_file_goes_with_what_php_leaves() {
    assert_eq!(post_path("\"/srv/x\""), "\"/srv/x\".post");
}

#[test]
fn the_longest_course_takes_eight_events() {
    let event = |action: &Action| match action {
        Action::Receive => Event::Received { read: Ok(b"GET /x".to_vec()) },
        Action::Probe { .. } => Event::Probed { is_file: false },
        Action::Load { .. } => Event::Loaded { read: Ok(vec![]) },
        Action::Stamp => stamp(),
        Action::Run { .. } => Event::Ran { reply: Reply::Answered { outcome: Ok(()) } },
        Action::Collect { path } => {
            Event::Collected { text: Ok("x".to_string()), shown: path.clone() }
        }
        Action::Discard { .. } => Event::Discarded,
        _ => Event::Sent { written: Err("pipe".to_string()) },
    };
    let (mut state, mut action) = open();
    let mut events = 0;
    let mut responses = 0;
    while !matches!(action, Action::Close) {
        let outcome = event(&action);
        (state, action) = step(&server(), state, outcome);
        events += 1;
        responses += matches!(action, Action::Send { .. }) as u32;
    }
    assert!(matches!(state, State::Closed));
    assert_eq!(events, 8);
    assert_eq!(responses, 2);
}
