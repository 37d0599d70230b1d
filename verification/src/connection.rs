//! The course of one connection: what is asked of the system, and what follows
//! from each of its answers.
//!
//! A connection is a state, and it has asked for one action. Once the action is
//! done, its outcome is an event; state and event decide the next state and the
//! next action, until there is nothing left to do but close.
use vstd::prelude::*;

use crate::error::message;
use crate::error::ErrorView;
use crate::error::ServerError;
use crate::http::body_type;
use crate::http::content_type;
use crate::http::content_type_of;
use crate::http::parse_request;
use crate::http::request_of;
use crate::http::response_bytes;
use crate::http::sniff_body;
use crate::http::split_target;
use crate::http::target_path;
use crate::http::target_query;
use crate::http::write_response;
use crate::http::Request;
use crate::http::RequestView;
use crate::http::PLAIN_TEXT;
use crate::request_id::request_id;
use crate::request_id::rustenphp_request_id;
use crate::script::laravel_script;
use crate::script::output_path;
use crate::script::run_laravel_request;
use crate::server::Server;
use crate::server::ServerView;
use crate::static_file::candidate;
use crate::static_file::resolve_static_file;
use crate::static_file::static_candidate;
use crate::static_file::static_file;
use crate::text::same_text;
use vstd::utf8::decode_utf8;
use vstd::utf8::encode_utf8;
use vstd::utf8::valid_utf8;

verus! {

/// How many bytes of a request are read, at most.
pub const REQUEST_LIMIT: usize = 8192;

/// What is told of a method other than `GET` and `HEAD`.
pub const REFUSAL: &'static str = "Only GET and HEAD are implemented in this prototype.";

/// What stands before the start of every request id.
pub const ID_PREFIX: &'static str = "req";

/// What became of a job for the PHP worker.
pub enum Reply {
    /// The worker took it no more.
    Unsent,
    /// The worker took it and gave no answer.
    Lost,
    /// The worker answered: the code ran, or did not, and why.
    Answered { outcome: Result<(), String> },
}

/// What the system is asked to do.
pub enum Action {
    /// Read the request.
    Receive,
    /// See whether there is a file at a path.
    Probe { path: String },
    /// Read a file.
    Load { path: String },
    /// Take the next count, the time and the number of the process.
    Stamp,
    /// Have PHP run some code, which leaves its response at a path.
    Run { code: String, output_path: String },
    /// Read what PHP has left at a path, and show that path for debugging.
    Collect { path: String },
    /// Remove what PHP has left at a path, then the file that goes with it.
    Discard { path: String, post: String },
    /// Send some bytes.
    Send { bytes: Vec<u8> },
    /// Close the connection.
    Close,
}

/// What came of an action.
pub enum Event {
    Received { read: Result<Vec<u8>, String> },
    Probed { is_file: bool },
    Loaded { read: Result<Vec<u8>, String> },
    Stamped { seq: u64, millis: u128, process_id: u32 },
    Ran { reply: Reply },
    Collected { text: Result<String, String>, shown: String },
    Discarded,
    Sent { written: Result<(), String> },
}

/// Where a connection stands: what it waits for, and what it needs to go on.
pub enum State {
    Receiving,
    Probing { request: Request },
    Loading { file: String },
    Stamping { request: Request },
    Running { output_path: String },
    Collecting { output_path: String },
    Discarding { body: String },
    /// The response is being sent.
    Replying,
    /// What went wrong is being sent.
    Failing,
    Closed,
}

// The same as plain sequences.
pub ghost enum ReplyView {
    Unsent,
    Lost,
    Answered { outcome: Result<(), Seq<char>> },
}

pub ghost enum ActionView {
    Receive,
    Probe { path: Seq<char> },
    Load { path: Seq<char> },
    Stamp,
    Run { code: Seq<char>, output_path: Seq<char> },
    Collect { path: Seq<char> },
    Discard { path: Seq<char>, post: Seq<char> },
    Send { bytes: Seq<u8> },
    Close,
}

pub ghost enum EventView {
    Received { read: Result<Seq<u8>, Seq<char>> },
    Probed { is_file: bool },
    Loaded { read: Result<Seq<u8>, Seq<char>> },
    Stamped { seq: nat, millis: nat, process_id: nat },
    Ran { reply: ReplyView },
    Collected { text: Result<Seq<char>, Seq<char>>, shown: Seq<char> },
    Discarded,
    Sent { written: Result<(), Seq<char>> },
}

pub ghost enum StateView {
    Receiving,
    Probing { request: RequestView },
    Loading { file: Seq<char> },
    Stamping { request: RequestView },
    Running { output_path: Seq<char> },
    Collecting { output_path: Seq<char> },
    Discarding { body: Seq<char> },
    Replying,
    Failing,
    Closed,
}

/// What was read, as plain sequences.
pub open spec fn bytes_read(read: Result<Vec<u8>, String>) -> Result<Seq<u8>, Seq<char>> {
    match read {
        Ok(bytes) => Ok(bytes@),
        Err(cause) => Err(cause@),
    }
}

/// What was read, as plain sequences.
pub open spec fn text_read(read: Result<String, String>) -> Result<Seq<char>, Seq<char>> {
    match read {
        Ok(text) => Ok(text@),
        Err(cause) => Err(cause@),
    }
}

/// What was done, as plain sequences.
pub open spec fn done(outcome: Result<(), String>) -> Result<(), Seq<char>> {
    match outcome {
        Ok(_) => Ok(()),
        Err(cause) => Err(cause@),
    }
}

impl View for Reply {
    type V = ReplyView;

    open spec fn view(&self) -> ReplyView {
        match *self {
            Reply::Unsent => ReplyView::Unsent,
            Reply::Lost => ReplyView::Lost,
            Reply::Answered { outcome } => ReplyView::Answered { outcome: done(outcome) },
        }
    }
}

impl View for Action {
    type V = ActionView;

    open spec fn view(&self) -> ActionView {
        match *self {
            Action::Receive => ActionView::Receive,
            Action::Probe { path } => ActionView::Probe { path: path@ },
            Action::Load { path } => ActionView::Load { path: path@ },
            Action::Stamp => ActionView::Stamp,
            Action::Run { code, output_path } => ActionView::Run {
                code: code@,
                output_path: output_path@,
            },
            Action::Collect { path } => ActionView::Collect { path: path@ },
            Action::Discard { path, post } => ActionView::Discard { path: path@, post: post@ },
            Action::Send { bytes } => ActionView::Send { bytes: bytes@ },
            Action::Close => ActionView::Close,
        }
    }
}

impl View for Event {
    type V = EventView;

    open spec fn view(&self) -> EventView {
        match *self {
            Event::Received { read } => EventView::Received { read: bytes_read(read) },
            Event::Probed { is_file } => EventView::Probed { is_file },
            Event::Loaded { read } => EventView::Loaded { read: bytes_read(read) },
            Event::Stamped { seq, millis, process_id } => EventView::Stamped {
                seq: seq as nat,
                millis: millis as nat,
                process_id: process_id as nat,
            },
            Event::Ran { reply } => EventView::Ran { reply: reply@ },
            Event::Collected { text, shown } => EventView::Collected {
                text: text_read(text),
                shown: shown@,
            },
            Event::Discarded => EventView::Discarded,
            Event::Sent { written } => EventView::Sent { written: done(written) },
        }
    }
}

impl View for State {
    type V = StateView;

    open spec fn view(&self) -> StateView {
        match *self {
            State::Receiving => StateView::Receiving,
            State::Probing { request } => StateView::Probing { request: request@ },
            State::Loading { file } => StateView::Loading { file: file@ },
            State::Stamping { request } => StateView::Stamping { request: request@ },
            State::Running { output_path } => StateView::Running { output_path: output_path@ },
            State::Collecting { output_path } => StateView::Collecting {
                output_path: output_path@,
            },
            State::Discarding { body } => StateView::Discarding { body: body@ },
            State::Replying => StateView::Replying,
            State::Failing => StateView::Failing,
            State::Closed => StateView::Closed,
        }
    }
}

/// The text that bytes are read as by `String::from_utf8_lossy`.
pub uninterp spec fn utf8_lossy(bytes: Seq<u8>) -> Seq<char>;

/// `String::from_utf8_lossy` reads bytes as UTF-8. Bytes that are UTF-8 give the
/// text that they encode. In others each sequence that is not UTF-8 is replaced
/// by U+FFFD, so that some bytes always give some text; how many bytes one
/// replacement stands for is left unsaid here. The text depends on the bytes
/// alone.
#[verifier::external_body]
fn from_utf8_lossy(bytes: &[u8]) -> (text: String)
    ensures
        text@ == utf8_lossy(bytes@),
        valid_utf8(bytes@) ==> text@ == decode_utf8(bytes@),
        bytes@.len() > 0 ==> text@.len() > 0,
{
    String::from_utf8_lossy(bytes).to_string()
}

/// What follows once something went wrong: it is told in a response.
pub open spec fn failure(error: ErrorView) -> (StateView, ActionView) {
    (
        StateView::Failing,
        ActionView::Send {
            bytes: response_bytes(
                500,
                PLAIN_TEXT@,
                encode_utf8("rustenphp error: "@ + message(error)),
            ),
        },
    )
}

/// Whether the server takes a method.
pub open spec fn is_allowed(method: Seq<char>) -> bool {
    method == "GET"@ || method == "HEAD"@
}

/// What follows the text of a request. A request by another method than `GET`
/// and `HEAD` is refused. For the others a file is looked for, where the target
/// can name one, and PHP is run where it cannot.
pub open spec fn after_text(server: ServerView, text: Seq<char>) -> (StateView, ActionView) {
    match request_of(text) {
        None => failure(ErrorView::EmptyRequest),
        Some(request) => if !is_allowed(request.method) {
            (
                StateView::Replying,
                ActionView::Send {
                    bytes: response_bytes(405, PLAIN_TEXT@, encode_utf8(REFUSAL@)),
                },
            )
        } else {
            match candidate(server.rules, server.public_root, target_path(request.target)) {
                Some(path) => (StateView::Probing { request }, ActionView::Probe { path }),
                None => (StateView::Stamping { request }, ActionView::Stamp),
            }
        },
    }
}

/// What follows the search for a file: it is read where it may be sent, and PHP
/// is run where not.
pub open spec fn after_probe(server: ServerView, request: RequestView, is_file: bool) -> (
    StateView,
    ActionView,
) {
    match static_file(server.rules, server.public_root, target_path(request.target), is_file) {
        Some(file) => (StateView::Loading { file }, ActionView::Load { path: file }),
        None => (StateView::Stamping { request }, ActionView::Stamp),
    }
}

/// What follows the reading of a file: it is sent.
pub open spec fn after_load(
    server: ServerView,
    file: Seq<char>,
    read: Result<Seq<u8>, Seq<char>>,
) -> (StateView, ActionView) {
    match read {
        Ok(body) => (
            StateView::Replying,
            ActionView::Send {
                bytes: response_bytes(200, content_type_of(server.rules, file), body),
            },
        ),
        Err(cause) => failure(ErrorView::ReadStatic { file, cause }),
    }
}

/// What follows a stamp: PHP is run under an id made of it.
pub open spec fn after_stamp(
    server: ServerView,
    request: RequestView,
    seq: nat,
    millis: nat,
    process_id: nat,
) -> (StateView, ActionView) {
    let id = request_id(ID_PREFIX@, seq, millis, process_id);
    let path = output_path(server.rules, server.public_root, id);
    (
        StateView::Running { output_path: path },
        ActionView::Run {
            code: laravel_script(
                server.rules,
                server.laravel_root,
                server.public_root,
                id,
                request.method,
                request.target,
                target_query(request.target),
                server.host,
                server.port,
            ),
            output_path: path,
        },
    )
}

/// What follows a run of PHP: its response is read where it went well.
pub open spec fn after_run(path: Seq<char>, reply: ReplyView) -> (StateView, ActionView) {
    match reply {
        ReplyView::Unsent => failure(ErrorView::WorkerStopped),
        ReplyView::Lost => failure(ErrorView::NoReply),
        ReplyView::Answered { outcome: Err(cause) } => failure(ErrorView::Worker { cause }),
        ReplyView::Answered { outcome: Ok(_) } => (
            StateView::Collecting { output_path: path },
            ActionView::Collect { path },
        ),
    }
}

/// The path of the file that goes with what PHP has left: the path of that as it
/// is shown for debugging, and an extension.
pub open spec fn post(shown: Seq<char>) -> Seq<char> {
    shown + ".post"@
}

/// What follows the reading of the response that PHP has left: it is removed,
/// and the file that goes with it.
pub open spec fn after_collect(
    path: Seq<char>,
    read: Result<Seq<char>, Seq<char>>,
    shown: Seq<char>,
) -> (StateView, ActionView) {
    match read {
        Ok(body) => (
            StateView::Discarding { body },
            ActionView::Discard { path, post: post(shown) },
        ),
        Err(cause) => failure(ErrorView::ReadOutput { path, cause }),
    }
}

/// The next state and action.
pub open spec fn next(server: ServerView, state: StateView, event: EventView) -> (
    StateView,
    ActionView,
) {
    match (state, event) {
        (StateView::Receiving, EventView::Received { read: Ok(bytes) }) => after_text(
            server,
            utf8_lossy(bytes),
        ),
        (StateView::Receiving, EventView::Received { read: Err(cause) }) => failure(
            ErrorView::ReadRequest { cause },
        ),
        (StateView::Probing { request }, EventView::Probed { is_file }) => after_probe(
            server,
            request,
            is_file,
        ),
        (StateView::Loading { file }, EventView::Loaded { read }) => after_load(
            server,
            file,
            read,
        ),
        (StateView::Stamping { request }, EventView::Stamped { seq, millis, process_id }) =>
            after_stamp(server, request, seq, millis, process_id),
        (StateView::Running { output_path }, EventView::Ran { reply }) => after_run(
            output_path,
            reply,
        ),
        (StateView::Collecting { output_path }, EventView::Collected { text, shown }) =>
            after_collect(output_path, text, shown),
        (StateView::Discarding { body }, EventView::Discarded) => (
            StateView::Replying,
            ActionView::Send { bytes: response_bytes(200, body_type(body), encode_utf8(body)) },
        ),
        (StateView::Replying, EventView::Sent { written: Err(cause) }) => failure(
            ErrorView::WriteResponse { cause },
        ),
        (StateView::Replying, EventView::Sent { written: Ok(_) }) => (
            StateView::Closed,
            ActionView::Close,
        ),
        // Nothing is left to be told where the telling fails, and an event that
        // answers no action that was asked for ends the connection.
        _ => (StateView::Closed, ActionView::Close),
    }
}

/// Tells what went wrong.
pub fn fail(error: ServerError) -> (turn: (State, Action))
    ensures
        (turn.0@, turn.1@) == failure(error@),
{
    let body = "rustenphp error: ".to_owned().concat(error.message().as_str());
    let bytes = write_response(500, PLAIN_TEXT, body.as_str().as_bytes());
    (State::Failing, Action::Send { bytes })
}

/// Reads a request as text.
pub fn read_http_request(read: Result<Vec<u8>, String>) -> (text: Result<String, ServerError>)
    ensures
        match (read, text) {
            (Ok(bytes), Ok(t)) => {
                &&& t@ == utf8_lossy(bytes@)
                &&& valid_utf8(bytes@) ==> t@ == decode_utf8(bytes@)
                &&& bytes@.len() > 0 ==> t@.len() > 0
            },
            (Err(cause), Err(e)) => e@ == (ErrorView::ReadRequest { cause: cause@ }),
            _ => false,
        },
{
    match read {
        Ok(bytes) => Ok(from_utf8_lossy(bytes.as_slice())),
        Err(cause) => Err(ServerError::ReadRequest { cause }),
    }
}

/// Decides what follows the text of a request.
pub fn handle_connection(server: &Server, text: &str) -> (turn: (State, Action))
    ensures
        (turn.0@, turn.1@) == after_text(server@, text@),
{
    match parse_request(text) {
        None => fail(ServerError::EmptyRequest),
        Some(request) => {
            let method = request.method.as_str();
            if !same_text(method, "GET") && !same_text(method, "HEAD") {
                let bytes = write_response(405, PLAIN_TEXT, REFUSAL.as_bytes());
                return (State::Replying, Action::Send { bytes });
            }
            let (path, _query) = split_target(request.target.as_str());
            match static_candidate(server.rules, server.public_root.as_str(), path) {
                Some(path) => (State::Probing { request }, Action::Probe { path }),
                None => (State::Stamping { request }, Action::Stamp),
            }
        },
    }
}

/// The name of the file that goes with what PHP has left, and is removed with
/// it: `shown` is the path of that as it is shown for debugging.
pub fn post_path(shown: &str) -> (path: String)
    ensures
        path@ == post(shown@),
{
    shown.to_owned().concat(".post")
}

/// A connection as it starts: with a request to be read.
pub fn open() -> (turn: (State, Action))
    ensures
        turn.0@ == StateView::Receiving,
        turn.1@ == ActionView::Receive,
{
    (State::Receiving, Action::Receive)
}

/// Decides what follows an event.
pub fn step(server: &Server, state: State, event: Event) -> (turn: (State, Action))
    ensures
        (turn.0@, turn.1@) == next(server@, state@, event@),
        // A request in UTF-8 is taken for the text that it encodes, and none but
        // an empty one is found to be empty.
        match (state@, event@) {
            (StateView::Receiving, EventView::Received { read: Ok(bytes) }) => {
                &&& valid_utf8(bytes) ==> (turn.0@, turn.1@) == after_text(
                    server@,
                    decode_utf8(bytes),
                )
                &&& turn.0@ is Failing <==> bytes.len() == 0
                &&& bytes.len() == 0 ==> (turn.0@, turn.1@) == failure(ErrorView::EmptyRequest)
            },
            _ => true,
        },
{
    match (state, event) {
        (State::Receiving, Event::Received { read }) => match read_http_request(read) {
            Ok(text) => handle_connection(server, text.as_str()),
            Err(error) => fail(error),
        },
        (State::Probing { request }, Event::Probed { is_file }) => {
            let (path, _query) = split_target(request.target.as_str());
            match resolve_static_file(server.rules, server.public_root.as_str(), path, is_file) {
                Some(file) => {
                    let path = file.clone();
                    (State::Loading { file }, Action::Load { path })
                },
                None => (State::Stamping { request }, Action::Stamp),
            }
        },
        (State::Loading { file }, Event::Loaded { read }) => match read {
            Ok(body) => {
                let bytes = write_response(
                    200,
                    content_type(server.rules, file.as_str()),
                    body.as_slice(),
                );
                (State::Replying, Action::Send { bytes })
            },
            Err(cause) => fail(ServerError::ReadStatic { file, cause }),
        },
        (State::Stamping { request }, Event::Stamped { seq, millis, process_id }) => {
            let id = rustenphp_request_id(ID_PREFIX, seq, millis, process_id);
            let (_path, query) = split_target(request.target.as_str());
            let job = run_laravel_request(
                server.rules,
                server.laravel_root.as_str(),
                server.public_root.as_str(),
                id.as_str(),
                request.method.as_str(),
                request.target.as_str(),
                query,
                server.host.as_str(),
                server.port.as_str(),
            );
            let output_path = job.output_path.clone();
            (
                State::Running { output_path: job.output_path },
                Action::Run { code: job.php_code, output_path },
            )
        },
        (State::Running { output_path }, Event::Ran { reply }) => match reply {
            Reply::Unsent => fail(ServerError::WorkerStopped),
            Reply::Lost => fail(ServerError::NoReply),
            Reply::Answered { outcome } => match outcome {
                Ok(_) => {
                    let path = output_path.clone();
                    (State::Collecting { output_path }, Action::Collect { path })
                },
                Err(cause) => fail(ServerError::Worker { cause }),
            },
        },
        (State::Collecting { output_path }, Event::Collected { text, shown }) => match text {
            Ok(body) => {
                let post = post_path(shown.as_str());
                (State::Discarding { body }, Action::Discard { path: output_path, post })
            },
            Err(cause) => fail(ServerError::ReadOutput { path: output_path, cause }),
        },
        (State::Discarding { body }, Event::Discarded) => {
            let bytes = write_response(200, sniff_body(body.as_str()), body.as_str().as_bytes());
            (State::Replying, Action::Send { bytes })
        },
        (State::Replying, Event::Sent { written }) => match written {
            Ok(_) => (State::Closed, Action::Close),
            Err(cause) => fail(ServerError::WriteResponse { cause }),
        },
        _ => (State::Closed, Action::Close),
    }
}

} // verus!
