//! What holds of every connection, whatever the system answers.
use vstd::prelude::*;

use crate::connection::after_text;
use crate::connection::failure;
use crate::connection::is_allowed;
use crate::connection::next;
use crate::connection::utf8_lossy;
use crate::connection::Action;
use crate::connection::ActionView;
use crate::connection::Event;
use crate::connection::EventView;
use crate::connection::Reply;
use crate::connection::ReplyView;
use crate::connection::State;
use crate::connection::StateView;
use crate::connection::ID_PREFIX;
use crate::connection::REFUSAL;
use crate::connection::REQUEST_LIMIT;
use crate::error::message;
use crate::error::ErrorView;
use crate::framing::blank_line_at;
use crate::framing::law_response_frames_its_body;
use crate::http::body_type;
use crate::http::content_type_of;
use crate::http::law_request_is_two_words;
use crate::http::law_response_is_written_out;
use crate::http::law_target_splits_at_its_first_mark;
use crate::http::request_of;
use crate::http::response_bytes;
use crate::http::target_path;
use crate::http::target_query;
use crate::http::Request;
use crate::http::RequestView;
use crate::http::PLAIN_TEXT;
use crate::path::is_plain_name;
use crate::path::joined_path;
use crate::path::law_joined_path_ends_with_the_name;
use crate::path::PathRules;
use crate::request_id::law_id_is_plain;
use crate::request_id::law_near_ids_differ;
use crate::request_id::request_id;
use crate::script::laravel_script;
use crate::script::output_path;
use crate::server::ServerView;
use crate::static_file::candidate;
use crate::static_file::is_hidden;
use crate::text::decimal;
use crate::text::ends_a_word;
use crate::text::is_blank;
use crate::text::is_word;
use crate::text::law_first_line_ends_at_the_first_line_feed;
use vstd::utf8::encode_utf8;
use vstd::utf8::is_ascii_chars;
use vstd::utf8::is_ascii_chars_encode_utf8;

verus! {

/// Whether an action is the one that a state waits for.
pub open spec fn waits_for(server: ServerView, state: StateView, action: ActionView) -> bool {
    match state {
        StateView::Receiving => action is Receive,
        StateView::Probing { request } => candidate(
            server.rules,
            server.public_root,
            target_path(request.target),
        ) matches Some(path) && action == (ActionView::Probe { path }),
        StateView::Loading { file } => action == (ActionView::Load { path: file }),
        StateView::Stamping { request } => action is Stamp,
        StateView::Running { output_path } => action matches ActionView::Run {
            code,
            output_path: path,
        } && path == output_path,
        StateView::Collecting { output_path } => action == (ActionView::Collect {
            path: output_path,
        }),
        StateView::Discarding { body } => action is Discard,
        StateView::Replying => action is Send,
        StateView::Failing => action is Send,
        StateView::Closed => action is Close,
    }
}

/// Whether an event is an outcome of the action that a state waits for.
pub open spec fn answers(state: StateView, event: EventView) -> bool {
    match state {
        StateView::Receiving => event is Received,
        StateView::Probing { request } => event is Probed,
        StateView::Loading { file } => event is Loaded,
        StateView::Stamping { request } => event is Stamped,
        StateView::Running { output_path } => event is Ran,
        StateView::Collecting { output_path } => event is Collected,
        StateView::Discarding { body } => event is Discarded,
        StateView::Replying => event is Sent,
        StateView::Failing => event is Sent,
        StateView::Closed => false,
    }
}

/// How many events a connection has at most before it.
pub open spec fn rank(state: StateView) -> nat {
    match state {
        StateView::Receiving => 8,
        StateView::Probing { request } => 7,
        StateView::Stamping { request } => 6,
        StateView::Running { output_path } => 5,
        StateView::Collecting { output_path } => 4,
        StateView::Discarding { body } => 3,
        StateView::Loading { file } => 3,
        StateView::Replying => 2,
        StateView::Failing => 1,
        StateView::Closed => 0,
    }
}

/// Whether a connection that goes on does so for a method that is allowed.
pub open spec fn is_sound(state: StateView) -> bool {
    match state {
        StateView::Probing { request } => is_allowed(request.method),
        StateView::Stamping { request } => is_allowed(request.method),
        _ => true,
    }
}

/// How many more responses a connection sends at most.
pub open spec fn responses_left(state: StateView) -> nat {
    match state {
        StateView::Replying => 1,
        StateView::Failing => 0,
        StateView::Closed => 0,
        _ => 2,
    }
}

/// The state after a list of events.
pub open spec fn state_after(
    server: ServerView,
    state: StateView,
    events: Seq<EventView>,
) -> StateView
    decreases events.len(),
{
    if events.len() == 0 {
        state
    } else {
        next(server, state_after(server, state, events.drop_last()), events.last()).0
    }
}

/// The actions that a list of events leads to, one for each event.
pub open spec fn actions_after(
    server: ServerView,
    state: StateView,
    events: Seq<EventView>,
) -> Seq<ActionView>
    decreases events.len(),
{
    if events.len() == 0 {
        Seq::empty()
    } else {
        actions_after(server, state, events.drop_last()).push(
            next(server, state_after(server, state, events.drop_last()), events.last()).1,
        )
    }
}

/// How many of the actions send something.
pub open spec fn sends(actions: Seq<ActionView>) -> nat
    decreases actions.len(),
{
    if actions.len() == 0 {
        0
    } else if actions.last() is Send {
        sends(actions.drop_last()) + 1
    } else {
        sends(actions.drop_last())
    }
}

/// Whether each event of a list answers the action that was asked for before it.
pub open spec fn all_answer(server: ServerView, state: StateView, events: Seq<EventView>) -> bool
    decreases events.len(),
{
    events.len() > 0 ==> {
        &&& all_answer(server, state, events.drop_last())
        &&& answers(state_after(server, state, events.drop_last()), events.last())
    }
}

/// The action that is asked for is always the one that the new state waits for.
pub proof fn law_action_is_the_one_waited_for(
    server: ServerView,
    state: StateView,
    event: EventView,
)
    ensures
        waits_for(server, next(server, state, event).0, next(server, state, event).1),
{
}

/// Each event brings a connection closer to its end.
pub proof fn law_connection_comes_closer_to_its_end(
    server: ServerView,
    state: StateView,
    event: EventView,
)
    requires
        !(state is Closed),
    ensures
        rank(next(server, state, event).0) < rank(state),
{
}

/// A connection is closed after eight events, whatever they are.
pub proof fn law_connection_ends(server: ServerView, events: Seq<EventView>)
    requires
        events.len() >= 8,
    ensures
        state_after(server, StateView::Receiving, events) is Closed,
{
    lemma_rank_after(server, StateView::Receiving, events);
}

proof fn lemma_rank_after(server: ServerView, state: StateView, events: Seq<EventView>)
    ensures
        rank(state_after(server, state, events)) + events.len() <= rank(state) || state_after(
            server,
            state,
            events,
        ) is Closed,
    decreases events.len(),
{
    if events.len() > 0 {
        lemma_rank_after(server, state, events.drop_last());
        let earlier = state_after(server, state, events.drop_last());
        if !(earlier is Closed) {
            law_connection_comes_closer_to_its_end(server, earlier, events.last());
        }
    }
}

/// A request by another method than `GET` and `HEAD` is answered with a refusal,
/// and nothing else is done for it: no file is looked for and no PHP is run.
pub proof fn law_other_methods_are_refused(
    server: ServerView,
    text: Seq<char>,
    events: Seq<EventView>,
)
    requires
        request_of(text) matches Some(request) && request.method != "GET"@ && request.method
            != "HEAD"@,
    ensures
        after_text(server, text) == (
            StateView::Replying,
            ActionView::Send {
                bytes: response_bytes(405, PLAIN_TEXT@, encode_utf8(REFUSAL@)),
            },
        ),
        forall|i: int|
            0 <= i < events.len() ==> {
                let action = #[trigger] actions_after(server, StateView::Replying, events)[i];
                action is Send || action is Close
            },
{
    lemma_actions_after_reply(server, events);
}

proof fn lemma_actions_after_reply(server: ServerView, events: Seq<EventView>)
    ensures
        ({
            let state = state_after(server, StateView::Replying, events);
            state is Replying || state is Failing || state is Closed
        }),
        actions_after(server, StateView::Replying, events).len() == events.len(),
        forall|i: int|
            0 <= i < events.len() ==> {
                let action = #[trigger] actions_after(server, StateView::Replying, events)[i];
                action is Send || action is Close
            },
    decreases events.len(),
{
    if events.len() > 0 {
        let earlier = events.drop_last();
        lemma_actions_after_reply(server, earlier);
        let actions = actions_after(server, StateView::Replying, events);
        assert forall|i: int| 0 <= i < events.len() implies {
            let action = #[trigger] actions[i];
            action is Send || action is Close
        } by {
            if i < earlier.len() {
                assert(actions[i] == actions_after(server, StateView::Replying, earlier)[i]);
            }
        }
    }
}

/// PHP is run for no method but `GET` and `HEAD`: whatever the events, a
/// connection that has started goes on for such a method alone.
pub proof fn law_connection_stays_sound(server: ServerView, events: Seq<EventView>)
    ensures
        is_sound(state_after(server, StateView::Receiving, events)),
        match state_after(server, StateView::Receiving, events) {
            StateView::Probing { request } => request.method == "GET"@ || request.method
                == "HEAD"@,
            StateView::Stamping { request } => request.method == "GET"@ || request.method
                == "HEAD"@,
            _ => true,
        },
    decreases events.len(),
{
    if events.len() > 0 {
        law_connection_stays_sound(server, events.drop_last());
    }
}

/// PHP is run only where an id was asked for, and the code is the program that
/// answers the request.
pub proof fn law_php_runs_the_program(server: ServerView, state: StateView, event: EventView)
    requires
        next(server, state, event).1 is Run,
    ensures
        match (state, event) {
            (
                StateView::Stamping { request },
                EventView::Stamped { seq, millis, process_id },
            ) => {
                let id = request_id(ID_PREFIX@, seq, millis, process_id);
                next(server, state, event).1 == (ActionView::Run {
                    code: laravel_script(
                        server.rules,
                        server.laravel_root,
                        server.public_root,
                        id,
                        request.method,
                        request.target,
                        target_query(request.target),
                        server.host,
                        server.port,
                    ),
                    output_path: output_path(server.rules, server.public_root, id),
                })
            },
            _ => false,
        },
{
}

/// A file is read only once it was found to be one, and neither a PHP source nor
/// a log is ever read.
pub proof fn law_only_files_that_may_be_sent_are_read(
    server: ServerView,
    state: StateView,
    event: EventView,
)
    ensures
        next(server, state, event).1 matches ActionView::Load { path } ==> {
            &&& event == (EventView::Probed { is_file: true })
            &&& waits_for(server, state, ActionView::Probe { path })
            &&& !is_hidden(server.rules, path)
        },
{
}

/// A connection whose actions are all answered is not closed before a response
/// was sent.
pub proof fn law_every_request_is_answered(server: ServerView, events: Seq<EventView>)
    requires
        all_answer(server, StateView::Receiving, events),
        state_after(server, StateView::Receiving, events) is Closed,
    ensures
        sends(actions_after(server, StateView::Receiving, events)) >= 1,
{
    lemma_sends_before_close(server, events);
}

proof fn lemma_sends_before_close(server: ServerView, events: Seq<EventView>)
    requires
        all_answer(server, StateView::Receiving, events),
    ensures
        ({
            let state = state_after(server, StateView::Receiving, events);
            (state is Replying || state is Failing || state is Closed) ==> sends(
                actions_after(server, StateView::Receiving, events),
            ) >= 1
        }),
    decreases events.len(),
{
    if events.len() > 0 {
        let earlier = events.drop_last();
        lemma_sends_before_close(server, earlier);
        let actions = actions_after(server, StateView::Receiving, events);
        assert(actions.drop_last() == actions_after(server, StateView::Receiving, earlier));
    }
}

/// A connection sends no more than two responses, and no more than one once a
/// response is being sent.
pub proof fn law_at_most_two_responses(
    server: ServerView,
    state: StateView,
    events: Seq<EventView>,
)
    ensures
        sends(actions_after(server, state, events)) + responses_left(
            state_after(server, state, events),
        ) <= responses_left(state),
    decreases events.len(),
{
    if events.len() > 0 {
        let earlier = events.drop_last();
        law_at_most_two_responses(server, state, earlier);
        let actions = actions_after(server, state, events);
        assert(actions.drop_last() == actions_after(server, state, earlier));
    }
}

/// Whatever goes wrong is told to the client as an internal error, but for what
/// goes wrong while that is being sent. After a response another one is sent
/// only to tell that the first could not be written.
pub proof fn law_failures_are_told(server: ServerView, state: StateView, event: EventView)
    ensures
        next(server, state, event).0 is Failing ==> exists|error: ErrorView|
            next(server, state, event) == #[trigger] failure(error),
        state is Replying && next(server, state, event).1 is Send ==> {
            &&& event matches EventView::Sent { written: Err(cause) }
            &&& next(server, state, event) == failure(ErrorView::WriteResponse { cause })
        },
        state is Failing ==> next(server, state, event) == (StateView::Closed, ActionView::Close),
{
    match (state, event) {
        (StateView::Receiving, EventView::Received { read: Err(cause) }) => {
            assert(next(server, state, event) == failure(ErrorView::ReadRequest { cause }));
        },
        (StateView::Receiving, EventView::Received { read: Ok(bytes) }) => {
            if next(server, state, event).0 is Failing {
                assert(next(server, state, event) == failure(ErrorView::EmptyRequest));
            }
        },
        (StateView::Loading { file }, EventView::Loaded { read: Err(cause) }) => {
            assert(next(server, state, event) == failure(ErrorView::ReadStatic { file, cause }));
        },
        (StateView::Running { output_path }, EventView::Ran { reply }) => {
            match reply {
                ReplyView::Unsent => {
                    assert(next(server, state, event) == failure(ErrorView::WorkerStopped));
                },
                ReplyView::Lost => {
                    assert(next(server, state, event) == failure(ErrorView::NoReply));
                },
                ReplyView::Answered { outcome: Err(cause) } => {
                    assert(next(server, state, event) == failure(ErrorView::Worker { cause }));
                },
                _ => {},
            }
        },
        (StateView::Collecting { output_path }, EventView::Collected { text: Err(cause), shown }) => {
            assert(next(server, state, event) == failure(
                ErrorView::ReadOutput { path: output_path, cause },
            ));
        },
        (StateView::Replying, EventView::Sent { written: Err(cause) }) => {
            assert(next(server, state, event) == failure(ErrorView::WriteResponse { cause }));
        },
        _ => {},
    }
}

/// Where PHP ran, what it has left is sent as it is. What it was left in is
/// removed before, and the file that goes with it, whose path is the other as it
/// is shown with `.post` behind it.
pub proof fn law_what_php_leaves_is_sent(
    server: ServerView,
    path: Seq<char>,
    shown: Seq<char>,
    body: Seq<char>,
)
    ensures
        ({
            let running = StateView::Running { output_path: path };
            let events = seq![
                EventView::Ran { reply: ReplyView::Answered { outcome: Ok(()) } },
                EventView::Collected { text: Ok(body), shown },
                EventView::Discarded,
            ];
            actions_after(server, running, events) == seq![
                ActionView::Collect { path },
                ActionView::Discard { path, post: shown + ".post"@ },
                ActionView::Send {
                    bytes: response_bytes(200, body_type(body), encode_utf8(body)),
                },
            ]
        }),
{
    let running = StateView::Running { output_path: path };
    let first = EventView::Ran { reply: ReplyView::Answered { outcome: Ok(()) } };
    let second = EventView::Collected { text: Ok(body), shown };
    let events = seq![first, second, EventView::Discarded];
    assert(events.drop_last() == seq![first, second]);
    assert(seq![first, second].drop_last() == seq![first]);
    assert(seq![first].drop_last() == Seq::<EventView>::empty());
    reveal_with_fuel(state_after, 4);
    reveal_with_fuel(actions_after, 4);
    assert(actions_after(server, running, events) =~= seq![
        ActionView::Collect { path },
        ActionView::Discard { path, post: shown + ".post"@ },
        ActionView::Send { bytes: response_bytes(200, body_type(body), encode_utf8(body)) },
    ]);
}

/// Two requests of one process that are fewer than 16384 apart leave their
/// responses at different paths, whatever the clock says.
pub proof fn law_near_requests_share_no_output(
    server: ServerView,
    count: nat,
    other_count: nat,
    millis: nat,
    other_millis: nat,
    process: nat,
)
    requires
        count < other_count < count + 0x4000,
    ensures
        output_path(
            server.rules,
            server.public_root,
            request_id(ID_PREFIX@, count, millis, process),
        ) != output_path(
            server.rules,
            server.public_root,
            request_id(ID_PREFIX@, other_count, other_millis, process),
        ),
{
    let a = request_id(ID_PREFIX@, count, millis, process);
    let b = request_id(ID_PREFIX@, other_count, other_millis, process);
    law_near_ids_differ(ID_PREFIX@, count, other_count, millis, other_millis, process);
    lemma_id_is_a_name(count, millis, process);
    lemma_id_is_a_name(other_count, other_millis, process);
    let base = joined_path(server.rules, server.public_root, "tmp"@);
    law_joined_path_ends_with_the_name(server.rules, base, a);
    law_joined_path_ends_with_the_name(server.rules, base, b);
}

proof fn lemma_id_is_a_name(count: nat, millis: nat, process: nat)
    ensures
        is_plain_name(request_id(ID_PREFIX@, count, millis, process)),
        request_id(ID_PREFIX@, count, millis, process).len() == 27,
{
    reveal_strlit("req");
    let id = request_id(ID_PREFIX@, count, millis, process);
    law_id_is_plain(ID_PREFIX@, count, millis, process);
    assert forall|i: int| 0 <= i < id.len() implies #[trigger] id[i] != '/' && id[i] != '\\'
        && id[i] != ':' by {
        if i < 3 {
            assert(id.take(3)[i] == ID_PREFIX@[i]);
        }
    }
}

proof fn lemma_status_lines()
    ensures
        "HTTP/1.1 "@ + decimal(200) + " "@ + "OK"@ + "\r\nContent-Type: "@
            == "HTTP/1.1 200 OK\r\nContent-Type: "@,
        "HTTP/1.1 "@ + decimal(405) + " "@ + "Method Not Allowed"@ + "\r\nContent-Type: "@
            == "HTTP/1.1 405 Method Not Allowed\r\nContent-Type: "@,
        "HTTP/1.1 "@ + decimal(500) + " "@ + "Internal Server Error"@ + "\r\nContent-Type: "@
            == "HTTP/1.1 500 Internal Server Error\r\nContent-Type: "@,
        decimal(52) == "52"@,
{
    reveal_with_fuel(decimal, 4);
    reveal_strlit("HTTP/1.1 ");
    reveal_strlit(" ");
    reveal_strlit("OK");
    reveal_strlit("Method Not Allowed");
    reveal_strlit("Internal Server Error");
    reveal_strlit("\r\nContent-Type: ");
    reveal_strlit("HTTP/1.1 200 OK\r\nContent-Type: ");
    reveal_strlit("HTTP/1.1 405 Method Not Allowed\r\nContent-Type: ");
    reveal_strlit("HTTP/1.1 500 Internal Server Error\r\nContent-Type: ");
    reveal_strlit("52");
    assert(decimal(200) =~= seq!['2', '0', '0']);
    assert(decimal(405) =~= seq!['4', '0', '5']);
    assert(decimal(500) =~= seq!['5', '0', '0']);
    assert(decimal(52) =~= "52"@);
    assert("HTTP/1.1 "@ + decimal(200) + " "@ + "OK"@ + "\r\nContent-Type: "@
        =~= "HTTP/1.1 200 OK\r\nContent-Type: "@);
    assert("HTTP/1.1 "@ + decimal(405) + " "@ + "Method Not Allowed"@ + "\r\nContent-Type: "@
        =~= "HTTP/1.1 405 Method Not Allowed\r\nContent-Type: "@);
    assert("HTTP/1.1 "@ + decimal(500) + " "@ + "Internal Server Error"@ + "\r\nContent-Type: "@
        =~= "HTTP/1.1 500 Internal Server Error\r\nContent-Type: "@);
}

/// The text of a refusal, from its status line to its body.
pub proof fn law_refusal_is_written_out(server: ServerView, text: Seq<char>)
    requires
        request_of(text) matches Some(request) && request.method != "GET"@ && request.method
            != "HEAD"@,
    ensures
        after_text(server, text).0 is Replying,
        after_text(server, text).1 == (ActionView::Send {
            bytes: encode_utf8(
                "HTTP/1.1 405 Method Not Allowed\r\nContent-Type: "@ + "text/plain; charset=utf-8"@
                    + "\r\nContent-Length: "@ + "52"@ + "\r\nConnection: close\r\n\r\n"@,
            ) + encode_utf8("Only GET and HEAD are implemented in this prototype."@),
        }),
{
    lemma_status_lines();
    reveal_strlit("Only GET and HEAD are implemented in this prototype.");
    let body = "Only GET and HEAD are implemented in this prototype."@;
    assert(is_ascii_chars(body));
    is_ascii_chars_encode_utf8(body);
    assert(encode_utf8(body).len() == 52);
    law_response_is_written_out(405, "text/plain; charset=utf-8"@, encode_utf8(body));
}

/// A request whose first word is neither `GET` nor `HEAD` is refused, whatever
/// its target is and whatever else it holds: the one action is to send a
/// response with the status 405. No file is looked for and no PHP is run.
pub proof fn law_a_request_by_another_word_is_refused(
    server: ServerView,
    a: Seq<char>,
    method: Seq<char>,
    b: Seq<char>,
    target: Seq<char>,
    c: Seq<char>,
)
    requires
        is_blank(a) && !a.contains('\n'),
        is_word(method),
        method != "GET"@ && method != "HEAD"@,
        is_blank(b) && !b.contains('\n') && b.len() > 0,
        is_word(target),
        ends_a_word(c),
    ensures
        after_text(server, a + method + b + target + c) == (
            StateView::Replying,
            ActionView::Send {
                bytes: encode_utf8(
                    "HTTP/1.1 405 Method Not Allowed\r\nContent-Type: "@
                        + "text/plain; charset=utf-8"@ + "\r\nContent-Length: "@ + "52"@
                        + "\r\nConnection: close\r\n\r\n"@,
                ) + encode_utf8("Only GET and HEAD are implemented in this prototype."@),
            },
        ),
{
    law_request_is_two_words(a, method, b, target, c);
    law_refusal_is_written_out(server, a + method + b + target + c);
}

/// A request by `GET` or `HEAD` is served: a file is looked for where the path of
/// its target asks for one, and PHP is asked where it does not. The request is
/// kept as it was read.
pub proof fn law_get_and_head_are_served(server: ServerView, text: Seq<char>, request: RequestView)
    requires
        request_of(text) == Some(request),
        request.method == "GET"@ || request.method == "HEAD"@,
    ensures
        after_text(server, text) == match candidate(
            server.rules,
            server.public_root,
            target_path(request.target),
        ) {
            Some(path) => (StateView::Probing { request }, ActionView::Probe { path }),
            None => (StateView::Stamping { request }, ActionView::Stamp),
        },
{
}

/// A request whose first two words are `GET` or `HEAD` and a target is served: a
/// file is looked for where the part of the target before its first `?` asks for
/// one, and PHP is asked where it does not. Method and target are kept as they
/// were sent.
pub proof fn law_a_request_by_get_or_head_is_served(
    server: ServerView,
    a: Seq<char>,
    method: Seq<char>,
    b: Seq<char>,
    path: Seq<char>,
    query: Option<Seq<char>>,
    c: Seq<char>,
)
    requires
        is_blank(a) && !a.contains('\n'),
        method == "GET"@ || method == "HEAD"@,
        is_blank(b) && !b.contains('\n') && b.len() > 0,
        !path.contains('?'),
        ends_a_word(c),
        is_word(
            match query {
                Some(q) => path + seq!['?'] + q,
                None => path,
            },
        ),
    ensures
        ({
            let target = match query {
                Some(q) => path + seq!['?'] + q,
                None => path,
            };
            let request = RequestView { method, target };
            after_text(server, a + method + b + target + c) == match candidate(
                server.rules,
                server.public_root,
                path,
            ) {
                Some(file) => (StateView::Probing { request }, ActionView::Probe { path: file }),
                None => (StateView::Stamping { request }, ActionView::Stamp),
            }
        }),
{
    let target = match query {
        Some(q) => path + seq!['?'] + q,
        None => path,
    };
    reveal_strlit("GET");
    reveal_strlit("HEAD");
    assert(is_word("GET"@));
    assert(is_word("HEAD"@));
    law_request_is_two_words(a, method, b, target, c);
    law_get_and_head_are_served(
        server,
        a + method + b + target + c,
        RequestView { method, target },
    );
    match query {
        Some(q) => {
            law_target_splits_at_its_first_mark(path, q);
        },
        None => {
            law_target_splits_at_its_first_mark(path, Seq::empty());
        },
    }
}

/// What is read of a connection decides what follows: its text, as far as it is
/// one, or why it could not be read. No more than 8192 bytes are read. An empty
/// text is told to be an empty request.
pub proof fn law_what_is_read_decides(server: ServerView, bytes: Seq<u8>, cause: Seq<char>)
    ensures
        REQUEST_LIMIT == 8192,
        next(server, StateView::Receiving, EventView::Received { read: Ok(bytes) }) == after_text(
            server,
            utf8_lossy(bytes),
        ),
        next(server, StateView::Receiving, EventView::Received { read: Err(cause) }) == failure(
            ErrorView::ReadRequest { cause },
        ),
        after_text(server, Seq::empty()) == failure(ErrorView::EmptyRequest),
{
    law_first_line_ends_at_the_first_line_feed(Seq::empty(), Seq::empty());
}

/// A failure is told with the status 500 and a text that starts with `rustenphp
/// error: `.
pub proof fn law_failure_is_written_out(error: ErrorView)
    ensures
        ({
            let body = encode_utf8("rustenphp error: "@ + message(error));
            failure(error) == (
                StateView::Failing,
                ActionView::Send {
                    bytes: encode_utf8(
                        "HTTP/1.1 500 Internal Server Error\r\nContent-Type: "@
                            + "text/plain; charset=utf-8"@ + "\r\nContent-Length: "@ + decimal(
                            body.len(),
                        ) + "\r\nConnection: close\r\n\r\n"@,
                    ) + body,
                },
            )
        }),
{
    lemma_status_lines();
    let body = encode_utf8("rustenphp error: "@ + message(error));
    law_response_is_written_out(500, "text/plain; charset=utf-8"@, body);
}

/// What follows the search for a file: it is read where there is one that is not
/// hidden. PHP is asked where there is none, and in place of a hidden one.
pub proof fn law_a_file_that_is_found_is_read(
    server: ServerView,
    request: RequestView,
    file: Seq<char>,
)
    requires
        candidate(server.rules, server.public_root, target_path(request.target)) == Some(file),
    ensures
        next(server, StateView::Probing { request }, EventView::Probed { is_file: false }) == (
            StateView::Stamping { request },
            ActionView::Stamp,
        ),
        next(server, StateView::Probing { request }, EventView::Probed { is_file: true }) == (
        if is_hidden(server.rules, file) {
            (StateView::Stamping { request }, ActionView::Stamp)
        } else {
            (StateView::Loading { file }, ActionView::Load { path: file })
        }),
{
}

proof fn lemma_media_types_hold_no_return(rules: PathRules, file: Seq<char>)
    ensures
        !content_type_of(rules, file).contains('\r'),
{
    reveal_strlit("text/css; charset=utf-8");
    reveal_strlit("application/javascript; charset=utf-8");
    reveal_strlit("application/json; charset=utf-8");
    reveal_strlit("image/png");
    reveal_strlit("image/jpeg");
    reveal_strlit("image/svg+xml");
    reveal_strlit("image/x-icon");
    reveal_strlit("text/html; charset=utf-8");
    reveal_strlit("application/octet-stream");
}

/// A file is sent with the status 200 and its media type, and the body of the
/// response is the file, all of it, whatever its length: the first blank line of
/// the response ends its head, and what follows is what was read.
pub proof fn law_a_file_is_sent_whole(server: ServerView, file: Seq<char>, body: Seq<u8>)
    ensures
        ({
            let turn = next(
                server,
                StateView::Loading { file },
                EventView::Loaded { read: Ok(body) },
            );
            turn.0 is Replying && (turn.1 matches ActionView::Send { bytes } && {
                let n = bytes.len() - body.len();
                &&& bytes == encode_utf8(
                    "HTTP/1.1 200 OK\r\nContent-Type: "@ + content_type_of(server.rules, file)
                        + "\r\nContent-Length: "@ + decimal(body.len())
                        + "\r\nConnection: close\r\n\r\n"@,
                ) + body
                &&& blank_line_at(bytes, n - 4)
                &&& forall|i: int| blank_line_at(bytes, i) ==> n - 4 <= i
                &&& bytes.skip(n) == body
            })
        }),
{
    lemma_status_lines();
    let kind = content_type_of(server.rules, file);
    lemma_media_types_hold_no_return(server.rules, file);
    law_response_is_written_out(200, kind, body);
    law_response_frames_its_body(200, kind, body);
}

/// What PHP has left is sent with the status 200, by the media type that its
/// text has, and the body of the response is that text, all of it, whatever its
/// length.
pub proof fn law_what_php_leaves_is_sent_whole(server: ServerView, body: Seq<char>)
    ensures
        ({
            let turn = next(server, StateView::Discarding { body }, EventView::Discarded);
            let text = encode_utf8(body);
            turn.0 is Replying && (turn.1 matches ActionView::Send { bytes } && {
                let n = bytes.len() - text.len();
                &&& bytes == encode_utf8(
                    "HTTP/1.1 200 OK\r\nContent-Type: "@ + body_type(body)
                        + "\r\nContent-Length: "@ + decimal(text.len())
                        + "\r\nConnection: close\r\n\r\n"@,
                ) + text
                &&& blank_line_at(bytes, n - 4)
                &&& forall|i: int| blank_line_at(bytes, i) ==> n - 4 <= i
                &&& bytes.skip(n) == text
            })
        }),
{
    lemma_status_lines();
    reveal_strlit("application/json; charset=utf-8");
    reveal_strlit("text/html; charset=utf-8");
    let kind = body_type(body);
    assert(!kind.contains('\r'));
    law_response_is_written_out(200, kind, encode_utf8(body));
    law_response_frames_its_body(200, kind, encode_utf8(body));
}

/// Once an id can be made PHP is always run, under an id that starts with `req`,
/// with the method and the target of the request, the part of the target behind
/// its first `?`, and the settings of the server.
pub proof fn law_php_is_run_for_the_request(
    server: ServerView,
    request: RequestView,
    seq: nat,
    millis: nat,
    process_id: nat,
)
    ensures
        ({
            let id = request_id("req"@, seq, millis, process_id);
            let path = joined_path(
                server.rules,
                joined_path(server.rules, server.public_root, "tmp"@),
                id,
            );
            next(
                server,
                StateView::Stamping { request },
                EventView::Stamped { seq, millis, process_id },
            ) == (
                StateView::Running { output_path: path },
                ActionView::Run {
                    code: laravel_script(
                        server.rules,
                        server.laravel_root,
                        server.public_root,
                        id,
                        request.method,
                        request.target,
                        target_query(request.target),
                        server.host,
                        server.port,
                    ),
                    output_path: path,
                },
            )
        }),
{
}

/// Each thing that can go wrong on the way is told for what it is.
pub proof fn law_each_failure_is_told_for_what_it_is(
    server: ServerView,
    path: Seq<char>,
    shown: Seq<char>,
    cause: Seq<char>,
)
    ensures
        next(
            server,
            StateView::Loading { file: path },
            EventView::Loaded { read: Err(cause) },
        ) == failure(ErrorView::ReadStatic { file: path, cause }),
        next(
            server,
            StateView::Running { output_path: path },
            EventView::Ran { reply: ReplyView::Unsent },
        ) == failure(ErrorView::WorkerStopped),
        next(
            server,
            StateView::Running { output_path: path },
            EventView::Ran { reply: ReplyView::Lost },
        ) == failure(ErrorView::NoReply),
        next(
            server,
            StateView::Running { output_path: path },
            EventView::Ran { reply: ReplyView::Answered { outcome: Err(cause) } },
        ) == failure(ErrorView::Worker { cause }),
        next(
            server,
            StateView::Collecting { output_path: path },
            EventView::Collected { text: Err(cause), shown },
        ) == failure(ErrorView::ReadOutput { path, cause }),
        next(server, StateView::Replying, EventView::Sent { written: Err(cause) }) == failure(
            ErrorView::WriteResponse { cause },
        ),
{
}

/// What PHP has left is read once it ran well, kept as it is, and removed with
/// the file that goes with it. The connection is closed once the response was
/// sent.
pub proof fn law_what_follows_a_run(
    server: ServerView,
    path: Seq<char>,
    shown: Seq<char>,
    body: Seq<char>,
)
    ensures
        next(
            server,
            StateView::Running { output_path: path },
            EventView::Ran { reply: ReplyView::Answered { outcome: Ok(()) } },
        ) == (StateView::Collecting { output_path: path }, ActionView::Collect { path }),
        next(
            server,
            StateView::Collecting { output_path: path },
            EventView::Collected { text: Ok(body), shown },
        ) == (
            StateView::Discarding { body },
            ActionView::Discard { path, post: shown + ".post"@ },
        ),
        next(server, StateView::Replying, EventView::Sent { written: Ok(()) }) == (
            StateView::Closed,
            ActionView::Close,
        ),
{
}

/// An event that does not answer the action that was asked for ends the
/// connection, and nothing more is asked for.
pub proof fn law_an_event_out_of_turn_closes(
    server: ServerView,
    state: StateView,
    event: EventView,
)
    requires
        !answers(state, event),
    ensures
        next(server, state, event) == (StateView::Closed, ActionView::Close),
{
}

/// Events are seen whole: nothing that was read or said is left out.
pub proof fn law_events_are_seen_whole(
    bytes: Vec<u8>,
    text: String,
    cause: String,
    shown: String,
    is_file: bool,
    seq: u64,
    millis: u128,
    process_id: u32,
    reply: Reply,
)
    ensures
        (Event::Received { read: Ok(bytes) })@ == (EventView::Received { read: Ok(bytes@) }),
        (Event::Received { read: Err(cause) })@ == (EventView::Received { read: Err(cause@) }),
        (Event::Probed { is_file })@ == (EventView::Probed { is_file }),
        (Event::Loaded { read: Ok(bytes) })@ == (EventView::Loaded { read: Ok(bytes@) }),
        (Event::Loaded { read: Err(cause) })@ == (EventView::Loaded { read: Err(cause@) }),
        (Event::Stamped { seq, millis, process_id })@ == (EventView::Stamped {
            seq: seq as nat,
            millis: millis as nat,
            process_id: process_id as nat,
        }),
        (Event::Ran { reply })@ == (EventView::Ran { reply: reply@ }),
        (Event::Collected { text: Ok(text), shown })@ == (EventView::Collected {
            text: Ok(text@),
            shown: shown@,
        }),
        (Event::Collected { text: Err(cause), shown })@ == (EventView::Collected {
            text: Err(cause@),
            shown: shown@,
        }),
        Event::Discarded@ == EventView::Discarded,
        (Event::Sent { written: Ok(()) })@ == (EventView::Sent { written: Ok(()) }),
        (Event::Sent { written: Err(cause) })@ == (EventView::Sent { written: Err(cause@) }),
        Reply::Unsent@ == ReplyView::Unsent,
        Reply::Lost@ == ReplyView::Lost,
        (Reply::Answered { outcome: Ok(()) })@ == (ReplyView::Answered { outcome: Ok(()) }),
        (Reply::Answered { outcome: Err(cause) })@ == (ReplyView::Answered {
            outcome: Err(cause@),
        }),
{
}

/// Actions are seen whole: nothing that is asked for is left out.
pub proof fn law_actions_are_seen_whole(path: String, other: String, bytes: Vec<u8>)
    ensures
        Action::Receive@ == ActionView::Receive,
        (Action::Probe { path })@ == (ActionView::Probe { path: path@ }),
        (Action::Load { path })@ == (ActionView::Load { path: path@ }),
        Action::Stamp@ == ActionView::Stamp,
        (Action::Run { code: other, output_path: path })@ == (ActionView::Run {
            code: other@,
            output_path: path@,
        }),
        (Action::Collect { path })@ == (ActionView::Collect { path: path@ }),
        (Action::Discard { path, post: other })@ == (ActionView::Discard {
            path: path@,
            post: other@,
        }),
        (Action::Send { bytes })@ == (ActionView::Send { bytes: bytes@ }),
        Action::Close@ == ActionView::Close,
{
}

/// States are seen whole: nothing that a connection needs to go on is left out.
pub proof fn law_states_are_seen_whole(request: Request, text: String)
    ensures
        State::Receiving@ == StateView::Receiving,
        (State::Probing { request })@ == (StateView::Probing { request: request@ }),
        (State::Loading { file: text })@ == (StateView::Loading { file: text@ }),
        (State::Stamping { request })@ == (StateView::Stamping { request: request@ }),
        (State::Running { output_path: text })@ == (StateView::Running { output_path: text@ }),
        (State::Collecting { output_path: text })@ == (StateView::Collecting {
            output_path: text@,
        }),
        (State::Discarding { body: text })@ == (StateView::Discarding { body: text@ }),
        State::Replying@ == StateView::Replying,
        State::Failing@ == StateView::Failing,
        State::Closed@ == StateView::Closed,
        request@.method == request.method@,
        request@.target == request.target@,
{
}

} // verus!
