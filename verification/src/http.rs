//! Requests and responses as the server reads and writes them.
use vstd::prelude::*;

use crate::path::extension;
use crate::path::path_extension;
use crate::path::PathRules;
use crate::php::law_literal_means_its_value;
use crate::php::literal_value;
use crate::php::php_quoted;
use crate::text::before;
use crate::text::chars_of;
use crate::text::decimal;
use crate::text::decimal_text;
use crate::text::ends_a_word;
use crate::text::find;
use crate::text::find_line;
use crate::text::first_line;
use crate::text::is_blank;
use crate::text::is_space;
use crate::text::is_word;
use crate::text::law_a_text_is_whitespace_around_the_rest;
use crate::text::law_first_line_ends_at_the_first_line_feed;
use crate::text::law_no_words_in_whitespace;
use crate::text::law_trimming_takes_off_whitespace;
use crate::text::law_words_hold_no_whitespace;
use crate::text::law_words_stand_between_whitespace;
use crate::text::lemma_before;
use crate::text::lemma_before_is;
use crate::text::same_text;
use crate::text::split_words;
use crate::text::texts;
use crate::text::trim;
use crate::text::trimmed;
use crate::text::words;
use vstd::utf8::encode_utf8;

verus! {

/// The media type of plain text.
pub const PLAIN_TEXT: &'static str = "text/plain; charset=utf-8";

/// The media type of a web page.
pub const HTML: &'static str = "text/html; charset=utf-8";

/// The media type of JSON.
pub const JSON: &'static str = "application/json; charset=utf-8";

/// What a request asks for: its method and its target.
pub struct Request {
    pub method: String,
    pub target: String,
}

/// A request as plain sequences.
pub ghost struct RequestView {
    pub method: Seq<char>,
    pub target: Seq<char>,
}

impl View for Request {
    type V = RequestView;

    open spec fn view(&self) -> RequestView {
        RequestView { method: self.method@, target: self.target@ }
    }
}

/// The request that a text makes: the first two words of its first line, where
/// `GET` stands for a missing method and `/` for a missing target. An empty text
/// makes none.
pub open spec fn request_of(text: Seq<char>) -> Option<RequestView> {
    match first_line(text) {
        Some(line) => Some(
            RequestView {
                method: if words(line).len() > 0 {
                    words(line)[0]
                } else {
                    "GET"@
                },
                target: if words(line).len() > 1 {
                    words(line)[1]
                } else {
                    "/"@
                },
            },
        ),
        None => None,
    }
}

/// The part of a target before its first `?`.
pub open spec fn target_path(target: Seq<char>) -> Seq<char> {
    target.take(before(target, '?') as int)
}

/// The part of a target after its first `?`: empty where there is none.
pub open spec fn target_query(target: Seq<char>) -> Seq<char> {
    if before(target, '?') < target.len() {
        target.skip(before(target, '?') as int + 1)
    } else {
        Seq::empty()
    }
}

/// Whether PHP reads the literal for a value as that value.
pub open spec fn literal_reads_as(value: Seq<char>) -> bool {
    literal_value(php_quoted(value).subrange(1, php_quoted(value).len() - 1)) == value
}

/// The media type of a file with a given extension.
pub open spec fn media_type(extension: Seq<char>) -> Seq<char> {
    if extension == "css"@ {
        "text/css; charset=utf-8"@
    } else if extension == "js"@ {
        "application/javascript; charset=utf-8"@
    } else if extension == "json"@ {
        JSON@
    } else if extension == "png"@ {
        "image/png"@
    } else if extension == "jpg"@ || extension == "jpeg"@ {
        "image/jpeg"@
    } else if extension == "svg"@ {
        "image/svg+xml"@
    } else if extension == "ico"@ {
        "image/x-icon"@
    } else if extension == "txt"@ {
        HTML@
    } else if extension == "log"@ {
        HTML@
    } else {
        "application/octet-stream"@
    }
}

/// The media type of a file by the extension of its path. A path without one
/// counts as one with an empty one.
pub open spec fn content_type_of(rules: PathRules, path: Seq<char>) -> Seq<char> {
    match extension(rules, path) {
        Some(e) => media_type(e),
        None => media_type(Seq::empty()),
    }
}

/// Whether a text looks like JSON: whitespace aside, it stands in braces or in
/// brackets.
pub open spec fn looks_like_json(body: Seq<char>) -> bool {
    let inner = trimmed(body);
    inner.len() > 0 && {
        ||| inner[0] == '{' && inner.last() == '}'
        ||| inner[0] == '[' && inner.last() == ']'
    }
}

/// The media type of what PHP has written.
pub open spec fn body_type(body: Seq<char>) -> Seq<char> {
    if looks_like_json(body) {
        JSON@
    } else {
        HTML@
    }
}

/// The words that go with a status code.
pub open spec fn reason(status: u16) -> Seq<char> {
    if status == 405 {
        "Method Not Allowed"@
    } else if status == 500 {
        "Internal Server Error"@
    } else {
        "OK"@
    }
}

/// What stands before the body of a response.
pub open spec fn response_head(status: u16, content_type: Seq<char>, length: nat) -> Seq<char> {
    "HTTP/1.1 "@ + decimal(status as nat) + " "@ + reason(status) + "\r\nContent-Type: "@
        + content_type + "\r\nContent-Length: "@ + decimal(length)
        + "\r\nConnection: close\r\n\r\n"@
}

/// A response as it is sent.
pub open spec fn response_bytes(status: u16, content_type: Seq<char>, body: Seq<u8>) -> Seq<u8> {
    encode_utf8(response_head(status, content_type, body.len())) + body
}

/// Reads a request.
pub fn parse_request(text: &str) -> (request: Option<Request>)
    ensures
        match request {
            Some(r) => request_of(text@) == Some(r@),
            None => request_of(text@) is None,
        },
{
    match find_line(text) {
        Some(first) => {
            let list = split_words(first);
            assert(texts(list@).len() == list@.len());
            let method = if list.len() > 0 {
                list[0].clone()
            } else {
                "GET".to_owned()
            };
            let target = if list.len() > 1 {
                list[1].clone()
            } else {
                "/".to_owned()
            };
            Some(Request { method, target })
        },
        None => None,
    }
}

/// Splits a target into its path and its query.
pub fn split_target(target: &str) -> (parts: (&str, &str))
    ensures
        parts.0@ == target_path(target@),
        parts.1@ == target_query(target@),
{
    let chars = chars_of(target);
    let n = find(&chars, '?');
    let path = target.substring_char(0, n);
    assert(path@ == target@.take(n as int));
    if n < chars.len() {
        (path, target.substring_char(n + 1, chars.len()))
    } else {
        (path, target.substring_char(n, n))
    }
}

/// A target is its path, and its query after a `?` where it has one. The path
/// holds no `?`.
pub proof fn law_target_is_its_parts(target: Seq<char>)
    ensures
        !target_path(target).contains('?'),
        target.contains('?') ==> target == target_path(target) + seq!['?'] + target_query(target),
        !target.contains('?') ==> target == target_path(target) && target_query(target).len() == 0,
{
    lemma_before(target, '?');
    let n = before(target, '?') as int;
    if n < target.len() {
        assert(target[n] == '?');
        assert(target =~= target_path(target) + seq!['?'] + target_query(target));
    } else {
        assert(target =~= target_path(target));
    }
}

/// The method and the target of a request are never empty and hold no
/// whitespace.
pub proof fn law_request_holds_no_whitespace(text: Seq<char>)
    ensures
        request_of(text) matches Some(request) ==> {
            &&& request.method.len() > 0
            &&& request.target.len() > 0
            &&& forall|i: int|
                0 <= i < request.method.len() ==> !is_space(#[trigger] request.method[i])
            &&& forall|i: int|
                0 <= i < request.target.len() ==> !is_space(#[trigger] request.target[i])
        },
{
    reveal_strlit("GET");
    reveal_strlit("/");
    if let Some(line) = first_line(text) {
        law_words_hold_no_whitespace(line);
    }
}

/// PHP reads the method, the target and the query of a request from their
/// literals just as the client has sent them.
pub proof fn law_php_reads_what_the_client_said(text: Seq<char>)
    ensures
        request_of(text) matches Some(request) ==> {
            &&& literal_reads_as(request.method)
            &&& literal_reads_as(request.target)
            &&& literal_reads_as(target_query(request.target))
        },
{
    law_request_holds_no_whitespace(text);
    if let Some(request) = request_of(text) {
        let query = target_query(request.target);
        lemma_before(request.target, '?');
        let n = before(request.target, '?') as int;
        assert forall|i: int| 0 <= i < query.len() implies !is_space(#[trigger] query[i]) by {
            assert(query[i] == request.target[n + 1 + i]);
        }
        law_literal_means_its_value(request.method);
        law_literal_means_its_value(request.target);
        law_literal_means_its_value(query);
    }
}

/// Picks the media type of a file with a given extension.
pub fn type_of_extension(extension: &str) -> (kind: &'static str)
    ensures
        kind@ == media_type(extension@),
{
    if same_text(extension, "css") {
        "text/css; charset=utf-8"
    } else if same_text(extension, "js") {
        "application/javascript; charset=utf-8"
    } else if same_text(extension, "json") {
        JSON
    } else if same_text(extension, "png") {
        "image/png"
    } else if same_text(extension, "jpg") || same_text(extension, "jpeg") {
        "image/jpeg"
    } else if same_text(extension, "svg") {
        "image/svg+xml"
    } else if same_text(extension, "ico") {
        "image/x-icon"
    } else if same_text(extension, "txt") {
        HTML
    } else if same_text(extension, "log") {
        HTML
    } else {
        "application/octet-stream"
    }
}

/// Picks the media type of a file.
pub fn content_type(rules: PathRules, path: &str) -> (kind: &'static str)
    ensures
        kind@ == content_type_of(rules, path@),
{
    match path_extension(rules, path) {
        Some(e) => type_of_extension(e),
        None => {
            proof {
                reveal_strlit("");
            }
            assert(""@ == Seq::<char>::empty());
            type_of_extension("")
        },
    }
}

/// Picks the media type of what PHP has written.
pub fn sniff_body(body: &str) -> (kind: &'static str)
    ensures
        kind@ == body_type(body@),
{
    let inner = chars_of(trim(body));
    let n = inner.len();
    if n > 0 && ((inner[0] == '{' && inner[n - 1] == '}') || (inner[0] == '[' && inner[n - 1]
        == ']')) {
        JSON
    } else {
        HTML
    }
}

/// Writes a response.
pub fn write_response(status: u16, content_type: &str, body: &[u8]) -> (bytes: Vec<u8>)
    ensures
        bytes@ == response_bytes(status, content_type@, body@),
{
    let reason_words = match status {
        200 => "OK",
        405 => "Method Not Allowed",
        500 => "Internal Server Error",
        _ => "OK",
    };
    let mut head = "HTTP/1.1 ".to_owned();
    head.append(decimal_text(status as u64).as_str());
    head.append(" ");
    head.append(reason_words);
    head.append("\r\nContent-Type: ");
    head.append(content_type);
    head.append("\r\nContent-Length: ");
    head.append(decimal_text(body.len() as u64).as_str());
    head.append("\r\nConnection: close\r\n\r\n");
    let mut bytes: Vec<u8> = Vec::new();
    bytes.extend_from_slice(head.as_str().as_bytes());
    assert(bytes@ == encode_utf8(head@));
    bytes.extend_from_slice(body);
    assert(bytes@ == encode_utf8(head@) + body@);
    bytes
}

/// The first line of a text that starts with a front without a line break: that
/// front and some of what stands behind it before the next line feed.
proof fn lemma_first_line_keeps(front: Seq<char>, c: Seq<char>) -> (d: Seq<char>)
    requires
        front.len() > 0 || c.len() > 0,
        !front.contains('\n'),
        front.len() > 0 ==> front.last() != '\r',
    ensures
        first_line(front + c) == Some(front + d),
        d.len() <= before(c, '\n') <= c.len(),
        d == c.take(d.len() as int),
{
    lemma_before(c, '\n');
    let n = before(c, '\n') as int;
    let head = c.take(n);
    let line = front + head;
    assert(!line.contains('\n')) by {
        assert forall|i: int| 0 <= i < line.len() implies line[i] != '\n' by {
            if i < front.len() {
                assert(front.contains(front[i]));
            } else {
                assert(c[i - front.len()] != '\n');
            }
        }
    }
    if n < c.len() {
        law_first_line_ends_at_the_first_line_feed(line, c.skip(n + 1));
        assert(front + c == line + seq!['\n'] + c.skip(n + 1));
        if line.len() > 0 && line.last() == '\r' {
            assert(head.len() > 0);
            assert(line.drop_last() == front + head.drop_last());
            assert(head.drop_last() == c.take(n - 1));
            head.drop_last()
        } else {
            head
        }
    } else {
        assert(head == c);
        law_first_line_ends_at_the_first_line_feed(line, Seq::empty());
        head
    }
}

/// The method of a request is the first word of its first line and the target the
/// second, whatever they are, whatever whitespace stands around them and whatever
/// comes behind them.
pub proof fn law_request_is_two_words(
    a: Seq<char>,
    method: Seq<char>,
    b: Seq<char>,
    target: Seq<char>,
    c: Seq<char>,
)
    requires
        is_blank(a) && !a.contains('\n'),
        is_word(method),
        is_blank(b) && !b.contains('\n') && b.len() > 0,
        is_word(target),
        ends_a_word(c),
    ensures
        request_of(a + method + b + target + c) == Some(RequestView { method, target }),
{
    let front = a + method + b + target;
    assert(!front.contains('\n')) by {
        assert forall|i: int| 0 <= i < front.len() implies front[i] != '\n' by {
            let n = a.len() as int;
            let m = n + method.len();
            let k = m + b.len();
            if i < n {
                assert(a.contains(a[i]));
            } else if i < m {
                assert(!is_space(method[i - n]));
            } else if i < k {
                assert(b.contains(b[i - m]));
            } else {
                assert(!is_space(target[i - k]));
            }
        }
    }
    assert(!is_space(target[target.len() - 1]));
    let d = lemma_first_line_keeps(front, c);
    assert(ends_a_word(d));
    let line = front + d;
    let rest = b + target + d;
    assert(is_space(b[0]) && rest[0] == b[0]);
    assert(line == a + method + rest);
    law_words_stand_between_whitespace(a, method, rest);
    law_words_stand_between_whitespace(b, target, d);
    assert(words(line) == seq![method] + (seq![target] + words(d)));
}

/// Where the first line holds no word behind the method, the target is `/`.
/// Where it holds none at all, the method is `GET` besides.
pub proof fn law_what_a_request_leaves_out(
    a: Seq<char>,
    method: Seq<char>,
    b: Seq<char>,
    rest: Seq<char>,
)
    requires
        is_blank(a) && !a.contains('\n'),
        is_word(method),
        is_blank(b) && !b.contains('\n'),
        rest.len() > 0 ==> rest[0] == '\n',
    ensures
        request_of(a + method + b + rest) == Some(RequestView { method, target: "/"@ }),
        (b + rest).len() > 0 ==> request_of(b + rest) == Some(
            RequestView { method: "GET"@, target: "/"@ },
        ),
        request_of(Seq::empty()) is None,
{
    let front = a + method;
    assert(!front.contains('\n')) by {
        assert forall|i: int| 0 <= i < front.len() implies front[i] != '\n' by {
            if i < a.len() {
                assert(a.contains(a[i]));
            } else {
                assert(!is_space(method[i - a.len()]));
            }
        }
    }
    assert(!is_space(method[method.len() - 1]));
    let c = b + rest;
    lemma_before_is(b, '\n', rest);
    let d = lemma_first_line_keeps(front, c);
    assert(is_blank(d)) by {
        assert forall|i: int| 0 <= i < d.len() implies is_space(#[trigger] d[i]) by {
            assert(d[i] == c[i] && c[i] == b[i]);
            assert(is_space(b[i]));
        }
    }
    assert(a + method + b + rest == front + c);
    assert(ends_a_word(d)) by {
        if d.len() > 0 {
            assert(is_space(d[0]));
        }
    }
    law_words_stand_between_whitespace(a, method, d);
    law_no_words_in_whitespace(d);
    if c.len() > 0 {
        let none = Seq::<char>::empty();
        let e = lemma_first_line_keeps(none, c);
        assert(none + c == c && none + e == e);
        assert(is_blank(e)) by {
            assert forall|i: int| 0 <= i < e.len() implies is_space(#[trigger] e[i]) by {
                assert(e[i] == c[i] && c[i] == b[i]);
                assert(is_space(b[i]));
            }
        }
        law_no_words_in_whitespace(e);
    }
    law_first_line_ends_at_the_first_line_feed(Seq::empty(), Seq::empty());
}

/// A target is split at its first `?`, whatever comes behind it, further ones
/// included. One without a `?` is all path.
pub proof fn law_target_splits_at_its_first_mark(path: Seq<char>, query: Seq<char>)
    requires
        !path.contains('?'),
    ensures
        target_path(path + seq!['?'] + query) == path,
        target_query(path + seq!['?'] + query) == query,
        target_path(path) == path,
        target_query(path).len() == 0,
{
    let target = path + seq!['?'] + query;
    assert(target == path + (seq!['?'] + query));
    lemma_before_is(path, '?', seq!['?'] + query);
    assert(target.take(path.len() as int) == path);
    assert(target.skip(path.len() as int + 1) == query);
    assert(path == path + Seq::<char>::empty());
    lemma_before_is(path, '?', Seq::empty());
    assert(path.take(path.len() as int) == path);
}

/// What PHP has written is JSON where it stands in brackets or in braces,
/// whatever stands between them and whatever whitespace stands around them.
pub proof fn law_what_stands_in_braces_is_json(a: Seq<char>, m: Seq<char>, b: Seq<char>)
    requires
        is_blank(a),
        is_blank(b),
    ensures
        body_type(a + seq!['['] + m + seq![']'] + b) == "application/json; charset=utf-8"@,
        body_type(a + seq!['{'] + m + seq!['}'] + b) == "application/json; charset=utf-8"@,
{
    let list = seq!['['] + m + seq![']'];
    assert(a + seq!['['] + m + seq![']'] + b == a + list + b);
    law_trimming_takes_off_whitespace(a, list, b);
    let object = seq!['{'] + m + seq!['}'];
    assert(a + seq!['{'] + m + seq!['}'] + b == a + object + b);
    law_trimming_takes_off_whitespace(a, object, b);
}

/// What PHP has written is a web page where it stands neither in brackets nor in
/// braces, whitespace aside.
pub proof fn law_all_else_is_a_page(body: Seq<char>)
    requires
        forall|a: Seq<char>, m: Seq<char>, b: Seq<char>|
            is_blank(a) && is_blank(b) ==> body != #[trigger] (a + seq!['['] + m + seq![']'] + b),
        forall|a: Seq<char>, m: Seq<char>, b: Seq<char>|
            is_blank(a) && is_blank(b) ==> body != #[trigger] (a + seq!['{'] + m + seq!['}'] + b),
    ensures
        body_type(body) == "text/html; charset=utf-8"@,
{
    if looks_like_json(body) {
        let (a, b) = law_a_text_is_whitespace_around_the_rest(body);
        let inner = trimmed(body);
        let m = inner.subrange(1, inner.len() - 1);
        if inner[0] == '{' {
            assert(inner == seq!['{'] + m + seq!['}']);
            assert(body == a + seq!['{'] + m + seq!['}'] + b);
        } else {
            assert(inner == seq!['['] + m + seq![']']);
            assert(body == a + seq!['['] + m + seq![']'] + b);
        }
    }
}

/// The media type of a file goes by its extension, letter by letter: ten of them
/// have one of their own, and any other file is a stream of bytes.
pub proof fn law_media_type_goes_by_the_extension(rules: PathRules, path: Seq<char>)
    ensures
        ({
            let kind = content_type_of(rules, path);
            match extension(rules, path) {
                Some(e) => {
                    &&& e == "css"@ ==> kind == "text/css; charset=utf-8"@
                    &&& e == "js"@ ==> kind == "application/javascript; charset=utf-8"@
                    &&& e == "json"@ ==> kind == "application/json; charset=utf-8"@
                    &&& e == "png"@ ==> kind == "image/png"@
                    &&& e == "jpg"@ || e == "jpeg"@ ==> kind == "image/jpeg"@
                    &&& e == "svg"@ ==> kind == "image/svg+xml"@
                    &&& e == "ico"@ ==> kind == "image/x-icon"@
                    &&& e == "txt"@ || e == "log"@ ==> kind == "text/html; charset=utf-8"@
                    &&& {
                        ||| e == "css"@ || e == "js"@ || e == "json"@ || e == "png"@
                        ||| e == "jpg"@ || e == "jpeg"@ || e == "svg"@ || e == "ico"@
                        ||| e == "txt"@ || e == "log"@
                        ||| kind == "application/octet-stream"@
                    }
                },
                None => kind == "application/octet-stream"@,
            }
        }),
{
    reveal_strlit("css");
    reveal_strlit("js");
    reveal_strlit("json");
    reveal_strlit("png");
    reveal_strlit("jpg");
    reveal_strlit("jpeg");
    reveal_strlit("svg");
    reveal_strlit("ico");
    reveal_strlit("txt");
    reveal_strlit("log");
    assert("css"@.len() == 3 && "js"@.len() == 2 && "json"@.len() == 4 && "png"@.len() == 3);
    assert("jpg"@.len() == 3 && "jpeg"@.len() == 4 && "svg"@.len() == 3 && "ico"@.len() == 3);
    assert("txt"@.len() == 3 && "log"@.len() == 3);
    let none = Seq::<char>::empty();
    assert(none != "css"@ && none != "js"@ && none != "json"@ && none != "png"@ && none != "jpg"@
        && none != "jpeg"@ && none != "svg"@ && none != "ico"@ && none != "txt"@ && none != "log"@);
    assert("css"@[0] == 'c' && "png"@[0] == 'p' && "jpg"@[0] == 'j' && "svg"@[0] == 's');
    assert("ico"@[0] == 'i' && "txt"@[0] == 't' && "log"@[0] == 'l');
    assert("json"@[1] == 's' && "jpeg"@[1] == 'p');
    match extension(rules, path) {
        Some(e) => {
            let kind = content_type_of(rules, path);
            assert(e == "js"@ ==> kind == "application/javascript; charset=utf-8"@);
            assert(e == "json"@ ==> kind == "application/json; charset=utf-8"@);
            assert(e == "png"@ ==> kind == "image/png"@);
            assert(e == "jpg"@ ==> kind == "image/jpeg"@);
            assert(e == "jpeg"@ ==> kind == "image/jpeg"@);
            assert(e == "svg"@ ==> kind == "image/svg+xml"@);
            assert(e == "ico"@ ==> kind == "image/x-icon"@);
            assert(e == "txt"@ ==> kind == "text/html; charset=utf-8"@);
            assert(e == "log"@ ==> kind == "text/html; charset=utf-8"@);
        },
        None => {},
    }
}

/// A response is a status line, a media type, the length of the body, a notice
/// that the connection is closed, a blank line and the body as it is, all of it.
pub proof fn law_response_is_written_out(status: u16, content_type: Seq<char>, body: Seq<u8>)
    ensures
        ({
            let words = if status == 405 {
                "Method Not Allowed"@
            } else if status == 500 {
                "Internal Server Error"@
            } else {
                "OK"@
            };
            response_bytes(status, content_type, body) == encode_utf8(
                "HTTP/1.1 "@ + decimal(status as nat) + " "@ + words + "\r\nContent-Type: "@
                    + content_type + "\r\nContent-Length: "@ + decimal(body.len())
                    + "\r\nConnection: close\r\n\r\n"@,
            ) + body
        }),
{
}

} // verus!
