//! What the program is asked to do, and where it serves.
use vstd::prelude::*;

use crate::path::join_path;
use crate::path::joined_path;
use crate::path::law_unix_paths_are_joined_by_one_slash;
use crate::path::PathRules;
use crate::text::is_blank;
use crate::text::is_space;
use crate::text::join;
use crate::text::joined;
use crate::text::law_a_text_is_whitespace_around_the_rest;
use crate::text::law_joined_texts_stand_in_their_places;
use crate::text::law_trimming_takes_off_whitespace;
use crate::text::offset;
use crate::text::same_text;
use crate::text::separated;
use crate::text::texts;
use crate::text::trim;
use crate::text::trim_end;
use crate::text::trim_start;
use crate::text::trimmed;

verus! {

/// The code that is run where none is given.
pub const DEFAULT_CODE: &'static str =
    "echo 'PHP embedded in Rust via php8embed.lib: '.PHP_VERSION.PHP_EOL;";

/// What the program is asked to do.
pub enum Command {
    /// Answer requests.
    Serve,
    /// Run some PHP code.
    Eval { code: String },
}

/// What the program is asked to do, as plain sequences.
pub ghost enum CommandView {
    Serve,
    Eval { code: Seq<char> },
}

impl View for Command {
    type V = CommandView;

    open spec fn view(&self) -> CommandView {
        match *self {
            Command::Serve => CommandView::Serve,
            Command::Eval { code } => CommandView::Eval { code: code@ },
        }
    }
}

/// What a list of arguments asks for: to serve, where the first is `serve`; or
/// else to run the code that they make up, or the default where that is blank.
pub open spec fn command_of(args: Seq<Seq<char>>) -> CommandView {
    if args.len() > 0 && args[0] == "serve"@ {
        CommandView::Serve
    } else if trimmed(joined(args, " "@)).len() == 0 {
        CommandView::Eval { code: DEFAULT_CODE@ }
    } else {
        CommandView::Eval { code: joined(args, " "@) }
    }
}

/// Reads the arguments of the program, without its name.
pub fn parse_command(args: &Vec<String>) -> (command: Command)
    ensures
        command@ == command_of(texts(args@)),
{
    assert(texts(args@).len() == args@.len());
    if args.len() > 0 && same_text(args[0].as_str(), "serve") {
        return Command::Serve;
    }
    let code = join(args, " ");
    if trim(code.as_str()).is_empty() {
        Command::Eval { code: DEFAULT_CODE.to_owned() }
    } else {
        Command::Eval { code }
    }
}

/// The code that is run is never blank.
pub proof fn law_code_is_never_blank(args: Seq<Seq<char>>)
    ensures
        command_of(args) matches CommandView::Eval { code } ==> trimmed(code).len() > 0,
{
    reveal_strlit("echo 'PHP embedded in Rust via php8embed.lib: '.PHP_VERSION.PHP_EOL;");
    assert(DEFAULT_CODE@[0] == 'e' && DEFAULT_CODE@.last() == ';');
    assert(trim_start(DEFAULT_CODE@) == DEFAULT_CODE@);
    assert(trim_end(DEFAULT_CODE@) == DEFAULT_CODE@);
}

/// Where the program serves: the rules that its paths go by, the root of the
/// application, the directory below it that is served, and the address.
pub struct Server {
    pub rules: PathRules,
    pub laravel_root: String,
    pub public_root: String,
    pub host: String,
    pub port: String,
}

/// Where the program serves, as plain sequences.
pub ghost struct ServerView {
    pub rules: PathRules,
    pub laravel_root: Seq<char>,
    pub public_root: Seq<char>,
    pub host: Seq<char>,
    pub port: Seq<char>,
}

impl View for Server {
    type V = ServerView;

    open spec fn view(&self) -> ServerView {
        ServerView {
            rules: self.rules,
            laravel_root: self.laravel_root@,
            public_root: self.public_root@,
            host: self.host@,
            port: self.port@,
        }
    }
}

/// A text, or another one where it is missing.
pub open spec fn text_or(text: Option<String>, other: Seq<char>) -> Seq<char> {
    match text {
        Some(t) => t@,
        None => other,
    }
}

/// Where the program serves by its settings. Without a root of its own the
/// application stands in the current directory, or in `.` where there is none
/// known. The directory that is served is always `logs` below the root.
pub open spec fn server_of(
    rules: PathRules,
    root: Option<String>,
    current: Option<String>,
    host: Option<String>,
    port: Option<String>,
) -> ServerView {
    let laravel_root = text_or(root, text_or(current, "."@));
    ServerView {
        rules,
        laravel_root,
        public_root: joined_path(rules, laravel_root, "logs"@),
        host: text_or(host, "127.0.0.1"@),
        port: text_or(port, "8787"@),
    }
}

/// The address that is listened on.
pub open spec fn address_of(server: ServerView) -> Seq<char> {
    server.host + ":"@ + server.port
}

fn or_else(text: Option<String>, other: &str) -> (chosen: String)
    ensures
        chosen@ == text_or(text, other@),
{
    match text {
        Some(t) => t,
        None => other.to_owned(),
    }
}

impl Server {
    /// Settles where the program serves.
    pub fn configure(
        rules: PathRules,
        root: Option<String>,
        current: Option<String>,
        host: Option<String>,
        port: Option<String>,
    ) -> (server: Server)
        ensures
            server@ == server_of(rules, root, current, host, port),
    {
        let directory = or_else(current, ".");
        let laravel_root = or_else(root, directory.as_str());
        let public_root = join_path(rules, laravel_root.as_str(), "logs");
        let host = or_else(host, "127.0.0.1");
        let port = or_else(port, "8787");
        Server { rules, laravel_root, public_root, host, port }
    }

    /// The address that is listened on.
    pub fn address(&self) -> (address: String)
        ensures
            address@ == address_of(self@),
    {
        self.host.clone().concat(":").concat(self.port.as_str())
    }

    /// What is said once the address is listened on.
    pub fn banner(&self) -> (line: String)
        ensures
            line@ == "rustenphp embedded Laravel server listening on http://"@ + address_of(self@),
    {
        "rustenphp embedded Laravel server listening on http://".to_owned().concat(
            self.address().as_str(),
        )
    }
}

proof fn lemma_separated_blanks(list: Seq<Seq<char>>)
    requires
        forall|i: int| 0 <= i < list.len() ==> is_blank(#[trigger] list[i]),
    ensures
        is_blank(separated(list, seq![' '])),
    decreases list.len(),
{
    if list.len() > 0 {
        let more = list.skip(1);
        assert forall|i: int| 0 <= i < more.len() implies is_blank(#[trigger] more[i]) by {
            assert(is_blank(list[i + 1]));
        }
        lemma_separated_blanks(more);
        let rest = separated(more, seq![' ']);
        let all = separated(list, seq![' ']);
        let n = 1 + list[0].len() as int;
        assert(is_blank(list[0]));
        assert forall|k: int| 0 <= k < all.len() implies is_space(#[trigger] all[k]) by {
            if 1 <= k < n {
                assert(is_space(list[0][k - 1]));
            } else if k >= n {
                assert(is_space(rest[k - n]));
            }
        }
    }
}

/// The code that is run is the arguments in their order, each of them whole, with
/// exactly one space between each two, however many there are. It is run unless
/// the first argument is `serve` or all of them are blank.
pub proof fn law_code_is_the_arguments(args: Seq<Seq<char>>)
    requires
        args.len() > 0,
        args[0] != "serve"@,
        exists|i: int| 0 <= i < args.len() && !is_blank(#[trigger] args[i]),
    ensures
        command_of(args) matches CommandView::Eval { code } && {
            &&& code.len() == offset(args, 1, args.len() as int) - 1
            &&& forall|i: int|
                0 <= i < args.len() ==> {
                    let at = #[trigger] offset(args, 1, i);
                    &&& 0 <= at && at + args[i].len() <= code.len()
                    &&& code.subrange(at, at + args[i].len()) == args[i]
                    &&& i > 0 ==> at > 0 && code[at - 1] == ' '
                }
        },
{
    reveal_strlit(" ");
    assert(" "@ == seq![' ']);
    let code = joined(args, " "@);
    law_joined_texts_stand_in_their_places(args, " "@);
    assert forall|i: int| 0 < i < args.len() implies {
        let at = #[trigger] offset(args, 1, i);
        at > 0 && code[at - 1] == ' '
    } by {
        let at = offset(args, 1, i);
        assert(code.subrange(at - 1, at)[0] == code[at - 1]);
    }
    let i = choose|i: int| 0 <= i < args.len() && !is_blank(#[trigger] args[i]);
    let k = choose|k: int| 0 <= k < args[i].len() && !is_space(#[trigger] args[i][k]);
    let at = offset(args, 1, i);
    assert(code.subrange(at, at + args[i].len())[k] == code[at + k]);
    let (a, b) = law_a_text_is_whitespace_around_the_rest(code);
    if trimmed(code).len() == 0 {
        if at + k < a.len() {
            assert(is_space(a[at + k]));
        } else {
            assert(is_space(b[at + k - a.len()]));
        }
    }
}

/// Where the arguments are all blank, or there are none, the program tells the
/// version of PHP.
pub proof fn law_blank_arguments_ask_for_the_version(args: Seq<Seq<char>>)
    requires
        forall|i: int| 0 <= i < args.len() ==> is_blank(#[trigger] args[i]),
    ensures
        command_of(args) == (CommandView::Eval {
            code: "echo 'PHP embedded in Rust via php8embed.lib: '.PHP_VERSION.PHP_EOL;"@,
        }),
{
    reveal_strlit(" ");
    reveal_strlit("serve");
    assert(" "@ == seq![' ']);
    if args.len() > 0 {
        assert(is_blank(args[0]));
        if args[0] == "serve"@ {
            assert(is_space(args[0][0]));
        }
    }
    let code = joined(args, " "@);
    lemma_separated_blanks(args);
    assert(is_blank(code)) by {
        if args.len() > 0 {
            let all = separated(args, " "@);
            assert(all == seq![' '] + code);
            assert forall|k: int| 0 <= k < code.len() implies is_space(#[trigger] code[k]) by {
                assert(is_space(all[k + 1]));
            }
        }
    }
    let none = Seq::<char>::empty();
    law_trimming_takes_off_whitespace(code, none, none);
    assert(code + none + none == code);
}

/// The program serves where the first argument is `serve`, whatever the others
/// are, and in no other case.
pub proof fn law_serve_asks_for_serving(args: Seq<Seq<char>>)
    ensures
        command_of(args) is Serve <==> args.len() > 0 && args[0] == "serve"@,
{
}

/// Each setting that is given is used as it is. Without a root the application
/// stands in the current directory, without that in `.`; the address is
/// 127.0.0.1 and 8787 where nothing else is said. What is served is `logs` below
/// the root.
pub proof fn law_settings_are_used_as_they_are(
    rules: PathRules,
    root: Option<String>,
    current: Option<String>,
    host: Option<String>,
    port: Option<String>,
)
    ensures
        ({
            let server = server_of(rules, root, current, host, port);
            &&& server.rules == rules
            &&& root matches Some(r) ==> server.laravel_root == r@
            &&& root is None ==> (current matches Some(c) ==> server.laravel_root == c@)
            &&& root is None && current is None ==> server.laravel_root == "."@
            &&& host matches Some(h) ==> server.host == h@
            &&& host is None ==> server.host == "127.0.0.1"@
            &&& port matches Some(p) ==> server.port == p@
            &&& port is None ==> server.port == "8787"@
            &&& server.public_root == joined_path(rules, server.laravel_root, "logs"@)
            &&& address_of(server) == server.host + ":"@ + server.port
        }),
{
}

/// By the rules of Unix what is served is behind one slash below the root.
pub proof fn law_logs_are_served(
    root: Option<String>,
    current: Option<String>,
    host: Option<String>,
    port: Option<String>,
)
    ensures
        ({
            let server = server_of(PathRules::Unix, root, current, host, port);
            let base = server.laravel_root;
            if base.len() == 0 || base.last() == '/' {
                server.public_root == base + "logs"@
            } else {
                server.public_root == base + "/logs"@
            }
        }),
{
    reveal_strlit("logs");
    reveal_strlit("/logs");
    let base = server_of(PathRules::Unix, root, current, host, port).laravel_root;
    law_unix_paths_are_joined_by_one_slash(base, "logs"@);
    assert("/logs"@ == seq!['/'] + "logs"@);
    assert(base + seq!['/'] + "logs"@ == base + "/logs"@);
}

/// Settings and commands are seen whole.
pub proof fn law_settings_are_seen_whole(server: Server, code: String)
    ensures
        server@.rules == server.rules,
        server@.laravel_root == server.laravel_root@,
        server@.public_root == server.public_root@,
        server@.host == server.host@,
        server@.port == server.port@,
        (Command::Eval { code })@ == (CommandView::Eval { code: code@ }),
        Command::Serve@ == CommandView::Serve,
{
}

} // verus!
