//! The PHP program that answers one request.
use vstd::prelude::*;

use crate::path::join_path;
use crate::path::joined_path;
use crate::path::law_unix_paths_are_joined_by_one_slash;
use crate::path::PathRules;
use crate::php::closing_quote;
use crate::php::law_literal_is_closed;
use crate::php::php_quoted;
use crate::php::php_string;
use crate::request_id::law_id_is_plain;
use crate::request_id::request_id;

verus! {

/// The program up to the path that the response is left at.
pub const UP_TO_OUTPUT_PATH: &'static str = r#"
$__rustenphp_output_path = "#;

/// The program up to the path of the error log.
pub const UP_TO_LOG_PATH: &'static str = r#";
error_reporting(E_ERROR);
ini_set('display_errors', '1');
date_default_timezone_set('Asia/Shanghai');

function rustenphp_error($v, $action = 'error', $_level = 0) {
    $__rustenphp_log_path = "#;

/// The program up to the method.
pub const UP_TO_METHOD: &'static str = r#";
    if ($action === 'warn' || $action === 'error' || $action === 'fault' ||
            $action === 'debug' || $action === 'info' || $action === 'log')  {
        $now = microtime(true);
        $action = $action === 'log' ? 'INFO' : strtoupper($action);
        $_M = ['DEBUG' => 10, 'INFO' => 20, 'WARN' => 30, 'ERROR' => 40, 'FAULT' => 50];
        if (!empty($_M[$action]) && $_M[$action] >= $_level) {
            $_ms = intval(($now - intval($now)) * 1000);
            $_ms = $_ms >= 100 ? $_ms : ($_ms >= 10 ? "0$_ms" : "00$_ms");
            $_msg = date('[Y-m-d H:i:s', $now) . ".$_ms] `$action` $v\n";
            error_log($_msg, 3, $__rustenphp_log_path);
        }
    }
};

function _get($n, $d, $t='') {
    $v = isset($_GET[$n]) ? $_GET[$n] : $d;
    $v = $t == 'intval' ? intval($v) : $v;
    $v = $t == 'floatval' ? floatval($v) : $v;
    return $v;
}

/** @noinspection PhpUnusedLocalVariableInspection */
$_t = microtime(true);
/** @noinspection PhpUnusedLocalVariableInspection */
$_ = function ($v, $action = '') {
    global $_t;
    if (empty($action)) {
        return $v;
    }
    if ($action === 'echo') {
        echo $v;
    } elseif ($action === 'done') {
        $now = microtime(true);
        $_ms = intval(($now - $_t) * 1000.0 * 100.0) / 100.0;
        $_ms = $_ms < 1000.0 ? "{$_ms} ms" : (intval($_ms / 1000.0 * 100.0) / 100.0) . " s";
        rustenphp_error("\n\n====================================\nDone {$v} Use: {$_ms}.\n====================================\n", 'info');
        $_t = $now;
        return $_ms;
    } elseif ($action === 'log' || $action === 'debug' || $action === 'info' ||
        $action === 'warn' || $action === 'error' || $action === 'fault') {
        rustenphp_error($v, $action);
    }
    return $v;
};

register_shutdown_function(function () use ($__rustenphp_output_path) {
    $error = error_get_last();
    if ($error && !file_exists($__rustenphp_output_path)) {
        $_msg = "PHP fatal error: ".$error['message']." in ".$error['file'].":".$error['line'];
        file_put_contents($__rustenphp_output_path, $_msg);
        rustenphp_error($_msg);
    }
});

try {
    // 1. Setup the standard request superglobals for this specific turn
    $_SERVER['REQUEST_METHOD'] = "#;

/// The program up to the target.
pub const UP_TO_TARGET: &'static str = r#";
    $_SERVER['REQUEST_URI'] = "#;

/// The program up to the id of the request.
pub const UP_TO_REQUEST_ID: &'static str = r#";
    $_SERVER['REQUEST_ID'] = '"#;

/// The program up to the query string.
pub const UP_TO_QUERY: &'static str = r#"';
    $_SERVER['QUERY_STRING'] = "#;

/// The program up to the path of the script.
pub const UP_TO_SCRIPT_FILENAME: &'static str = r#";
    $_SERVER['SCRIPT_FILENAME'] = "#;

/// The program up to the document root.
pub const UP_TO_DOCUMENT_ROOT: &'static str = r#";
    $_SERVER['SCRIPT_NAME'] = '/index.php';
    $_SERVER['PHP_SELF'] = '/index.php';
    $_SERVER['DOCUMENT_ROOT'] = "#;

/// The program up to the host.
pub const UP_TO_HOST: &'static str = r#";
    $_SERVER['SERVER_NAME'] = "#;

/// The program up to the port.
pub const UP_TO_PORT: &'static str = r#";
    $_SERVER['SERVER_PORT'] = "#;

/// The program up to the host and port together.
pub const UP_TO_HTTP_HOST: &'static str = r#";
    $_SERVER['SERVER_PROTOCOL'] = 'HTTP/1.1';
    $_SERVER['HTTP_HOST'] = "#;

/// The program up to the query string that is parsed.
pub const UP_TO_PARSED_QUERY: &'static str = r#";
    $_SERVER['HTTPS'] = 'off';
    
    $_GET = [];
    parse_str("#;

/// The program up to the root of the application, in a comment.
pub const UP_TO_AUTOLOAD: &'static str = r#", $_GET);
    $_POST = [];
    $_REQUEST = $_GET;

    // 2. Clear out any previous output buffers left over
    while (ob_get_level() > 0) {
        ob_end_clean();
    }
    ob_start();

    // 3. Define LARAVEL_START conditionally if it doesn't exist in our global runtime yet
    if (!defined('LARAVEL_START')) {
        define('LARAVEL_START', microtime(true));
    }

    // 4. Use require_once for Composer's autoloader so it doesn't re-register functions
    // require_once "#;

/// The program up to the directory of the script that is run.
pub const UP_TO_INDEX: &'static str = r#" . '/vendor/autoload.php';
    require_once "#;

/// The program up to the root of the application, in a comment.
pub const UP_TO_BOOTSTRAP: &'static str = r#" . '/index.php';

    // 5. Boot or resolve the Kernel application instance
    // We check if we already booted the app in a previous request to keep it ultra-fast

    /* global $__rustenphp_app, $__rustenphp_kernel;
    if (!$__rustenphp_app) {
        $__rustenphp_app = require_once "#;

/// The program after the last of its inputs.
pub const TO_THE_END: &'static str = r#" . '/bootstrap/app.php';
        $__rustenphp_kernel = $__rustenphp_app->make(Illuminate\Contracts\Http\Kernel::class);
    }

    // 6. Handle the incoming request through the persistent kernel
    $__rustenphp_request = Illuminate\Http\Request::capture();
    $__rustenphp_response = $__rustenphp_kernel->handle($__rustenphp_request);
    $__rustenphp_response->send();
    $__rustenphp_kernel->terminate($__rustenphp_request, $__rustenphp_response); */

    $__rustenphp_body = ob_get_clean();
    file_put_contents($__rustenphp_output_path, $__rustenphp_body);

} catch (Throwable $exception) {
    while (ob_get_level() > 0) {
        ob_end_clean();
    }
    $_msg = "PHP throwable: ".$exception::class.": ".$exception->getMessage()." in ".$exception->getFile().":".$exception->getLine();
    file_put_contents($__rustenphp_output_path, $_msg);
    rustenphp_error($_msg);
}
"#;

/// What is put into the program: a value as a literal, or a text as it is.
pub ghost enum Filling {
    Literal { value: Seq<char> },
    Plain { text: Seq<char> },
}

/// A place of the program where something is put, and the program from the last
/// such place up to it.
pub ghost struct Slot {
    pub lead: Seq<char>,
    pub filling: Filling,
}

/// What is put into the program, as it stands there.
pub open spec fn filling_text(filling: Filling) -> Seq<char> {
    match filling {
        Filling::Literal { value } => php_quoted(value),
        Filling::Plain { text } => text,
    }
}

/// The program up to the last of some slots, all of them filled.
pub open spec fn filled(slots: Seq<Slot>) -> Seq<char>
    decreases slots.len(),
{
    if slots.len() == 0 {
        Seq::empty()
    } else {
        filled(slots.drop_last()) + slots.last().lead + filling_text(slots.last().filling)
    }
}

/// A slot for a literal.
pub open spec fn literal(lead: Seq<char>, value: Seq<char>) -> Slot {
    Slot { lead, filling: Filling::Literal { value } }
}

/// A slot for a text as it is.
pub open spec fn plain(lead: Seq<char>, text: Seq<char>) -> Slot {
    Slot { lead, filling: Filling::Plain { text } }
}

/// Where PHP leaves the response to a request.
pub open spec fn output_path(
    rules: PathRules,
    public_root: Seq<char>,
    request_id: Seq<char>,
) -> Seq<char> {
    joined_path(rules, joined_path(rules, public_root, "tmp"@), request_id)
}

/// The slots of the program that answers a request. All that comes from outside
/// is written in it as a literal, but for the id of the request, which stands
/// between two quotes as it is. Both literals of the root of the application
/// stand in comments, where PHP reads no literals.
pub open spec fn script_slots(
    rules: PathRules,
    laravel_root: Seq<char>,
    public_root: Seq<char>,
    request_id: Seq<char>,
    method: Seq<char>,
    target: Seq<char>,
    query: Seq<char>,
    host: Seq<char>,
    port: Seq<char>,
) -> Seq<Slot> {
    seq![
        literal(UP_TO_OUTPUT_PATH@, output_path(rules, public_root, request_id)),
        literal(UP_TO_LOG_PATH@, joined_path(rules, public_root, "rustenphp-error.log"@)),
        literal(UP_TO_METHOD@, method),
        literal(UP_TO_TARGET@, target),
        plain(UP_TO_REQUEST_ID@, request_id),
        literal(UP_TO_QUERY@, query),
        literal(UP_TO_SCRIPT_FILENAME@, joined_path(rules, public_root, "index.php"@)),
        literal(UP_TO_DOCUMENT_ROOT@, public_root),
        literal(UP_TO_HOST@, host),
        literal(UP_TO_PORT@, port),
        literal(UP_TO_HTTP_HOST@, host + ":"@ + port),
        literal(UP_TO_PARSED_QUERY@, query),
        literal(UP_TO_AUTOLOAD@, laravel_root),
        literal(UP_TO_INDEX@, public_root),
        literal(UP_TO_BOOTSTRAP@, laravel_root),
    ]
}

/// The program that answers a request.
pub open spec fn laravel_script(
    rules: PathRules,
    laravel_root: Seq<char>,
    public_root: Seq<char>,
    request_id: Seq<char>,
    method: Seq<char>,
    target: Seq<char>,
    query: Seq<char>,
    host: Seq<char>,
    port: Seq<char>,
) -> Seq<char> {
    filled(
        script_slots(
            rules,
            laravel_root,
            public_root,
            request_id,
            method,
            target,
            query,
            host,
            port,
        ),
    ) + TO_THE_END@
}

/// What the PHP engine is asked to do: a program to run, and where it leaves its
/// response.
pub struct PhpWorkJob {
    pub php_code: String,
    pub output_path: String,
}

/// A slot as it is filled.
struct Piece {
    lead: &'static str,
    text: String,
}

/// Fills slots, one after another.
fn fill(pieces: &Vec<Piece>, Ghost(slots): Ghost<Seq<Slot>>) -> (program: String)
    requires
        pieces@.len() == slots.len(),
        forall|i: int|
            0 <= i < slots.len() ==> (#[trigger] pieces@[i]).lead@ == slots[i].lead
                && pieces@[i].text@ == filling_text(slots[i].filling),
    ensures
        program@ == filled(slots),
{
    let mut program = String::new();
    for i in 0..pieces.len()
        invariant
            pieces@.len() == slots.len(),
            forall|i: int|
                0 <= i < slots.len() ==> (#[trigger] pieces@[i]).lead@ == slots[i].lead
                    && pieces@[i].text@ == filling_text(slots[i].filling),
            program@ == filled(slots.take(i as int)),
    {
        assert(slots.take(i + 1).drop_last() == slots.take(i as int));
        program.append(pieces[i].lead);
        program.append(pieces[i].text.as_str());
    }
    assert(slots.take(slots.len() as int) == slots);
    program
}

/// Puts together the job that answers a request.
pub fn run_laravel_request(
    rules: PathRules,
    laravel_root: &str,
    public_root: &str,
    request_id: &str,
    method: &str,
    target: &str,
    query: &str,
    host: &str,
    port: &str,
) -> (job: PhpWorkJob)
    ensures
        job.output_path@ == output_path(rules, public_root@, request_id@),
        job.php_code@ == laravel_script(
            rules,
            laravel_root@,
            public_root@,
            request_id@,
            method@,
            target@,
            query@,
            host@,
            port@,
        ),
{
    let output_path = join_path(rules, join_path(rules, public_root, "tmp").as_str(), request_id);
    let log_path = join_path(rules, public_root, "rustenphp-error.log");
    let index_path = join_path(rules, public_root, "index.php");
    let address = host.to_owned().concat(":").concat(port);
    let pieces: Vec<Piece> = vec![
        Piece { lead: UP_TO_OUTPUT_PATH, text: php_string(output_path.as_str()) },
        Piece { lead: UP_TO_LOG_PATH, text: php_string(log_path.as_str()) },
        Piece { lead: UP_TO_METHOD, text: php_string(method) },
        Piece { lead: UP_TO_TARGET, text: php_string(target) },
        Piece { lead: UP_TO_REQUEST_ID, text: request_id.to_owned() },
        Piece { lead: UP_TO_QUERY, text: php_string(query) },
        Piece { lead: UP_TO_SCRIPT_FILENAME, text: php_string(index_path.as_str()) },
        Piece { lead: UP_TO_DOCUMENT_ROOT, text: php_string(public_root) },
        Piece { lead: UP_TO_HOST, text: php_string(host) },
        Piece { lead: UP_TO_PORT, text: php_string(port) },
        Piece { lead: UP_TO_HTTP_HOST, text: php_string(address.as_str()) },
        Piece { lead: UP_TO_PARSED_QUERY, text: php_string(query) },
        Piece { lead: UP_TO_AUTOLOAD, text: php_string(laravel_root) },
        Piece { lead: UP_TO_INDEX, text: php_string(public_root) },
        Piece { lead: UP_TO_BOOTSTRAP, text: php_string(laravel_root) },
    ];
    let ghost slots = script_slots(
        rules,
        laravel_root@,
        public_root@,
        request_id@,
        method@,
        target@,
        query@,
        host@,
        port@,
    );
    let mut php_code = fill(&pieces, Ghost(slots));
    php_code.append(TO_THE_END);
    PhpWorkJob { php_code, output_path }
}

/// Whether the literal for a value stands in a program at `at`, right after a
/// given text, and read as a literal it ends where it was meant to end.
pub open spec fn literal_at(
    program: Seq<char>,
    lead: Seq<char>,
    at: int,
    value: Seq<char>,
) -> bool {
    let literal = php_quoted(value);
    &&& lead.len() <= at && at + literal.len() <= program.len()
    &&& program.subrange(at - lead.len(), at) == lead
    &&& program.subrange(at, at + literal.len()) == literal
    &&& closing_quote(program, at + 1) == at + literal.len() - 1
}

/// What follows a slot in the filled slots.
proof fn lemma_filled_splits(slots: Seq<Slot>, i: int) -> (rest: Seq<char>)
    requires
        0 <= i < slots.len(),
    ensures
        filled(slots) == filled(slots.take(i)) + slots[i].lead + filling_text(slots[i].filling)
            + rest,
        i + 1 < slots.len() ==> slots[i + 1].lead.len() <= rest.len() && rest.take(
            slots[i + 1].lead.len() as int,
        ) == slots[i + 1].lead,
    decreases slots.len(),
{
    let last = slots.last();
    if i + 1 == slots.len() {
        let rest = Seq::<char>::empty();
        assert(slots.take(i) == slots.drop_last());
        assert(filled(slots) == filled(slots.take(i)) + slots[i].lead + filling_text(
            slots[i].filling,
        ) + rest);
        rest
    } else {
        let earlier = slots.drop_last();
        let inner = lemma_filled_splits(earlier, i);
        assert(earlier.take(i) == slots.take(i));
        let rest = inner + last.lead + filling_text(last.filling);
        assert(filled(slots) == filled(slots.take(i)) + slots[i].lead + filling_text(
            slots[i].filling,
        ) + rest);
        if i + 2 == slots.len() {
            // Nothing stands between the last two slots.
            assert(slots.take(i) == earlier.drop_last());
            assert(filled(earlier) == filled(slots.take(i)) + slots[i].lead + filling_text(
                slots[i].filling,
            ));
            assert(inner.len() == 0);
            assert(rest.take(last.lead.len() as int) == last.lead);
        } else {
            assert(rest.take(slots[i + 1].lead.len() as int) == inner.take(
                slots[i + 1].lead.len() as int,
            ));
        }
        rest
    }
}

proof fn lemma_literal_between(
    front: Seq<char>,
    lead: Seq<char>,
    value: Seq<char>,
    rest: Seq<char>,
)
    ensures
        literal_at(
            front + lead + php_quoted(value) + rest,
            lead,
            (front.len() + lead.len()) as int,
            value,
        ),
{
    let before = front + lead;
    let program = before + php_quoted(value) + rest;
    let at = before.len() as int;
    law_literal_is_closed(before, value, rest);
    assert(program.subrange(front.len() as int, at) == lead);
    assert(program.subrange(at, at + php_quoted(value).len()) == php_quoted(value));
}

/// All that comes from outside is written in the program as literals that end
/// where they were meant to end, whatever it is: the paths, the method, the
/// target, the query wherever it is put, the host, the port and both together.
///
/// The two literals of the root of the application stand in comments. Of these
/// the law says where the text of the literal ends, not where the comment does:
/// PHP ends a comment at what ends it, be it between quotes, so that a root
/// which holds `?>` ends the first and one which holds `*/` ends the second.
pub proof fn law_values_stay_in_literals(
    rules: PathRules,
    laravel_root: Seq<char>,
    public_root: Seq<char>,
    request_id: Seq<char>,
    method: Seq<char>,
    target: Seq<char>,
    query: Seq<char>,
    host: Seq<char>,
    port: Seq<char>,
)
    ensures
        ({
            let program = laravel_script(
                rules,
                laravel_root,
                public_root,
                request_id,
                method,
                target,
                query,
                host,
                port,
            );
            &&& exists|at: int|
                literal_at(
                    program,
                    UP_TO_OUTPUT_PATH@,
                    at,
                    output_path(rules, public_root, request_id),
                )
            &&& exists|at: int|
                literal_at(
                    program,
                    UP_TO_LOG_PATH@,
                    at,
                    joined_path(rules, public_root, "rustenphp-error.log"@),
                )
            &&& exists|at: int| literal_at(program, UP_TO_METHOD@, at, method)
            &&& exists|at: int| literal_at(program, UP_TO_TARGET@, at, target)
            &&& exists|at: int| literal_at(program, UP_TO_QUERY@, at, query)
            &&& exists|at: int|
                literal_at(
                    program,
                    UP_TO_SCRIPT_FILENAME@,
                    at,
                    joined_path(rules, public_root, "index.php"@),
                )
            &&& exists|at: int| literal_at(program, UP_TO_DOCUMENT_ROOT@, at, public_root)
            &&& exists|at: int| literal_at(program, UP_TO_HOST@, at, host)
            &&& exists|at: int| literal_at(program, UP_TO_PORT@, at, port)
            &&& exists|at: int| literal_at(program, UP_TO_HTTP_HOST@, at, host + ":"@ + port)
            &&& exists|at: int| literal_at(program, UP_TO_PARSED_QUERY@, at, query)
            &&& exists|at: int| literal_at(program, UP_TO_AUTOLOAD@, at, laravel_root)
            &&& exists|at: int| literal_at(program, UP_TO_INDEX@, at, public_root)
            &&& exists|at: int| literal_at(program, UP_TO_BOOTSTRAP@, at, laravel_root)
        }),
{
    let slots = script_slots(
        rules,
        laravel_root,
        public_root,
        request_id,
        method,
        target,
        query,
        host,
        port,
    );
    let program = laravel_script(
        rules,
        laravel_root,
        public_root,
        request_id,
        method,
        target,
        query,
        host,
        port,
    );
    assert(program == filled(slots) + TO_THE_END@);
    assert forall|i: int| 0 <= i < slots.len() implies slot_holds(program, #[trigger] slots[i]) by {
        let slot = slots[i];
        if let Filling::Literal { value } = slot.filling {
            let front = filled(slots.take(i));
            let inner = lemma_filled_splits(slots, i);
            let rest = inner + TO_THE_END@;
            assert(program == front + slot.lead + php_quoted(value) + rest);
            lemma_literal_between(front, slot.lead, value, rest);
        }
    }
    assert(slots[0] == literal(UP_TO_OUTPUT_PATH@, output_path(rules, public_root, request_id)));
    assert(slots[1] == literal(
        UP_TO_LOG_PATH@,
        joined_path(rules, public_root, "rustenphp-error.log"@),
    ));
    assert(slots[2] == literal(UP_TO_METHOD@, method));
    assert(slots[3] == literal(UP_TO_TARGET@, target));
    assert(slots[5] == literal(UP_TO_QUERY@, query));
    assert(slots[6] == literal(
        UP_TO_SCRIPT_FILENAME@,
        joined_path(rules, public_root, "index.php"@),
    ));
    assert(slots[7] == literal(UP_TO_DOCUMENT_ROOT@, public_root));
    assert(slots[8] == literal(UP_TO_HOST@, host));
    assert(slots[9] == literal(UP_TO_PORT@, port));
    assert(slots[10] == literal(UP_TO_HTTP_HOST@, host + ":"@ + port));
    assert(slots[11] == literal(UP_TO_PARSED_QUERY@, query));
    assert(slots[12] == literal(UP_TO_AUTOLOAD@, laravel_root));
    assert(slots[13] == literal(UP_TO_INDEX@, public_root));
    assert(slots[14] == literal(UP_TO_BOOTSTRAP@, laravel_root));
}

/// Whether the literal of a slot stands in a program right after what leads up
/// to it, and ends where it was meant to end.
spec fn slot_holds(program: Seq<char>, slot: Slot) -> bool {
    match slot.filling {
        Filling::Literal { value } => exists|at: int| literal_at(program, slot.lead, at, value),
        Filling::Plain { text } => true,
    }
}

proof fn lemma_closing_quote_passes_plain(program: Seq<char>, i: int, j: int)
    requires
        0 <= i <= j < program.len(),
        forall|k: int| i <= k < j ==> program[k] != '\'' && program[k] != '\\',
        program[j] == '\'',
    ensures
        closing_quote(program, i) == j,
    decreases j - i,
{
    if i < j {
        lemma_closing_quote_passes_plain(program, i + 1, j);
    }
}

/// An id needs no escape: where it is put into the program it stands between two
/// quotes, and PHP sees it end where it was meant to end.
pub proof fn law_id_stays_in_its_literal(
    rules: PathRules,
    laravel_root: Seq<char>,
    public_root: Seq<char>,
    prefix: Seq<char>,
    count: nat,
    millis: nat,
    process: nat,
    method: Seq<char>,
    target: Seq<char>,
    query: Seq<char>,
    host: Seq<char>,
    port: Seq<char>,
)
    requires
        !prefix.contains('\''),
        !prefix.contains('\\'),
    ensures
        ({
            let id = request_id(prefix, count, millis, process);
            let program = laravel_script(
                rules,
                laravel_root,
                public_root,
                id,
                method,
                target,
                query,
                host,
                port,
            );
            exists|at: int|
                #![trigger closing_quote(program, at)]
                {
                    &&& UP_TO_REQUEST_ID@.len() <= at && at + id.len() < program.len()
                    &&& program.subrange(at - UP_TO_REQUEST_ID@.len(), at) == UP_TO_REQUEST_ID@
                    &&& program[at - 1] == '\''
                    &&& program.subrange(at, at + id.len()) == id
                    &&& closing_quote(program, at) == at + id.len()
                }
        }),
{
    let id = request_id(prefix, count, millis, process);
    law_id_is_plain(prefix, count, millis, process);
    let slots = script_slots(
        rules,
        laravel_root,
        public_root,
        id,
        method,
        target,
        query,
        host,
        port,
    );
    let front = filled(slots.take(4));
    let lead = UP_TO_REQUEST_ID@;
    let inner = lemma_filled_splits(slots, 4);
    let rest = inner + TO_THE_END@;
    let program = laravel_script(
        rules,
        laravel_root,
        public_root,
        id,
        method,
        target,
        query,
        host,
        port,
    );
    assert(program == front + lead + id + rest);
    reveal_strlit(r#";
    $_SERVER['REQUEST_ID'] = '"#);
    reveal_strlit(r#"';
    $_SERVER['QUERY_STRING'] = "#);
    assert(rest[0] == UP_TO_QUERY@[0]) by {
        assert(slots[5].lead == UP_TO_QUERY@);
        assert(rest[0] == rest.take(UP_TO_QUERY@.len() as int)[0]);
    }
    let at = (front.len() + lead.len()) as int;
    let j = at + id.len();
    assert(program[at - 1] == lead.last());
    assert(program[j] == rest[0]);
    assert(program.subrange(at - lead.len(), at) == lead);
    assert(program.subrange(at, j) == id);
    assert forall|k: int| at <= k < j implies program[k] != '\'' && program[k] != '\\' by {
        assert(program[k] == id[k - at]);
        if k - at < prefix.len() {
            assert(id.take(prefix.len() as int)[k - at] == prefix[k - at]);
            assert(prefix.contains(prefix[k - at]));
        }
    }
    lemma_closing_quote_passes_plain(program, at, j);
    assert(lead.last() == '\'');
    assert(program[at - 1] == '\'');
    assert(at + id.len() < program.len());
    assert(closing_quote(program, at) == at + id.len());
}

/// The program that answers a request is settled from its first character to its
/// last: nothing stands in it but its constant texts, in their order, and one
/// filling between each two. So each variable is set once, to the literal of what
/// it is meant to hold, and the id of the request stands by itself between its
/// quotes.
pub proof fn law_nothing_else_stands_in_the_program(
    rules: PathRules,
    laravel_root: Seq<char>,
    public_root: Seq<char>,
    request_id: Seq<char>,
    method: Seq<char>,
    target: Seq<char>,
    query: Seq<char>,
    host: Seq<char>,
    port: Seq<char>,
)
    ensures
        laravel_script(
            rules,
            laravel_root,
            public_root,
            request_id,
            method,
            target,
            query,
            host,
            port,
        ) == (
            UP_TO_OUTPUT_PATH@ + php_quoted(output_path(rules, public_root, request_id))
                + UP_TO_LOG_PATH@ + php_quoted(
                joined_path(rules, public_root, "rustenphp-error.log"@),
            )
                + UP_TO_METHOD@ + php_quoted(method)
                + UP_TO_TARGET@ + php_quoted(target)
                + UP_TO_REQUEST_ID@ + request_id
                + UP_TO_QUERY@ + php_quoted(query)
                + UP_TO_SCRIPT_FILENAME@ + php_quoted(joined_path(rules, public_root, "index.php"@))
                + UP_TO_DOCUMENT_ROOT@ + php_quoted(public_root)
                + UP_TO_HOST@ + php_quoted(host)
                + UP_TO_PORT@ + php_quoted(port)
                + UP_TO_HTTP_HOST@ + php_quoted(host + ":"@ + port)
                + UP_TO_PARSED_QUERY@ + php_quoted(query)
                + UP_TO_AUTOLOAD@ + php_quoted(laravel_root)
                + UP_TO_INDEX@ + php_quoted(public_root)
                + UP_TO_BOOTSTRAP@ + php_quoted(laravel_root)
                + TO_THE_END@),
{
    let slots = script_slots(
        rules,
        laravel_root,
        public_root,
        request_id,
        method,
        target,
        query,
        host,
        port,
    );
    assert(filled(slots.take(0)) == Seq::<char>::empty());
    assert(slots.take(1).drop_last() == slots.take(0));
    assert(slots.take(1).last() == slots[0]);
    let p1 = UP_TO_OUTPUT_PATH@ + php_quoted(output_path(rules, public_root, request_id));
    assert(filled(slots.take(1)) == p1);
    assert(slots.take(2).drop_last() == slots.take(1));
    assert(slots.take(2).last() == slots[1]);
    let p2 = p1 + UP_TO_LOG_PATH@ + php_quoted(
        joined_path(rules, public_root, "rustenphp-error.log"@),
    );
    assert(filled(slots.take(2)) == p2);
    assert(slots.take(3).drop_last() == slots.take(2));
    assert(slots.take(3).last() == slots[2]);
    let p3 = p2 + UP_TO_METHOD@ + php_quoted(method);
    assert(filled(slots.take(3)) == p3);
    assert(slots.take(4).drop_last() == slots.take(3));
    assert(slots.take(4).last() == slots[3]);
    let p4 = p3 + UP_TO_TARGET@ + php_quoted(target);
    assert(filled(slots.take(4)) == p4);
    assert(slots.take(5).drop_last() == slots.take(4));
    assert(slots.take(5).last() == slots[4]);
    let p5 = p4 + UP_TO_REQUEST_ID@ + request_id;
    assert(filled(slots.take(5)) == p5);
    assert(slots.take(6).drop_last() == slots.take(5));
    assert(slots.take(6).last() == slots[5]);
    let p6 = p5 + UP_TO_QUERY@ + php_quoted(query);
    assert(filled(slots.take(6)) == p6);
    assert(slots.take(7).drop_last() == slots.take(6));
    assert(slots.take(7).last() == slots[6]);
    let p7 = p6 + UP_TO_SCRIPT_FILENAME@ + php_quoted(
        joined_path(rules, public_root, "index.php"@),
    );
    assert(filled(slots.take(7)) == p7);
    assert(slots.take(8).drop_last() == slots.take(7));
    assert(slots.take(8).last() == slots[7]);
    let p8 = p7 + UP_TO_DOCUMENT_ROOT@ + php_quoted(public_root);
    assert(filled(slots.take(8)) == p8);
    assert(slots.take(9).drop_last() == slots.take(8));
    assert(slots.take(9).last() == slots[8]);
    let p9 = p8 + UP_TO_HOST@ + php_quoted(host);
    assert(filled(slots.take(9)) == p9);
    assert(slots.take(10).drop_last() == slots.take(9));
    assert(slots.take(10).last() == slots[9]);
    let p10 = p9 + UP_TO_PORT@ + php_quoted(port);
    assert(filled(slots.take(10)) == p10);
    assert(slots.take(11).drop_last() == slots.take(10));
    assert(slots.take(11).last() == slots[10]);
    let p11 = p10 + UP_TO_HTTP_HOST@ + php_quoted(host + ":"@ + port);
    assert(filled(slots.take(11)) == p11);
    assert(slots.take(12).drop_last() == slots.take(11));
    assert(slots.take(12).last() == slots[11]);
    let p12 = p11 + UP_TO_PARSED_QUERY@ + php_quoted(query);
    assert(filled(slots.take(12)) == p12);
    assert(slots.take(13).drop_last() == slots.take(12));
    assert(slots.take(13).last() == slots[12]);
    let p13 = p12 + UP_TO_AUTOLOAD@ + php_quoted(laravel_root);
    assert(filled(slots.take(13)) == p13);
    assert(slots.take(14).drop_last() == slots.take(13));
    assert(slots.take(14).last() == slots[13]);
    let p14 = p13 + UP_TO_INDEX@ + php_quoted(public_root);
    assert(filled(slots.take(14)) == p14);
    assert(slots.take(15).drop_last() == slots.take(14));
    assert(slots.take(15).last() == slots[14]);
    let p15 = p14 + UP_TO_BOOTSTRAP@ + php_quoted(laravel_root);
    assert(filled(slots.take(15)) == p15);
    assert(slots.take(15) == slots);
}

proof fn lemma_filled_joins(a: Seq<Slot>, b: Seq<Slot>)
    ensures
        filled(a + b) == filled(a) + filled(b),
    decreases b.len(),
{
    if b.len() == 0 {
        assert(a + b == a);
    } else {
        assert((a + b).drop_last() == a + b.drop_last());
        lemma_filled_joins(a, b.drop_last());
        assert(filled(a + b) == filled(a) + filled(b));
    }
}

proof fn lemma_filled_starts(slots: Seq<Slot>)
    requires
        slots.len() > 0,
    ensures
        filled(slots) == slots[0].lead + filling_text(slots[0].filling) + filled(slots.skip(1)),
{
    lemma_filled_around(slots, 0);
    assert(filled(slots.take(0)) == Seq::<char>::empty());
}

proof fn lemma_filled_around(slots: Seq<Slot>, i: int)
    requires
        0 <= i < slots.len(),
    ensures
        filled(slots) == filled(slots.take(i)) + slots[i].lead + filling_text(slots[i].filling)
            + filled(slots.skip(i + 1)),
{
    assert(slots == slots.take(i + 1) + slots.skip(i + 1));
    lemma_filled_joins(slots.take(i + 1), slots.skip(i + 1));
    assert(slots.take(i + 1).drop_last() == slots.take(i));
}

/// Of two requests that differ in nothing but the target, the programs differ in
/// nothing but the one literal that stands for it.
pub proof fn law_the_target_stands_in_one_place(
    rules: PathRules,
    laravel_root: Seq<char>,
    public_root: Seq<char>,
    request_id: Seq<char>,
    method: Seq<char>,
    target: Seq<char>,
    query: Seq<char>,
    host: Seq<char>,
    port: Seq<char>,
    other: Seq<char>,
)
    ensures
        exists|front: Seq<char>, back: Seq<char>|
            {
                &&& #[trigger] (front + php_quoted(target) + back) == laravel_script(
                    rules,
                    laravel_root,
                    public_root,
                    request_id,
                    method,
                    target,
                    query,
                    host,
                    port,
                )
                &&& front + php_quoted(other) + back == laravel_script(
                    rules,
                    laravel_root,
                    public_root,
                    request_id,
                    method,
                    other,
                    query,
                    host,
                    port,
                )
                &&& UP_TO_TARGET@.is_suffix_of(front)
                &&& UP_TO_REQUEST_ID@.is_prefix_of(back)
            },
{
    let slots = script_slots(
        rules,
        laravel_root,
        public_root,
        request_id,
        method,
        target,
        query,
        host,
        port,
    );
    let others = script_slots(
        rules,
        laravel_root,
        public_root,
        request_id,
        method,
        other,
        query,
        host,
        port,
    );
    lemma_filled_around(slots, 3);
    lemma_filled_around(others, 3);
    assert(slots.take(3) == others.take(3));
    assert(slots.skip(4) == others.skip(4));
    lemma_filled_starts(slots.skip(4));
    let front = filled(slots.take(3)) + slots[3].lead;
    let back = filled(slots.skip(4)) + TO_THE_END@;
    assert(slots[3].lead == front.subrange(
        front.len() - slots[3].lead.len(),
        front.len() as int,
    ));
    assert(slots.skip(4)[0].lead == back.take(slots.skip(4)[0].lead.len() as int));
    assert(front + php_quoted(target) + back == laravel_script(
        rules,
        laravel_root,
        public_root,
        request_id,
        method,
        target,
        query,
        host,
        port,
    ));
    assert(front + php_quoted(other) + back == laravel_script(
        rules,
        laravel_root,
        public_root,
        request_id,
        method,
        other,
        query,
        host,
        port,
    ));
}

/// Of two requests that differ in nothing but the method, the programs differ in
/// nothing but the one literal that stands for it.
pub proof fn law_the_method_stands_in_one_place(
    rules: PathRules,
    laravel_root: Seq<char>,
    public_root: Seq<char>,
    request_id: Seq<char>,
    method: Seq<char>,
    target: Seq<char>,
    query: Seq<char>,
    host: Seq<char>,
    port: Seq<char>,
    other: Seq<char>,
)
    ensures
        exists|front: Seq<char>, back: Seq<char>|
            {
                &&& #[trigger] (front + php_quoted(method) + back) == laravel_script(
                    rules,
                    laravel_root,
                    public_root,
                    request_id,
                    method,
                    target,
                    query,
                    host,
                    port,
                )
                &&& front + php_quoted(other) + back == laravel_script(
                    rules,
                    laravel_root,
                    public_root,
                    request_id,
                    other,
                    target,
                    query,
                    host,
                    port,
                )
                &&& UP_TO_METHOD@.is_suffix_of(front)
                &&& UP_TO_TARGET@.is_prefix_of(back)
            },
{
    let slots = script_slots(
        rules,
        laravel_root,
        public_root,
        request_id,
        method,
        target,
        query,
        host,
        port,
    );
    let others = script_slots(
        rules,
        laravel_root,
        public_root,
        request_id,
        other,
        target,
        query,
        host,
        port,
    );
    lemma_filled_around(slots, 2);
    lemma_filled_around(others, 2);
    assert(slots.take(2) == others.take(2));
    assert(slots.skip(3) == others.skip(3));
    lemma_filled_starts(slots.skip(3));
    let front = filled(slots.take(2)) + slots[2].lead;
    let back = filled(slots.skip(3)) + TO_THE_END@;
    assert(slots[2].lead == front.subrange(
        front.len() - slots[2].lead.len(),
        front.len() as int,
    ));
    assert(slots.skip(3)[0].lead == back.take(slots.skip(3)[0].lead.len() as int));
    assert(front + php_quoted(method) + back == laravel_script(
        rules,
        laravel_root,
        public_root,
        request_id,
        method,
        target,
        query,
        host,
        port,
    ));
    assert(front + php_quoted(other) + back == laravel_script(
        rules,
        laravel_root,
        public_root,
        request_id,
        other,
        target,
        query,
        host,
        port,
    ));
}

proof fn lemma_filled_around_two(slots: Seq<Slot>, i: int, j: int)
    requires
        0 <= i < j < slots.len(),
    ensures
        filled(slots) == (filled(slots.take(i)) + slots[i].lead) + filling_text(slots[i].filling)
            + (filled(slots.subrange(i + 1, j)) + slots[j].lead) + filling_text(slots[j].filling)
            + filled(slots.skip(j + 1)),
{
    let later = slots.skip(i + 1);
    let k = j - i - 1;
    lemma_filled_around(slots, i);
    lemma_filled_around(later, k);
    assert(later.take(k) == slots.subrange(i + 1, j));
    assert(later.skip(k + 1) == slots.skip(j + 1));
    assert(later[k] == slots[j]);
}

proof fn lemma_ends_with(front: Seq<char>, lead: Seq<char>)
    ensures
        lead.is_suffix_of(front + lead),
{
    let whole = front + lead;
    assert(lead == whole.subrange(whole.len() - lead.len(), whole.len() as int));
}

proof fn lemma_starts_with_lead(slots: Seq<Slot>, back: Seq<char>)
    requires
        slots.len() > 0,
    ensures
        slots[0].lead.is_prefix_of(filled(slots) + back),
{
    lemma_filled_starts(slots);
    let lead = slots[0].lead;
    assert(lead == (filled(slots) + back).take(lead.len() as int));
}

/// Of two requests that differ in nothing but the query, the programs differ in
/// nothing but the two literals that stand for it: the one that is kept and the
/// one that is parsed.
pub proof fn law_the_query_stands_in_two_places(
    rules: PathRules,
    laravel_root: Seq<char>,
    public_root: Seq<char>,
    request_id: Seq<char>,
    method: Seq<char>,
    target: Seq<char>,
    query: Seq<char>,
    host: Seq<char>,
    port: Seq<char>,
    other: Seq<char>,
)
    ensures
        exists|front: Seq<char>, middle: Seq<char>, back: Seq<char>|
            {
                &&& #[trigger] (front + php_quoted(query) + middle + php_quoted(query) + back)
                    == laravel_script(
                        rules,
                        laravel_root,
                        public_root,
                        request_id,
                        method,
                        target,
                        query,
                        host,
                        port,
                    )
                &&& front + php_quoted(other) + middle + php_quoted(other) + back
                    == laravel_script(
                        rules,
                        laravel_root,
                        public_root,
                        request_id,
                        method,
                        target,
                        other,
                        host,
                        port,
                    )
                &&& UP_TO_QUERY@.is_suffix_of(front)
                &&& UP_TO_SCRIPT_FILENAME@.is_prefix_of(middle)
                &&& UP_TO_PARSED_QUERY@.is_suffix_of(middle)
                &&& UP_TO_AUTOLOAD@.is_prefix_of(back)
            },
{
    let slots = script_slots(
        rules,
        laravel_root,
        public_root,
        request_id,
        method,
        target,
        query,
        host,
        port,
    );
    let others = script_slots(
        rules,
        laravel_root,
        public_root,
        request_id,
        method,
        target,
        other,
        host,
        port,
    );
    lemma_filled_around_two(slots, 5, 11);
    lemma_filled_around_two(others, 5, 11);
    assert(slots.take(5) == others.take(5));
    assert(slots.subrange(6, 11) == others.subrange(6, 11));
    assert(slots.skip(12) == others.skip(12));
    let front = filled(slots.take(5)) + UP_TO_QUERY@;
    let middle = filled(slots.subrange(6, 11)) + UP_TO_PARSED_QUERY@;
    let back = filled(slots.skip(12)) + TO_THE_END@;
    lemma_ends_with(filled(slots.take(5)), UP_TO_QUERY@);
    lemma_ends_with(filled(slots.subrange(6, 11)), UP_TO_PARSED_QUERY@);
    lemma_starts_with_lead(slots.subrange(6, 11), UP_TO_PARSED_QUERY@);
    lemma_starts_with_lead(slots.skip(12), TO_THE_END@);
    assert(slots.subrange(6, 11)[0] == slots[6]);
    assert(slots.skip(12)[0] == slots[12]);
    assert(front + php_quoted(query) + middle + php_quoted(query) + back == laravel_script(
        rules,
        laravel_root,
        public_root,
        request_id,
        method,
        target,
        query,
        host,
        port,
    ));
    assert(front + php_quoted(other) + middle + php_quoted(other) + back == laravel_script(
        rules,
        laravel_root,
        public_root,
        request_id,
        method,
        target,
        other,
        host,
        port,
    ));
}

/// By the rules of Unix PHP leaves its response in `tmp` below the public root,
/// under the id of the request.
pub proof fn law_where_php_leaves_its_response(public_root: Seq<char>, request_id: Seq<char>)
    requires
        request_id.len() > 0 && request_id[0] != '/',
    ensures
        output_path(PathRules::Unix, public_root, request_id) == if public_root.len() == 0
            || public_root.last() == '/' {
            public_root + "tmp/"@ + request_id
        } else {
            public_root + "/tmp/"@ + request_id
        },
{
    reveal_strlit("tmp");
    reveal_strlit("tmp/");
    reveal_strlit("/tmp/");
    let base = joined_path(PathRules::Unix, public_root, "tmp"@);
    law_unix_paths_are_joined_by_one_slash(public_root, "tmp"@);
    law_unix_paths_are_joined_by_one_slash(base, request_id);
    assert("tmp/"@ == "tmp"@ + seq!['/']);
    assert("/tmp/"@ == seq!['/'] + "tmp"@ + seq!['/']);
    assert(base.last() == "tmp"@.last());
    assert(public_root + "tmp"@ + seq!['/'] + request_id == public_root + "tmp/"@ + request_id);
    assert(public_root + seq!['/'] + "tmp"@ + seq!['/'] + request_id == public_root + "/tmp/"@
        + request_id);
}

} // verus!
