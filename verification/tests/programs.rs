use rustenphp::link::{link_directive, link_directives, short_version, RERUN_LINE};
use rustenphp::path::PathRules;
use rustenphp::php::php_string;
use rustenphp::request_id::rustenphp_request_id;
use rustenphp::runtime::{boot_outcome, code_bytes, eval_outcome};
use rustenphp::script::run_laravel_request;
use rustenphp::server::{parse_command, Command, Server};

#[test]
fn a_value_is_quoted() {
    assert_eq!(php_string("plain"), "'plain'");
    assert_eq!(php_string(""), "''");
    assert_eq!(php_string("a'b"), "'a\\'b'");
    assert_eq!(php_string("a\\b"), "'a\\\\b'");
    assert_eq!(php_string("a\r\nb"), "'a\\r\\nb'");
    assert_eq!(php_string("\\'"), "'\\\\\\''");
    assert_eq!(php_string("\\n"), "'\\\\n'");
}

#[test]
fn quoting_agrees_with_replacing_one_after_another() {
    for value in ["", "\\\\'", "\\r\r\\\r", "'\n'", "caf\u{e9}\u{0}", "\\'\n\r\\n"] {
        let escaped = value
            .replace('\\', "\\\\")
            .replace('\'', "\\'")
            .replace('\r', "\\r")
            .replace('\n', "\\n");
        assert_eq!(php_string(value), format!("'{escaped}'"));
    }
}

/// Where PHP sees a literal end that starts with the text.
fn literal_end(text: &str) -> usize {
    let chars: Vec<char> = text.chars().collect();
    let mut i = 1;
    while chars[i] != '\'' {
        i += if chars[i] == '\\' { 2 } else { 1 };
    }
    i
}

#[test]
fn a_value_cannot_close_its_literal() {
    for value in ["'; exit; '", "\\'; exit; //", "\\", "\\\\'", "'"] {
        let literal = php_string(value);
        let text = format!("{literal}; more('x');");
        assert_eq!(literal_end(&text), literal.chars().count() - 1);
        assert!(!literal.contains('\n') && !literal.contains('\r'));
    }
}

#[test]
fn a_request_id_has_fixed_places() {
    assert_eq!(
        rustenphp_request_id("req", 5, 0x0123_4567_89ab, 0x1_2345),
        "req-456789ab-8005-0123-2345"
    );
    assert_eq!(rustenphp_request_id("", 0, 0, 0), "-00000000-8000-0000-0000");
    for seq in [0, 1, 0x3fff, 0x4000, 0x4001, u64::MAX] {
        for millis in [0, 1_700_000_000_000, u64::MAX as u128, u128::MAX, 1 << 64] {
            for process_id in [0, 1, 65_536, u32::MAX] {
                let timestamp = millis as u64;
                let time_low = (timestamp & 0xFFFFFFFF) as u32;
                let time_mid = ((timestamp >> 32) & 0xFFFF) as u16;
                let clock_seq = (seq & 0x3FFF) as u16 | 0x8000;
                let node = (process_id as u64 & 0xFFFF) as u16;
                let expected = format!(
                    "p-{:08x}-{:04x}-{:04x}-{:04x}",
                    time_low, clock_seq, time_mid, node
                );
                assert_eq!(rustenphp_request_id("p", seq, millis, process_id), expected);
            }
        }
    }
}

#[test]
fn near_request_ids_differ() {
    let first = rustenphp_request_id("req", 7, 1_700_000_000_000, 42);
    assert_ne!(first, rustenphp_request_id("req", 8, 1_700_000_000_000, 42));
    assert_ne!(first, rustenphp_request_id("req", 7 + 0x3fff, 1_700_000_000_000, 42));
    assert_eq!(first, rustenphp_request_id("req", 7 + 0x4000, 1_700_000_000_000, 42));
}

#[test]
fn a_status_of_zero_is_success() {
    assert!(boot_outcome(0).is_ok());
    assert_eq!(
        boot_outcome(3).err().map(|e| e.message()),
        Some("php_embed_init failed with status 3".to_string())
    );
    assert!(eval_outcome(0).is_ok());
    assert_eq!(
        eval_outcome(-1).err().map(|e| e.message()),
        Some("zend_eval_string failed with status -1".to_string())
    );
}

#[test]
fn code_must_not_hold_a_null_byte() {
    assert_eq!(code_bytes("echo '\u{e9}';").ok(), Some("echo '\u{e9}';".as_bytes().to_vec()));
    assert_eq!(code_bytes("").ok(), Some(vec![]));
    assert_eq!(
        code_bytes("a\0b").err().map(|e| e.message()),
        Some("PHP code contains an interior null byte".to_string())
    );
}

fn command(args: &[&str]) -> Option<String> {
    let args: Vec<String> = args.iter().map(|s| s.to_string()).collect();
    match parse_command(&args) {
        Command::Serve => None,
        Command::Eval { code } => Some(code),
    }
}

#[test]
fn arguments_ask_for_serving_or_for_code() {
    let default = "echo 'PHP embedded in Rust via php8embed.lib: '.PHP_VERSION.PHP_EOL;";
    assert_eq!(command(&["serve"]), None);
    assert_eq!(command(&["serve", "more"]), None);
    assert_eq!(command(&["Serve"]), Some("Serve".to_string()));
    assert_eq!(command(&["echo", "1;"]), Some("echo 1;".to_string()));
    assert_eq!(command(&[]), Some(default.to_string()));
    assert_eq!(command(&[" ", "\t"]), Some(default.to_string()));
    assert_eq!(command(&["", "serve"]), Some(" serve".to_string()));
}

#[test]
fn a_server_has_defaults() {
    let s = |t: &str| Some(t.to_string());
    let server = Server::configure(PathRules::Unix, None, s("/work"), None, None);
    assert_eq!(server.laravel_root, "/work");
    assert_eq!(server.public_root, "/work/logs");
    assert_eq!(server.address(), "127.0.0.1:8787");
    assert_eq!(
        server.banner(),
        "rustenphp embedded Laravel server listening on http://127.0.0.1:8787"
    );
    let server = Server::configure(PathRules::Unix, s("/app"), s("/work"), s("0.0.0.0"), s("80"));
    assert_eq!(server.laravel_root, "/app");
    assert_eq!(server.address(), "0.0.0.0:80");
    let server = Server::configure(PathRules::Unix, None, None, None, None);
    assert_eq!(server.public_root, "./logs");
    let server = Server::configure(PathRules::Windows, s("D:\\app"), None, None, None);
    assert_eq!(server.public_root, "D:\\app\\logs");
}

#[test]
fn flags_become_directives() {
    let line = |flag: &str| link_directive(flag);
    assert_eq!(line("-L/usr/lib"), Some("cargo:rustc-link-search=native=/usr/lib".to_string()));
    assert_eq!(line("-lxml2"), Some("cargo:rustc-link-lib=dylib=xml2".to_string()));
    assert_eq!(line("-Wl,-z,now"), Some("cargo:rustc-link-arg=-Wl,-z,now".to_string()));
    assert_eq!(line("-Wall"), None);
    assert_eq!(line("-"), None);
    assert_eq!(line(""), None);
}

#[test]
fn a_version_is_cut_at_its_second_dot() {
    for version in ["8.3.12", "8.3", "8", "", "8.", "8..1", ".", "8.3.1.2"] {
        let expected = version.split('.').take(2).collect::<Vec<_>>().join(".");
        assert_eq!(short_version(version), expected);
    }
    assert_eq!(short_version("8.3.12"), "8.3");
}

#[test]
fn all_directives_are_printed_in_order() {
    assert_eq!(
        link_directives(" -L/a -Wl,-x\n", "-lc -O2 -lm", "8.3.12"),
        vec![
            "cargo:rustc-link-search=native=/a",
            "cargo:rustc-link-arg=-Wl,-x",
            "cargo:rustc-link-lib=dylib=c",
            "cargo:rustc-link-lib=dylib=m",
            "cargo:rustc-link-lib=dylib=php8.3",
            "cargo:rustc-link-lib=dylib=php",
        ]
    );
    assert_eq!(
        link_directives("", "", ""),
        vec!["cargo:rustc-link-lib=dylib=php"]
    );
    assert_eq!(RERUN_LINE, "cargo:rerun-if-env-changed=PHP_CONFIG");
}

#[test]
fn the_program_holds_the_request() {
    let laravel_root = "/srv/it's";
    let public_root = "/srv/it's/logs";
    let request_id = "req-0-1-2-3";
    let method = "GET";
    let target = "/a'b?c=1\\d";
    let query = "c=1\\d";
    let host = "127.0.0.1";
    let port = "8787";
    let job = run_laravel_request(
        PathRules::Unix,
        laravel_root,
        public_root,
        request_id,
        method,
        target,
        query,
        host,
        port,
    );
    assert_eq!(job.output_path, "/srv/it's/logs/tmp/req-0-1-2-3");
    let expected = format!(
        r#"
$__rustenphp_output_path = {output_path};
error_reporting(E_ERROR);
ini_set('display_errors', '1');
date_default_timezone_set('Asia/Shanghai');

function rustenphp_error($v, $action = 'error', $_level = 0) {{
    $__rustenphp_log_path = {log_path};
    if ($action === 'warn' || $action === 'error' || $action === 'fault' ||
            $action === 'debug' || $action === 'info' || $action === 'log')  {{
        $now = microtime(true);
        $action = $action === 'log' ? 'INFO' : strtoupper($action);
        $_M = ['DEBUG' => 10, 'INFO' => 20, 'WARN' => 30, 'ERROR' => 40, 'FAULT' => 50];
        if (!empty($_M[$action]) && $_M[$action] >= $_level) {{
            $_ms = intval(($now - intval($now)) * 1000);
            $_ms = $_ms >= 100 ? $_ms : ($_ms >= 10 ? "0$_ms" : "00$_ms");
            $_msg = date('[Y-m-d H:i:s', $now) . ".$_ms] `$action` $v\n";
            error_log($_msg, 3, $__rustenphp_log_path);
        }}
    }}
}};

function _get($n, $d, $t='') {{
    $v = isset($_GET[$n]) ? $_GET[$n] : $d;
    $v = $t == 'intval' ? intval($v) : $v;
    $v = $t == 'floatval' ? floatval($v) : $v;
    return $v;
}}

/** @noinspection PhpUnusedLocalVariableInspection */
$_t = microtime(true);
/** @noinspection PhpUnusedLocalVariableInspection */
$_ = function ($v, $action = '') {{
    global $_t;
    if (empty($action)) {{
        return $v;
    }}
    if ($action === 'echo') {{
        echo $v;
    }} elseif ($action === 'done') {{
        $now = microtime(true);
        $_ms = intval(($now - $_t) * 1000.0 * 100.0) / 100.0;
        $_ms = $_ms < 1000.0 ? "{{$_ms}} ms" : (intval($_ms / 1000.0 * 100.0) / 100.0) . " s";
        rustenphp_error("\n\n====================================\nDone {{$v}} Use: {{$_ms}}.\n====================================\n", 'info');
        $_t = $now;
        return $_ms;
    }} elseif ($action === 'log' || $action === 'debug' || $action === 'info' ||
        $action === 'warn' || $action === 'error' || $action === 'fault') {{
        rustenphp_error($v, $action);
    }}
    return $v;
}};

register_shutdown_function(function () use ($__rustenphp_output_path) {{
    $error = error_get_last();
    if ($error && !file_exists($__rustenphp_output_path)) {{
        $_msg = "PHP fatal error: ".$error['message']." in ".$error['file'].":".$error['line'];
        file_put_contents($__rustenphp_output_path, $_msg);
        rustenphp_error($_msg);
    }}
}});

try {{
    // 1. Setup the standard request superglobals for this specific turn
    $_SERVER['REQUEST_METHOD'] = {method};
    $_SERVER['REQUEST_URI'] = {target};
    $_SERVER['REQUEST_ID'] = '{request_id}';
    $_SERVER['QUERY_STRING'] = {query};
    $_SERVER['SCRIPT_FILENAME'] = {script_filename};
    $_SERVER['SCRIPT_NAME'] = '/index.php';
    $_SERVER['PHP_SELF'] = '/index.php';
    $_SERVER['DOCUMENT_ROOT'] = {document_root};
    $_SERVER['SERVER_NAME'] = {host};
    $_SERVER['SERVER_PORT'] = {port};
    $_SERVER['SERVER_PROTOCOL'] = 'HTTP/1.1';
    $_SERVER['HTTP_HOST'] = {http_host};
    $_SERVER['HTTPS'] = 'off';
    
    $_GET = [];
    parse_str({query}, $_GET);
    $_POST = [];
    $_REQUEST = $_GET;

    // 2. Clear out any previous output buffers left over
    while (ob_get_level() > 0) {{
        ob_end_clean();
    }}
    ob_start();

    // 3. Define LARAVEL_START conditionally if it doesn't exist in our global runtime yet
    if (!defined('LARAVEL_START')) {{
        define('LARAVEL_START', microtime(true));
    }}

    // 4. Use require_once for Composer's autoloader so it doesn't re-register functions
    // require_once {laravel_root} . '/vendor/autoload.php';
    require_once {document_root} . '/index.php';

    // 5. Boot or resolve the Kernel application instance
    // We check if we already booted the app in a previous request to keep it ultra-fast

    /* global $__rustenphp_app, $__rustenphp_kernel;
    if (!$__rustenphp_app) {{
        $__rustenphp_app = require_once {laravel_root} . '/bootstrap/app.php';
        $__rustenphp_kernel = $__rustenphp_app->make(Illuminate\Contracts\Http\Kernel::class);
    }}

    // 6. Handle the incoming request through the persistent kernel
    $__rustenphp_request = Illuminate\Http\Request::capture();
    $__rustenphp_response = $__rustenphp_kernel->handle($__rustenphp_request);
    $__rustenphp_response->send();
    $__rustenphp_kernel->terminate($__rustenphp_request, $__rustenphp_response); */

    $__rustenphp_body = ob_get_clean();
    file_put_contents($__rustenphp_output_path, $__rustenphp_body);

}} catch (Throwable $exception) {{
    while (ob_get_level() > 0) {{
        ob_end_clean();
    }}
    $_msg = "PHP throwable: ".$exception::class.": ".$exception->getMessage()." in ".$exception->getFile().":".$exception->getLine();
    file_put_contents($__rustenphp_output_path, $_msg);
    rustenphp_error($_msg);
}}
"#,
        method = "'GET'",
        target = "'/a\\'b?c=1\\\\d'",
        query = "'c=1\\\\d'",
        host = "'127.0.0.1'",
        port = "'8787'",
        request_id = request_id,
        http_host = "'127.0.0.1:8787'",
        script_filename = "'/srv/it\\'s/logs/index.php'",
        document_root = "'/srv/it\\'s/logs'",
        laravel_root = "'/srv/it\\'s'",
        output_path = "'/srv/it\\'s/logs/tmp/req-0-1-2-3'",
        log_path = "'/srv/it\\'s/logs/rustenphp-error.log'",
    );
    assert_eq!(job.php_code, expected);
}

/// What PHP reads from a literal.
fn literal_value(literal: &str) -> String {
    let chars: Vec<char> = literal.chars().collect();
    let body = &chars[1..chars.len() - 1];
    let mut value = String::new();
    let mut i = 0;
    while i < body.len() {
        if body[i] == '\\' && i + 1 < body.len() && (body[i + 1] == '\\' || body[i + 1] == '\'') {
            i += 1;
        }
        value.push(body[i]);
        i += 1;
    }
    value
}

#[test]
fn php_reads_a_target_as_it_was_sent() {
    for target in ["/", "/a'b\\c?d=\\'", "/\\\\", "/\\n\\r", "/caf\u{e9}?'"] {
        assert_eq!(literal_value(&php_string(target)), target);
    }
    assert_eq!(literal_value(&php_string("a\r\nb")), "a\\r\\nb");
}

#[test]
fn a_request_id_is_plain() {
    let id = rustenphp_request_id("req", u64::MAX, u128::MAX, u32::MAX);
    assert_eq!(id, "req-ffffffff-bfff-ffff-ffff");
    assert_eq!(id.len(), 3 + 24);
}

#[test]
fn the_program_holds_windows_paths() {
    let job = run_laravel_request(
        PathRules::Windows,
        "D:\\x",
        "D:\\x\\logs",
        "req-0-1-2-3",
        "GET",
        "/",
        "",
        "127.0.0.1",
        "8787",
    );
    assert_eq!(job.output_path, "D:\\x\\logs\\tmp\\req-0-1-2-3");
    for line in [
        "$__rustenphp_output_path = 'D:\\\\x\\\\logs\\\\tmp\\\\req-0-1-2-3';",
        "$__rustenphp_log_path = 'D:\\\\x\\\\logs\\\\rustenphp-error.log';",
        "$_SERVER['SCRIPT_FILENAME'] = 'D:\\\\x\\\\logs\\\\index.php';",
    ] {
        assert!(job.php_code.contains(line), "{line}");
    }
}

#[test]
fn every_value_of_the_program_is_quoted() {
    let job = run_laravel_request(
        PathRules::Unix,
        "/l'r",
        "/p'r",
        "req-0-1-2-3",
        "G'T",
        "/t'",
        "q='",
        "h'",
        "p'",
    );
    for line in [
        "parse_str('q=\\'', $_GET);",
        "$_SERVER['QUERY_STRING'] = 'q=\\'';",
        "$_SERVER['REQUEST_METHOD'] = 'G\\'T';",
        "$_SERVER['REQUEST_URI'] = '/t\\'';",
        "$_SERVER['REQUEST_ID'] = 'req-0-1-2-3';",
        "$_SERVER['DOCUMENT_ROOT'] = '/p\\'r';",
        "$_SERVER['SERVER_NAME'] = 'h\\'';",
        "$_SERVER['SERVER_PORT'] = 'p\\'';",
        "$_SERVER['HTTP_HOST'] = 'h\\':p\\'';",
        "// require_once '/l\\'r' . '/vendor/autoload.php';",
        "require_once '/p\\'r' . '/index.php';",
    ] {
        assert!(job.php_code.contains(line), "{line}");
    }
}
