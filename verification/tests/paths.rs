use rustenphp::path::{join_path, path_extension, PathRules};
use rustenphp::static_file::{resolve_static_file, static_candidate};
use std::path::Path;

const PATHS: [&str; 40] = [
    "", ".", "..", "/", "//", "/.", "./", "./.", "a", "a/", "a/.", "a/./", "a/..", "a//", "a.css",
    "a.css/", "a.css/.", "a.css/./.", "a.css/..", ".hidden", "..hidden", "...", "....", "a.", "a..",
    "a.b.c", "dir.d/file", "dir.d/.file", "/root/a.PHP", "/root/x.log", "../a.js", "./a.js",
    "a/./b.png", "/..", "a.b/", "/a.b/./", ".a.b", "a/.b.c/.", "\u{e9}.svg", "a b.ico",
];

#[test]
fn extensions_agree_with_the_standard_library() {
    for p in PATHS {
        let expected = Path::new(p).extension().and_then(|e| e.to_str());
        assert_eq!(path_extension(PathRules::Unix, p), expected, "{p}");
    }
    assert_eq!(path_extension(PathRules::Unix, "/srv/logs/site.tar.gz"), Some("gz"));
    assert_eq!(path_extension(PathRules::Unix, ".profile"), None);
}

#[test]
fn joins_agree_with_the_standard_library() {
    for base in PATHS {
        for p in PATHS {
            let expected = Path::new(base).join(p);
            assert_eq!(join_path(PathRules::Unix, base, p), expected.to_str().unwrap());
        }
    }
    assert_eq!(join_path(PathRules::Unix, "/srv", "logs"), "/srv/logs");
    assert_eq!(join_path(PathRules::Unix, "/srv/", "logs"), "/srv/logs");
    assert_eq!(join_path(PathRules::Unix, "", "logs"), "logs");
    assert_eq!(join_path(PathRules::Unix, "/srv", "/etc"), "/etc");
}

#[test]
fn a_request_path_names_a_candidate() {
    let root = "/srv/logs";
    assert_eq!(static_candidate(PathRules::Unix, root, "/a.css"), Some("/srv/logs/a.css".to_string()));
    assert_eq!(static_candidate(PathRules::Unix, root, "///a\\b.css"), Some("/srv/logs/a/b.css".to_string()));
    assert_eq!(static_candidate(PathRules::Unix, root, "/"), None);
    assert_eq!(static_candidate(PathRules::Unix, root, ""), None);
    assert_eq!(static_candidate(PathRules::Unix, root, "/../a.css"), None);
    assert_eq!(static_candidate(PathRules::Unix, root, "/a..b"), None);
    assert_eq!(static_candidate(PathRules::Unix, root, "/a.b.c"), Some("/srv/logs/a.b.c".to_string()));
    assert_eq!(static_candidate(PathRules::Unix, root, "/."), Some("/srv/logs/.".to_string()));
}

#[test]
fn a_backslash_after_the_slashes_names_an_absolute_path() {
    assert_eq!(static_candidate(PathRules::Unix, "/srv/logs", "/\\etc/motd"), Some("/etc/motd".to_string()));
}

#[test]
fn candidates_agree_with_the_steps_they_are_made_of() {
    let root = "/srv/logs";
    for p in ["/x/y.js", "\\x", "//\\x/..", "/a\\..\\b", "x..", "/.x.", "/caf\u{e9}.txt", "\\"] {
        let name = p.trim_start_matches('/').replace('\\', "/");
        let expected = if name.is_empty() || name.contains("..") {
            None
        } else {
            Some(Path::new(root).join(name).to_str().unwrap().to_string())
        };
        assert_eq!(static_candidate(PathRules::Unix, root, p), expected);
    }
}

#[test]
fn only_files_that_may_be_sent_are_resolved() {
    let root = "/srv/logs";
    assert_eq!(resolve_static_file(PathRules::Unix, root, "/a.css", true), Some("/srv/logs/a.css".to_string()));
    assert_eq!(resolve_static_file(PathRules::Unix, root, "/a", true), Some("/srv/logs/a".to_string()));
    assert_eq!(resolve_static_file(PathRules::Unix, root, "/a.css", false), None);
    assert_eq!(resolve_static_file(PathRules::Unix, root, "/index.php", true), None);
    assert_eq!(resolve_static_file(PathRules::Unix, root, "/index.PhP", true), None);
    assert_eq!(resolve_static_file(PathRules::Unix, root, "/error.log", true), None);
    assert_eq!(resolve_static_file(PathRules::Unix, root, "/error.LOG", true), None);
    assert_eq!(resolve_static_file(PathRules::Unix, root, "/error.log.txt", true).is_some(), true);
    assert_eq!(resolve_static_file(PathRules::Unix, root, "/..", true), None);
}

#[test]
fn windows_paths_are_joined() {
    let cases = [
        (r"D:\x\logs", "tmp", r"D:\x\logs\tmp"),
        (r"D:\x\logs\", "tmp", r"D:\x\logs\tmp"),
        ("D:/x/", "tmp", "D:/x/tmp"),
        ("D:/x", "a/b", r"D:/x\a/b"),
        ("", "foo", "foo"),
        ("foo", "", r"foo\"),
        ("foo/.", "bar", r"foo/.\bar"),
        ("foo//", "bar", "foo//bar"),
        ("C:", "windows", "C:windows"),
        (r"C:\", "windows", r"C:\windows"),
        (r"C:\a\b", r"\c", r"C:\c"),
        (r"C:\a\b", "/c", "C:/c"),
        (r"a\b", r"\c\d", r"\c\d"),
        (r"C:\a", "D:b", "D:b"),
        (r"C:\a", r"D:\b", r"D:\b"),
        (r"C:\a", "1:b", r"C:\a\1:b"),
        (r"\\server\share", "dir", r"\\server\share\dir"),
        (r"\\server\share\dir", r"\c", r"\\server\share\c"),
        (r"\\server", r"\c", r"\c"),
        (r"C:\a", "//server/share/b", "//server/share/b"),
        (r"C:\a", "//server", "C://server"),
        (r"\\.\foo", "baz", r"\\.\foo\baz"),
        (r"\\.\foo\bar", r"\baz", r"\\.\foo\baz"),
        (r"\\?\C:\bar", "../foo", r"\\?\C:\foo"),
        (r"\\?\C:\bar", "../../foo", r"\\?\C:\foo"),
        (r"\\?\C:\", "../foo", r"\\?\C:\foo"),
        (r"\\?\C:", r"D:\foo/./", r"D:\foo/./"),
        (r"\\?\C:", r"\\?\D:\foo\.\", r"\\?\D:\foo\.\"),
        (r"\\?\A:\x\y", "/foo", r"\\?\A:\foo"),
        (r"\\?\A:", r"..\foo\.", r"\\?\A:\foo"),
        (r"\\?\A:\x\y", r".\foo\.", r"\\?\A:\x\y\foo"),
        (r"\\?\A:\x\y", "", r"\\?\A:\x\y\"),
        (r"\\?\C:\a\\b\.", "c", r"\\?\C:\a\b\.\c"),
        (r"\\?\UNC\server", "y", r"\\?\UNC\server\y"),
        (r"\\?\name\x", "/y", r"\\?\name\y"),
        (r"\\?\C:\", ".", r"\\?\C:\"),
        (r"\\?\C:", ".", r"\\?\C:"),
    ];
    for (base, path, whole) in cases {
        assert_eq!(join_path(PathRules::Windows, base, path), whole, "{base} {path}");
    }
}

#[test]
fn windows_paths_have_extensions() {
    let cases = [
        (r"D:\x\a.css", Some("css")),
        ("D:/x/a.css/", Some("css")),
        (r"D:\x\a.css\.", Some("css")),
        (r"a.b\c", None),
        (r"a\.hidden", None),
        (r"a\..", None),
        ("C:", None),
        ("C:a.js", Some("js")),
        ("C:.", None),
        (r"C:\", None),
        (r"\\server.a\share.b", None),
        (r"\\server\share\x.png", Some("png")),
        (r"\\.\dev.x", None),
        (r"\\?\C:\a.b/c.d", Some("d")),
        (r"\\?\C:\a.b\.", None),
        (r"\\?\C:\a/b.c/d", Some("c/d")),
    ];
    for (path, expected) in cases {
        assert_eq!(path_extension(PathRules::Windows, path), expected, "{path}");
    }
}

#[test]
fn windows_candidates_stand_below_the_root() {
    let find = |path: &str| static_candidate(PathRules::Windows, r"D:\x\logs", path);
    assert_eq!(find("/a/b.css"), Some(r"D:\x\logs\a/b.css".to_string()));
    assert_eq!(find("/a\\b.css"), Some(r"D:\x\logs\a/b.css".to_string()));
    assert_eq!(find("/C:/a.css"), Some("C:/a.css".to_string()));
    assert_eq!(find("/\\a.css"), Some("D:/a.css".to_string()));
    let file = resolve_static_file(PathRules::Windows, r"D:\x\logs", "/a.Php", true);
    assert_eq!(file, None);
}

#[test]
fn a_candidate_is_not_beside_the_root() {
    let file = static_candidate(PathRules::Unix, "/srv/logs", "X/a").unwrap();
    assert_eq!(file, "/srv/logs/X/a");
}
