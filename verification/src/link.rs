//! How the program is linked with the PHP engine: what its build prints, by what
//! `php-config` says.
use vstd::prelude::*;

use crate::text::before;
use crate::text::chars_of;
use crate::text::find;
use crate::text::law_a_text_starts_with_its_front;
use crate::text::lemma_before_is;
use crate::text::split_words;
use crate::text::starts_with;
use crate::text::strip_prefix;
use crate::text::text_of;
use crate::text::texts;
use crate::text::words;

verus! {

/// What is printed before `php-config` is asked: that the build is run again once
/// another one is named.
pub const RERUN_LINE: &'static str = "cargo:rerun-if-env-changed=PHP_CONFIG";

/// What is printed for a flag of the linker: a directory to search, a library,
/// an argument handed on. Other flags are left out.
pub open spec fn directive(flag: Seq<char>) -> Option<Seq<char>> {
    if starts_with(flag, "-L"@) {
        Some("cargo:rustc-link-search=native="@ + flag.skip(2))
    } else if starts_with(flag, "-l"@) {
        Some("cargo:rustc-link-lib=dylib="@ + flag.skip(2))
    } else if starts_with(flag, "-Wl,"@) {
        Some("cargo:rustc-link-arg="@ + flag)
    } else {
        None
    }
}

/// What is printed for a list of flags, in their order.
pub open spec fn directives(flags: Seq<Seq<char>>) -> Seq<Seq<char>>
    decreases flags.len(),
{
    if flags.len() == 0 {
        Seq::empty()
    } else {
        match directive(flags.last()) {
            Some(line) => directives(flags.drop_last()).push(line),
            None => directives(flags.drop_last()),
        }
    }
}

/// The first two parts of a version, which dots stand between: what comes before
/// its second dot, or all of it where it has no two.
pub open spec fn major_minor(version: Seq<char>) -> Seq<char> {
    let major = before(version, '.') as int;
    if major < version.len() {
        version.take(major + 1 + before(version.skip(major + 1), '.'))
    } else {
        version
    }
}

/// All that is printed once `php-config` was asked, line by line.
pub open spec fn link_lines(ldflags: Seq<char>, libs: Seq<char>, version: Seq<char>) -> Seq<
    Seq<char>,
> {
    let start = directives(words(ldflags) + words(libs));
    let named = if major_minor(version).len() > 0 {
        start.push("cargo:rustc-link-lib=dylib=php"@ + major_minor(version))
    } else {
        start
    };
    named.push("cargo:rustc-link-lib=dylib=php"@)
}

/// Writes what is printed for a flag.
pub fn link_directive(flag: &str) -> (line: Option<String>)
    ensures
        match line {
            Some(l) => directive(flag@) == Some(l@),
            None => directive(flag@) is None,
        },
{
    proof {
        reveal_strlit("-L");
        reveal_strlit("-l");
    }
    match strip_prefix(flag, "-L") {
        Some(path) => Some("cargo:rustc-link-search=native=".to_owned().concat(path)),
        None => match strip_prefix(flag, "-l") {
            Some(lib) => Some("cargo:rustc-link-lib=dylib=".to_owned().concat(lib)),
            None => match strip_prefix(flag, "-Wl,") {
                Some(_) => Some("cargo:rustc-link-arg=".to_owned().concat(flag)),
                None => None,
            },
        },
    }
}

/// Finds the first two parts of a version.
pub fn short_version(version: &str) -> (short: String)
    ensures
        short@ == major_minor(version@),
{
    let chars = chars_of(version);
    let major = find(&chars, '.');
    if major < chars.len() {
        let rest = chars_of(version.substring_char(major + 1, chars.len()));
        assert(rest@ == version@.skip(major + 1));
        let minor = find(&rest, '.');
        text_of(&chars, 0, major + 1 + minor)
    } else {
        version.to_owned()
    }
}

/// Adds what is printed for each of a list of flags.
fn push_directives(lines: &mut Vec<String>, flags: &Vec<String>)
    ensures
        texts(final(lines)@) == texts(old(lines)@) + directives(texts(flags@)),
{
    let ghost start = texts(lines@);
    let ghost all = texts(flags@);
    assert(start == texts(lines@) + directives(all.take(0)));
    for i in 0..flags.len()
        invariant
            all == texts(flags@),
            texts(lines@) == start + directives(all.take(i as int)),
    {
        let ghost shorter = lines@;
        assert(all.take(i + 1).drop_last() == all.take(i as int));
        assert(all.take(i + 1).last() == flags@[i as int]@);
        match link_directive(flags[i].as_str()) {
            Some(line) => {
                lines.push(line);
                assert(texts(lines@) == texts(shorter).push(line@));
            },
            None => {},
        }
    }
    assert(all.take(all.len() as int) == all);
}

proof fn lemma_directives_join(a: Seq<Seq<char>>, b: Seq<Seq<char>>)
    ensures
        directives(a + b) == directives(a) + directives(b),
    decreases b.len(),
{
    if b.len() == 0 {
        assert(a + b == a);
    } else {
        assert((a + b).drop_last() == a + b.drop_last());
        lemma_directives_join(a, b.drop_last());
        assert(directives(a + b) == directives(a) + directives(b));
    }
}

/// Writes all that is printed once `php-config` was asked: `ldflags`, `libs` and
/// `version` are what it says of each.
pub fn link_directives(ldflags: &str, libs: &str, version: &str) -> (lines: Vec<String>)
    ensures
        texts(lines@) == link_lines(ldflags@, libs@, version@),
{
    let mut lines: Vec<String> = Vec::new();
    assert(texts(lines@) == Seq::<Seq<char>>::empty());
    push_directives(&mut lines, &split_words(ldflags));
    push_directives(&mut lines, &split_words(libs));
    proof {
        lemma_directives_join(words(ldflags@), words(libs@));
    }
    let ghost start = lines@;
    assert(texts(start) == directives(words(ldflags@) + words(libs@)));
    let short = short_version(version);
    if !short.as_str().is_empty() {
        let named = "cargo:rustc-link-lib=dylib=php".to_owned().concat(short.as_str());
        lines.push(named);
        assert(texts(lines@) == texts(start).push(named@));
    }
    let ghost almost = lines@;
    lines.push("cargo:rustc-link-lib=dylib=php".to_owned());
    assert(texts(lines@) == texts(almost).push("cargo:rustc-link-lib=dylib=php"@));
    lines
}

/// A directory to search and a library are printed without the two characters
/// that mark them, an argument of the linker with those that mark it. Nothing is
/// printed for a flag that is none of these.
pub proof fn law_flags_become_directives(flag: Seq<char>, rest: Seq<char>)
    ensures
        directive("-L"@ + rest) == Some("cargo:rustc-link-search=native="@ + rest),
        directive("-l"@ + rest) == Some("cargo:rustc-link-lib=dylib="@ + rest),
        directive("-Wl,"@ + rest) == Some("cargo:rustc-link-arg=-Wl,"@ + rest),
        directive(flag) is Some ==> flag.len() >= 2 && flag[0] == '-' && {
            ||| flag[1] == 'L'
            ||| flag[1] == 'l'
            ||| flag.len() >= 4 && flag[1] == 'W' && flag[2] == 'l' && flag[3] == ','
        },
{
    reveal_strlit("-L");
    reveal_strlit("-l");
    reveal_strlit("-Wl,");
    reveal_strlit("cargo:rustc-link-arg=");
    reveal_strlit("cargo:rustc-link-arg=-Wl,");
    law_a_text_starts_with_its_front("-L"@, rest);
    law_a_text_starts_with_its_front("-l"@, rest);
    law_a_text_starts_with_its_front("-Wl,"@, rest);
    assert(("-L"@ + rest).skip(2) == rest);
    assert(("-l"@ + rest).skip(2) == rest);
    assert(("-l"@ + rest)[1] == 'l');
    if starts_with("-l"@ + rest, "-L"@) {
        assert(("-l"@ + rest).take(2)[1] == "-L"@[1]);
    }
    assert(("-Wl,"@ + rest)[1] == 'W');
    if starts_with("-Wl,"@ + rest, "-L"@) {
        assert(("-Wl,"@ + rest).take(2)[1] == "-L"@[1]);
    }
    if starts_with("-Wl,"@ + rest, "-l"@) {
        assert(("-Wl,"@ + rest).take(2)[1] == "-l"@[1]);
    }
    assert("cargo:rustc-link-arg=-Wl,"@ == "cargo:rustc-link-arg="@ + "-Wl,"@);
    assert("cargo:rustc-link-arg="@ + ("-Wl,"@ + rest) == "cargo:rustc-link-arg=-Wl,"@ + rest);
    if starts_with(flag, "-L"@) {
        assert(flag.take(2)[0] == flag[0] && flag.take(2)[1] == flag[1]);
    } else if starts_with(flag, "-l"@) {
        assert(flag.take(2)[0] == flag[0] && flag.take(2)[1] == flag[1]);
    } else if starts_with(flag, "-Wl,"@) {
        assert(flag.take(4)[0] == flag[0] && flag.take(4)[1] == flag[1]);
        assert(flag.take(4)[2] == flag[2] && flag.take(4)[3] == flag[3]);
    }
}

/// What is printed for flags comes in their order: for those of the first list,
/// for one more flag, and for those of the second.
pub proof fn law_directives_keep_their_order(
    a: Seq<Seq<char>>,
    flag: Seq<char>,
    b: Seq<Seq<char>>,
)
    ensures
        directives(a + seq![flag] + b) == directives(a) + (match directive(flag) {
            Some(line) => seq![line],
            None => Seq::empty(),
        }) + directives(b),
        directives(Seq::empty()).len() == 0,
{
    let one = seq![flag];
    lemma_directives_join(a + one, b);
    lemma_directives_join(a, one);
    assert(one.drop_last() == Seq::<Seq<char>>::empty());
    assert(one.last() == flag);
    assert(directives(Seq::empty()) == Seq::<Seq<char>>::empty());
    assert(directives(one) == match directive(flag) {
        Some(line) => seq![line],
        None => Seq::empty(),
    });
}

/// The first two parts of a version are what stands before its second dot. A
/// version with fewer dots is taken whole.
pub proof fn law_a_version_ends_at_its_second_dot(
    major: Seq<char>,
    minor: Seq<char>,
    rest: Seq<char>,
)
    requires
        !major.contains('.'),
        !minor.contains('.'),
    ensures
        major_minor(major + seq!['.'] + minor + seq!['.'] + rest) == major + seq!['.'] + minor,
        major_minor(major + seq!['.'] + minor) == major + seq!['.'] + minor,
        major_minor(major) == major,
{
    let dot = seq!['.'];
    let none = Seq::<char>::empty();
    let n = major.len() as int;
    let long = major + dot + minor + dot + rest;
    let short = major + dot + minor;
    assert(long == major + (dot + minor + dot + rest));
    lemma_before_is(major, '.', dot + minor + dot + rest);
    assert(long.skip(n + 1) == minor + (dot + rest));
    lemma_before_is(minor, '.', dot + rest);
    assert(long.take(n + 1 + minor.len()) == short);
    assert(short == major + (dot + minor));
    lemma_before_is(major, '.', dot + minor);
    assert(short.skip(n + 1) == minor + none);
    lemma_before_is(minor, '.', none);
    assert(short.take(n + 1 + minor.len()) == short);
    assert(major == major + none);
    lemma_before_is(major, '.', none);
}

/// All that is printed: what comes of the flags, first those for the linker and
/// then those for the libraries, the library with the short version unless that
/// is empty, and the library without one.
pub proof fn law_all_directives_are_printed(
    ldflags: Seq<char>,
    libs: Seq<char>,
    version: Seq<char>,
)
    ensures
        ({
            let flags = directives(words(ldflags)) + directives(words(libs));
            let named = "cargo:rustc-link-lib=dylib=php"@ + major_minor(version);
            let bare = "cargo:rustc-link-lib=dylib=php"@;
            link_lines(ldflags, libs, version) == if major_minor(version).len() > 0 {
                flags + seq![named, bare]
            } else {
                flags + seq![bare]
            }
        }),
{
    lemma_directives_join(words(ldflags), words(libs));
    let flags = directives(words(ldflags)) + directives(words(libs));
    let named = "cargo:rustc-link-lib=dylib=php"@ + major_minor(version);
    let bare = "cargo:rustc-link-lib=dylib=php"@;
    assert(flags.push(named).push(bare) == flags + seq![named, bare]);
    assert(flags.push(bare) == flags + seq![bare]);
}

} // verus!
