//! Files that are sent as they are.
use vstd::prelude::*;

use crate::path::body_start;
use crate::path::extension;
use crate::path::followed;
use crate::path::is_dots;
use crate::path::join_path;
use crate::path::joined_path;
use crate::path::is_rooted;
use crate::path::is_separator;
use crate::path::law_unix_paths_are_joined_by_one_slash;
use crate::path::lemma_part_end;
use crate::path::part_end;
use crate::path::parts;
use crate::path::path_extension;
use crate::path::prefix_of;
use crate::path::PathRules;
use crate::path::PrefixKind;
use crate::text::chars_of;
use crate::text::lemma_lower;
use crate::text::lower;
use crate::text::lowercase;
use crate::text::same_text;
use crate::text::separated;
use crate::text::to_lowercase;

verus! {

/// A path without the slashes at its start.
pub open spec fn without_slashes(path: Seq<char>) -> Seq<char>
    decreases path.len(),
{
    if path.len() > 0 && path[0] == '/' {
        without_slashes(path.skip(1))
    } else {
        path
    }
}

/// A character, with a slash for a backslash.
pub open spec fn slash(c: char) -> char {
    if c == '\\' {
        '/'
    } else {
        c
    }
}

/// The name of the file that the path of a request asks for: the path without
/// the slashes at its start, and then with slashes for its backslashes.
pub open spec fn static_name(path: Seq<char>) -> Seq<char> {
    without_slashes(path).map_values(|c: char| slash(c))
}

/// Whether two dots stand side by side at `i`.
pub open spec fn dots_at(s: Seq<char>, i: int) -> bool {
    0 <= i && i + 1 < s.len() && s[i] == '.' && s[i + 1] == '.'
}

/// Whether two dots stand side by side.
pub open spec fn has_dots(s: Seq<char>) -> bool {
    exists|i: int| dots_at(s, i)
}

/// Where the file that the path of a request asks for would stand. A path that
/// names nothing asks for none, nor does one with two dots side by side.
pub open spec fn candidate(rules: PathRules, public_root: Seq<char>, path: Seq<char>) -> Option<
    Seq<char>,
> {
    let name = static_name(path);
    if name.len() == 0 || has_dots(name) {
        None
    } else {
        Some(joined_path(rules, public_root, name))
    }
}

/// Whether a file is never sent as it is: PHP sources and logs, whatever the
/// case of their extension.
pub open spec fn is_hidden(rules: PathRules, file: Seq<char>) -> bool {
    match extension(rules, file) {
        Some(e) => lowercase(e) == "php"@ || lowercase(e) == "log"@,
        None => false,
    }
}

/// The file that answers the path of a request, where `is_file` says whether
/// there is a file where it would stand.
pub open spec fn static_file(
    rules: PathRules,
    public_root: Seq<char>,
    path: Seq<char>,
    is_file: bool,
) -> Option<Seq<char>> {
    match candidate(rules, public_root, path) {
        Some(file) => if is_file && !is_hidden(rules, file) {
            Some(file)
        } else {
            None
        },
        None => None,
    }
}

/// Finds where the file that the path of a request asks for would stand.
pub fn static_candidate(rules: PathRules, public_root: &str, path: &str) -> (file: Option<String>)
    ensures
        match file {
            Some(f) => candidate(rules, public_root@, path@) == Some(f@),
            None => candidate(rules, public_root@, path@) is None,
        },
{
    let chars = chars_of(path);
    let mut from: usize = 0;
    assert(path@.skip(0) == path@);
    while from < chars.len() && chars[from] == '/'
        invariant
            chars@ == path@,
            from <= path@.len(),
            without_slashes(path@) == without_slashes(path@.skip(from as int)),
        decreases path@.len() - from,
    {
        assert(path@.skip(from as int).skip(1) == path@.skip(from + 1));
        from = from + 1;
    }
    let ghost rest = path@.skip(from as int);
    let ghost whole = static_name(path@);
    assert(rest == without_slashes(path@));
    let mut name = String::new();
    let mut dots = false;
    for i in from..chars.len()
        invariant
            chars@ == path@,
            from <= i <= chars@.len(),
            rest == path@.skip(from as int),
            whole == rest.map_values(|c: char| slash(c)),
            name@ == whole.take(i - from),
            dots == exists|k: int| dots_at(whole, k) && k + 1 < i - from,
    {
        let c = if chars[i] == '\\' {
            '/'
        } else {
            chars[i]
        };
        let ghost n = i - from;
        assert(whole[n] == c);
        assert(whole.take(n + 1) == whole.take(n).push(c));
        if i > from && c == '.' && chars[i - 1] == '.' {
            assert(whole[n - 1] == '.');
            assert(dots_at(whole, n - 1));
            dots = true;
        } else {
            assert(!dots_at(whole, n - 1)) by {
                if n > 0 {
                    assert(whole[n - 1] == slash(chars@[i - 1]));
                }
            }
        }
        name.push(c);
        assert(dots == exists|k: int| dots_at(whole, k) && k + 1 < n + 1) by {
            if exists|k: int| dots_at(whole, k) && k + 1 < n + 1 {
                let k = choose|k: int| dots_at(whole, k) && k + 1 < n + 1;
                assert(k == n - 1 || k + 1 < n);
            }
        }
    }
    assert(name@ == whole);
    assert(dots == has_dots(whole));
    if from == chars.len() || dots {
        None
    } else {
        Some(join_path(rules, public_root, name.as_str()))
    }
}

/// Finds the file that answers the path of a request. The caller says whether
/// there is a file at the candidate.
pub fn resolve_static_file(
    rules: PathRules,
    public_root: &str,
    path: &str,
    is_file: bool,
) -> (file: Option<String>)
    ensures
        match file {
            Some(f) => static_file(rules, public_root@, path@, is_file) == Some(f@),
            None => static_file(rules, public_root@, path@, is_file) is None,
        },
{
    match static_candidate(rules, public_root, path) {
        Some(file) => {
            let hidden = match path_extension(rules, file.as_str()) {
                Some(e) => {
                    let small = to_lowercase(e);
                    same_text(small.as_str(), "php") || same_text(small.as_str(), "log")
                },
                None => false,
            };
            if is_file && !hidden {
                Some(file)
            } else {
                None
            }
        },
        None => None,
    }
}

/// What is sent is there, and is neither a PHP source nor a log.
pub proof fn law_static_file_may_be_sent(
    rules: PathRules,
    public_root: Seq<char>,
    path: Seq<char>,
    is_file: bool,
)
    ensures
        static_file(rules, public_root, path, is_file) matches Some(file) ==> {
            &&& is_file
            &&& candidate(rules, public_root, path) == Some(file)
            &&& !is_hidden(rules, file)
        },
{
}

/// Whether a name stands for itself wherever it is put: it starts at the root,
/// or has a prefix.
pub open spec fn stands_alone(rules: PathRules, name: Seq<char>) -> bool {
    is_rooted(rules, name) || !(prefix_of(rules, name).0 is Absent)
}

/// Whether a file stands below a directory: what comes after the text of the
/// directory is a separator and more, unless the directory ends in a separator,
/// is empty or is a bare drive.
pub open spec fn is_below(rules: PathRules, directory: Seq<char>, file: Seq<char>) -> bool {
    &&& directory.len() < file.len()
    &&& file.take(directory.len() as int) == directory
    &&& {
        ||| directory.len() == 0
        ||| is_separator(rules, directory.last())
        ||| prefix_of(rules, directory) == (PrefixKind::Drive, directory.len() as int)
        ||| is_separator(rules, file[directory.len() as int])
    }
}

/// The directory that candidates are put below: the public root, where it is
/// verbatim with only its components.
pub open spec fn search_root(rules: PathRules, public_root: Seq<char>) -> Seq<char> {
    if prefix_of(rules, public_root).0 is Verbatim {
        joined_path(rules, public_root, seq!['.'])
    } else {
        public_root
    }
}

/// A candidate stands below the public root, and no two dots stand side by side
/// in what comes after it, unless the name that the request asks for stands for
/// itself: as it does with a backslash right after the slashes at its start. By
/// a verbatim root a name of nothing but `.` is that root itself.
pub proof fn law_candidate_is_below_the_root(
    rules: PathRules,
    public_root: Seq<char>,
    path: Seq<char>,
)
    requires
        !stands_alone(rules, static_name(path)),
    ensures
        candidate(rules, public_root, path) matches Some(file) ==> {
            let directory = search_root(rules, public_root);
            &&& is_below(rules, directory, file) || (prefix_of(rules, public_root).0 is Verbatim
                && file == directory)
            &&& !has_dots(file.skip(directory.len() as int))
        },
{
    if candidate(rules, public_root, path) is Some {
        let name = static_name(path);
        let file = joined_path(rules, public_root, name);
        if prefix_of(rules, public_root).0 is Verbatim {
            lemma_below_a_verbatim_root(public_root, name);
        } else {
            let n = public_root.len() as int;
            assert(file.take(n) == public_root);
            let tail = file.skip(n);
            if tail.len() == name.len() {
                assert(tail == name);
            } else {
                assert(tail == seq![tail[0]] + name);
                lemma_no_dots_across(seq![tail[0]], name);
            }
        }
    }
}

proof fn lemma_no_dots_across(a: Seq<char>, b: Seq<char>)
    requires
        !has_dots(a),
        !has_dots(b),
        a.len() > 0 && b.len() > 0 ==> a.last() != '.' || b[0] != '.',
    ensures
        !has_dots(a + b),
{
    if has_dots(a + b) {
        let i = choose|i: int| dots_at(a + b, i);
        if i + 1 < a.len() {
            assert(dots_at(a, i));
        } else if i >= a.len() {
            assert(dots_at(b, i - a.len()));
        }
    }
}

proof fn lemma_parts_hold_no_dots(name: Seq<char>, from: int)
    requires
        !has_dots(name),
        0 <= from,
    ensures
        forall|i: int|
            0 <= i < parts(PathRules::Windows, false, name, from).len() ==> !has_dots(
                #[trigger] parts(PathRules::Windows, false, name, from)[i],
            ),
    decreases name.len() - from,
{
    let rules = PathRules::Windows;
    if from < name.len() {
        if is_separator(rules, name[from]) {
            lemma_parts_hold_no_dots(name, from + 1);
            assert(parts(rules, false, name, from) == parts(rules, false, name, from + 1));
        } else {
            lemma_part_end(rules, false, name, from);
            let end = part_end(rules, false, name, from);
            let part = name.subrange(from, end);
            lemma_parts_hold_no_dots(name, end);
            if has_dots(part) {
                let k = choose|k: int| dots_at(part, k);
                assert(dots_at(name, from + k));
            }
            let list = parts(rules, false, name, from);
            assert(list == seq![part] + parts(rules, false, name, end));
            assert forall|i: int| 0 <= i < list.len() implies !has_dots(#[trigger] list[i]) by {
                if i > 0 {
                    assert(list[i] == parts(rules, false, name, end)[i - 1]);
                }
            }
        }
    }
}

/// Without `..` each of the components that are followed is kept or left out.
proof fn lemma_followed_adds(list: Seq<Seq<char>>, more: Seq<Seq<char>>)
    requires
        forall|i: int| 0 <= i < more.len() ==> !has_dots(#[trigger] more[i]),
    ensures
        followed(list, more) == list + followed(Seq::empty(), more),
        forall|i: int|
            0 <= i < followed(Seq::empty(), more).len() ==> !has_dots(
                #[trigger] followed(Seq::empty(), more)[i],
            ),
    decreases more.len(),
{
    let none = Seq::<Seq<char>>::empty();
    if more.len() == 0 {
        assert(list + none == list);
    } else {
        let first = more[0];
        let rest = more.skip(1);
        if first.len() == 2 && is_dots(first) {
            assert(first[0] == '.' && first[1] == '.');
            assert(dots_at(first, 0));
        }
        assert forall|i: int| 0 <= i < rest.len() implies !has_dots(#[trigger] rest[i]) by {
            assert(rest[i] == more[i + 1]);
        }
        if is_dots(first) {
            lemma_followed_adds(list, rest);
        } else {
            lemma_followed_adds(list.push(first), rest);
            lemma_followed_adds(none.push(first), rest);
            let kept = followed(none, rest);
            assert(followed(none, more) == none.push(first) + kept);
            assert(list.push(first) + kept == list + (none.push(first) + kept));
            assert forall|i: int| 0 <= i < followed(none, more).len() implies !has_dots(
                #[trigger] followed(none, more)[i],
            ) by {
                if i > 0 {
                    assert(followed(none, more)[i] == kept[i - 1]);
                }
            }
        }
    }
}

proof fn lemma_separated_joins(a: Seq<Seq<char>>, b: Seq<Seq<char>>, between: Seq<char>)
    ensures
        separated(a + b, between) == separated(a, between) + separated(b, between),
    decreases a.len(),
{
    if a.len() == 0 {
        assert(a + b == b);
        assert(separated(a, between) + separated(b, between) == separated(b, between));
    } else {
        assert((a + b).skip(1) == a.skip(1) + b);
        lemma_separated_joins(a.skip(1), b, between);
        assert(separated(a + b, between) == separated(a, between) + separated(b, between));
    }
}

proof fn lemma_separated_holds_no_dots(list: Seq<Seq<char>>)
    requires
        forall|i: int| 0 <= i < list.len() ==> !has_dots(#[trigger] list[i]),
    ensures
        !has_dots(separated(list, seq!['\\'])),
        list.len() > 0 ==> separated(list, seq!['\\']).len() > 0 && separated(list, seq!['\\'])[0]
            == '\\' && !has_dots(separated(list, seq!['\\']).skip(1)),
    decreases list.len(),
{
    let bar = seq!['\\'];
    if list.len() > 0 {
        let first = list[0];
        let rest = list.skip(1);
        assert forall|i: int| 0 <= i < rest.len() implies !has_dots(#[trigger] rest[i]) by {
            assert(rest[i] == list[i + 1]);
        }
        lemma_separated_holds_no_dots(rest);
        let tail = separated(rest, bar);
        lemma_no_dots_across(first, tail);
        lemma_no_dots_across(bar, first + tail);
        assert(separated(list, bar) == bar + (first + tail));
        assert(separated(list, bar).skip(1) == first + tail);
    }
}

proof fn lemma_below_a_verbatim_root(root: Seq<char>, name: Seq<char>)
    requires
        prefix_of(PathRules::Windows, root).0 is Verbatim,
        name.len() > 0,
        !has_dots(name),
        !stands_alone(PathRules::Windows, name),
    ensures
        ({
            let rules = PathRules::Windows;
            let directory = search_root(rules, root);
            let file = joined_path(rules, root, name);
            &&& is_below(rules, directory, file) || file == directory
            &&& !has_dots(file.skip(directory.len() as int))
        }),
{
    let rules = PathRules::Windows;
    let bar = seq!['\\'];
    let none = Seq::<Seq<char>>::empty();
    let dot = seq!['.'];
    let directory = search_root(rules, root);
    let file = joined_path(rules, root, name);
    let prefix = root.take(prefix_of(rules, root).1);
    let start = parts(rules, true, root, body_start(rules, root));
    // The directory holds the components of the root and no others.
    assert(prefix_of(rules, dot).0 is Absent && !is_rooted(rules, dot));
    assert(part_end(rules, false, dot, 0) == 1) by {
        reveal_with_fuel(part_end, 2);
    }
    assert(dot.subrange(0, 1) == dot);
    assert(parts(rules, false, dot, 1) == none);
    assert(parts(rules, false, dot, 0) == seq![dot]);
    assert(seq![dot].skip(1) == none);
    assert(followed(start, none) == start);
    assert(followed(start, seq![dot]) == start);
    // The file holds those of the name besides.
    let more = parts(rules, false, name, 0);
    lemma_parts_hold_no_dots(name, 0);
    lemma_followed_adds(start, more);
    let kept = followed(none, more);
    lemma_separated_joins(start, kept, bar);
    lemma_separated_holds_no_dots(kept);
    let tail = separated(kept, bar);
    if kept.len() == 0 {
        assert(start + kept == start);
        assert(file == directory);
        assert(file.skip(directory.len() as int) == Seq::<char>::empty());
    } else if start.len() > 0 || directory == prefix {
        assert(separated(none, bar) == Seq::<char>::empty());
        assert(directory == prefix + separated(start, bar));
        assert(file == directory + tail);
        assert(file.take(directory.len() as int) == directory);
        assert(file.skip(directory.len() as int) == tail);
    } else {
        assert(directory == prefix.push('\\'));
        assert(file == prefix + tail);
        assert(file.take(directory.len() as int) == directory);
        assert(file.skip(directory.len() as int) == tail.skip(1));
    }
}

/// By the rules of Unix a name stands for itself only where a backslash comes
/// right after the slashes at the start of the path.
pub proof fn law_only_a_backslash_leads_out(path: Seq<char>)
    ensures
        stands_alone(PathRules::Unix, static_name(path)) <==> without_slashes(path).len() > 0
            && without_slashes(path)[0] == '\\',
{
    lemma_no_slash_at_the_start(path);
    if without_slashes(path).len() > 0 {
        assert(static_name(path)[0] == slash(without_slashes(path)[0]));
    }
}

proof fn lemma_no_slash_at_the_start(path: Seq<char>)
    ensures
        without_slashes(path).len() > 0 ==> without_slashes(path)[0] != '/',
    decreases path.len(),
{
    if path.len() > 0 && path[0] == '/' {
        lemma_no_slash_at_the_start(path.skip(1));
    }
}

proof fn lemma_slashes_come_off(path: Seq<char>) -> (k: int)
    ensures
        0 <= k <= path.len(),
        without_slashes(path) == path.skip(k),
        forall|i: int| 0 <= i < k ==> path[i] == '/',
        k < path.len() ==> path[k] != '/',
    decreases path.len(),
{
    if path.len() > 0 && path[0] == '/' {
        let k = lemma_slashes_come_off(path.skip(1));
        assert(path.skip(1).skip(k) == path.skip(k + 1));
        assert forall|i: int| 0 <= i < k + 1 implies path[i] == '/' by {
            if i > 0 {
                assert(path.skip(1)[i - 1] == path[i]);
            }
        }
        k + 1
    } else {
        assert(path.skip(0) == path);
        0
    }
}

/// The path of a request asks for no file where it is nothing but slashes or two
/// dots stand side by side in it, and in no other case.
pub proof fn law_which_paths_ask_for_a_file(
    rules: PathRules,
    public_root: Seq<char>,
    path: Seq<char>,
)
    ensures
        candidate(rules, public_root, path) is None <==> {
            ||| forall|i: int| 0 <= i < path.len() ==> #[trigger] path[i] == '/'
            ||| exists|i: int|
                0 <= i && i + 1 < path.len() && #[trigger] path[i] == '.' && path[i + 1] == '.'
        },
{
    let k = lemma_slashes_come_off(path);
    let name = static_name(path);
    assert forall|i: int| 0 <= i < name.len() implies #[trigger] name[i] == slash(path[k + i]) by {
        assert(path.skip(k)[i] == path[k + i]);
    }
    if forall|i: int| 0 <= i < path.len() ==> #[trigger] path[i] == '/' {
        assert(k == path.len());
    }
    if has_dots(name) {
        let i = choose|i: int| dots_at(name, i);
        assert(path[k + i] == '.' && path[k + i + 1] == '.');
    }
    if exists|i: int|
        0 <= i && i + 1 < path.len() && #[trigger] path[i] == '.' && path[i + 1] == '.' {
        let i = choose|i: int|
            0 <= i && i + 1 < path.len() && #[trigger] path[i] == '.' && path[i + 1] == '.';
        assert(i >= k);
        assert(name[i - k] == '.' && name[i - k + 1] == '.');
        assert(dots_at(name, i - k));
    }
}

/// A file that the path of a request asks for stands below the public root: behind
/// its text and one separator comes the path, without the slashes at its start
/// and with a slash for each backslash, all of it.
pub proof fn law_where_a_file_is_looked_for(
    rules: PathRules,
    public_root: Seq<char>,
    slashes: Seq<char>,
    name: Seq<char>,
)
    requires
        forall|i: int| 0 <= i < slashes.len() ==> #[trigger] slashes[i] == '/',
        name.len() > 0 && name[0] != '/' && name[0] != '\\',
        forall|i: int|
            0 <= i && i + 1 < name.len() ==> !(#[trigger] name[i] == '.' && name[i + 1] == '.'),
        public_root.len() > 0 && public_root.last() != '/',
        rules is Windows ==> {
            &&& public_root.last() != '\\'
            &&& public_root[0] != '\\' && public_root[0] != '/'
            &&& public_root.len() > 2
            &&& name.len() > 1 ==> name[1] != ':'
        },
    ensures
        candidate(rules, public_root, slashes + name) matches Some(file) && {
            let n = public_root.len() as int;
            &&& file.len() == n + 1 + name.len()
            &&& file.take(n) == public_root
            &&& file[n] == if rules is Windows {
                '\\'
            } else {
                '/'
            }
            &&& forall|i: int|
                0 <= i < name.len() ==> #[trigger] file[n + 1 + i] == if name[i] == '\\' {
                    '/'
                } else {
                    name[i]
                }
        },
{
    let path = slashes + name;
    let k = lemma_slashes_come_off(path);
    assert(path[slashes.len() as int] == name[0]);
    if k < slashes.len() {
        assert(path[k] == slashes[k]);
    }
    assert(k == slashes.len());
    assert(path.skip(k) == name);
    let whole = static_name(path);
    assert forall|i: int| 0 <= i < whole.len() implies #[trigger] whole[i] == slash(name[i]) by {}
    if has_dots(whole) {
        let i = choose|i: int| dots_at(whole, i);
        assert(name[i] == '.' && name[i + 1] == '.');
    }
    assert(whole[0] == name[0]);
    if name.len() > 1 {
        assert(whole[1] == slash(name[1]));
    }
    assert(prefix_of(rules, whole).0 is Absent);
    assert(!is_rooted(rules, whole));
    let file = joined_path(rules, public_root, whole);
    let n = public_root.len() as int;
    assert(file.take(n) == public_root);
    assert forall|i: int| 0 <= i < name.len() implies #[trigger] file[n + 1 + i] == if name[i]
        == '\\' {
        '/'
    } else {
        name[i]
    } by {
        assert(file[n + 1 + i] == whole[i]);
    }
}

/// By the rules of Unix a backslash right after the slashes asks for a path from
/// the root: a slash and the rest of the path.
pub proof fn law_where_a_backslash_leads(
    public_root: Seq<char>,
    slashes: Seq<char>,
    name: Seq<char>,
)
    requires
        forall|i: int| 0 <= i < slashes.len() ==> #[trigger] slashes[i] == '/',
        name.len() > 0 && name[0] == '\\',
        forall|i: int|
            0 <= i && i + 1 < name.len() ==> !(#[trigger] name[i] == '.' && name[i + 1] == '.'),
    ensures
        candidate(PathRules::Unix, public_root, slashes + name) matches Some(file) && {
            &&& file.len() == name.len()
            &&& forall|i: int|
                0 <= i < name.len() ==> #[trigger] file[i] == if name[i] == '\\' {
                    '/'
                } else {
                    name[i]
                }
        },
{
    let path = slashes + name;
    let k = lemma_slashes_come_off(path);
    assert(path[slashes.len() as int] == name[0]);
    if k < slashes.len() {
        assert(path[k] == slashes[k]);
    }
    assert(path.skip(slashes.len() as int) == name);
    let whole = static_name(path);
    assert forall|i: int| 0 <= i < whole.len() implies #[trigger] whole[i] == slash(name[i]) by {}
    if has_dots(whole) {
        let i = choose|i: int| dots_at(whole, i);
        assert(name[i] == '.' && name[i + 1] == '.');
    }
    assert(whole[0] == '/');
    law_unix_paths_are_joined_by_one_slash(public_root, whole);
}

/// Whether a character is a given small letter or its capital.
pub open spec fn is_letter(c: char, small: char) -> bool {
    c == small || c as int == small as int - 32
}

proof fn lemma_letter(c: char, small: char)
    requires
        97 <= small as int <= 122,
    ensures
        lower(c) == small <==> is_letter(c, small),
{
    lemma_lower(c);
}

/// A file is hidden just where its extension has the letters `php` or `log`, each
/// of them small or capital.
pub proof fn law_sources_and_logs_are_hidden(rules: PathRules, file: Seq<char>)
    ensures
        is_hidden(rules, file) <==> (extension(rules, file) matches Some(e) && e.len() == 3 && {
            ||| is_letter(e[0], 'p') && is_letter(e[1], 'h') && is_letter(e[2], 'p')
            ||| is_letter(e[0], 'l') && is_letter(e[1], 'o') && is_letter(e[2], 'g')
        }),
{
    reveal_strlit("php");
    reveal_strlit("log");
    let php = "php"@;
    let log = "log"@;
    assert(php.len() == 3 && php[0] == 'p' && php[1] == 'h' && php[2] == 'p');
    assert(log.len() == 3 && log[0] == 'l' && log[1] == 'o' && log[2] == 'g');
    if let Some(e) = extension(rules, file) {
        let small = lowercase(e);
        assert(small.len() == e.len());
        if e.len() == 3 {
            assert(small[0] == lower(e[0]) && small[1] == lower(e[1]) && small[2] == lower(e[2]));
            lemma_letter(e[0], 'p');
            lemma_letter(e[1], 'h');
            lemma_letter(e[2], 'p');
            lemma_letter(e[0], 'l');
            lemma_letter(e[1], 'o');
            lemma_letter(e[2], 'g');
            assert(small == php <==> small[0] == 'p' && small[1] == 'h' && small[2] == 'p') by {
                if small[0] == 'p' && small[1] == 'h' && small[2] == 'p' {
                    assert(small =~= php);
                }
            }
            assert(small == log <==> small[0] == 'l' && small[1] == 'o' && small[2] == 'g') by {
                if small[0] == 'l' && small[1] == 'o' && small[2] == 'g' {
                    assert(small =~= log);
                }
            }
        }
    }
}

/// A file that is asked for is sent where it is there and not hidden, and in no
/// other case.
pub proof fn law_what_may_be_sent_is_sent(
    rules: PathRules,
    public_root: Seq<char>,
    path: Seq<char>,
)
    ensures
        static_file(rules, public_root, path, false) is None,
        candidate(rules, public_root, path) is None ==> static_file(
            rules,
            public_root,
            path,
            true,
        ) is None,
        candidate(rules, public_root, path) matches Some(file) ==> static_file(
            rules,
            public_root,
            path,
            true,
        ) == if is_hidden(rules, file) {
            None
        } else {
            Some(file)
        },
{
}

/// What the path of a request asks for is put below the public root as any path
/// is: the path without the slashes at its start, with a slash for each backslash.
pub proof fn law_a_file_is_looked_for_below_the_root(
    rules: PathRules,
    public_root: Seq<char>,
    slashes: Seq<char>,
    name: Seq<char>,
)
    requires
        forall|i: int| 0 <= i < slashes.len() ==> #[trigger] slashes[i] == '/',
        name.len() > 0 && name[0] != '/',
        forall|i: int|
            0 <= i && i + 1 < name.len() ==> !(#[trigger] name[i] == '.' && name[i + 1] == '.'),
    ensures
        candidate(rules, public_root, slashes + name) == Some(
            joined_path(
                rules,
                public_root,
                Seq::new(
                    name.len(),
                    |i: int|
                        if name[i] == '\\' {
                            '/'
                        } else {
                            name[i]
                        },
                ),
            ),
        ),
{
    let path = slashes + name;
    let k = lemma_slashes_come_off(path);
    assert(path[slashes.len() as int] == name[0]);
    if k < slashes.len() {
        assert(path[k] == slashes[k]);
    }
    assert(path.skip(slashes.len() as int) == name);
    let whole = static_name(path);
    assert forall|i: int| 0 <= i < whole.len() implies #[trigger] whole[i] == slash(name[i]) by {}
    if has_dots(whole) {
        let i = choose|i: int| dots_at(whole, i);
        assert(name[i] == '.' && name[i + 1] == '.');
    }
    assert(whole =~= Seq::new(
        name.len(),
        |i: int|
            if name[i] == '\\' {
                '/'
            } else {
                name[i]
            },
    ));
}

} // verus!
