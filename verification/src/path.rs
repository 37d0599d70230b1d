//! File paths as texts, by the rules of the system that they are for.
use vstd::prelude::*;

use crate::text::chars_of;
use crate::text::same_text;
use crate::text::separated;
use crate::text::text_of;
use crate::text::texts;

verus! {

/// Whose rules paths go by.
#[derive(Clone, Copy)]
pub enum PathRules {
    /// Components stand between `/`.
    Unix,
    /// Components stand between `\` or `/`, and a prefix may stand before them.
    Windows,
}

/// What may stand before the components of a path.
#[derive(Clone, Copy)]
pub enum PrefixKind {
    Absent,
    /// `C:`
    Drive,
    /// `\\server\share`
    Share,
    /// `\\.\device`
    Device,
    /// `\\?\`, before a drive, a share or a name: in such a path only `\` stands
    /// between components, and `.` is one.
    Verbatim,
}

/// Whether a character stands between components.
pub open spec fn is_separator(rules: PathRules, c: char) -> bool {
    c == '/' || (rules is Windows && c == '\\')
}

/// The character that is put between components.
pub open spec fn separator(rules: PathRules) -> char {
    match rules {
        PathRules::Unix => '/',
        PathRules::Windows => '\\',
    }
}

/// Whether a character stands between the components of a path, verbatim or not.
pub open spec fn is_cut(rules: PathRules, verbatim: bool, c: char) -> bool {
    if verbatim {
        c == '\\'
    } else {
        is_separator(rules, c)
    }
}

/// Whether a text starts as a path from the root does.
pub open spec fn is_rooted(rules: PathRules, path: Seq<char>) -> bool {
    path.len() > 0 && is_separator(rules, path[0])
}

/// Where the component that starts at `from` ends.
pub open spec fn part_end(rules: PathRules, verbatim: bool, path: Seq<char>, from: int) -> int
    decreases path.len() - from,
{
    if from >= path.len() {
        path.len() as int
    } else if is_cut(rules, verbatim, path[from]) {
        from
    } else {
        part_end(rules, verbatim, path, from + 1)
    }
}

/// Whether a drive stands at `i`: an ASCII letter and a colon.
pub open spec fn drive_at(path: Seq<char>, i: int) -> bool {
    &&& i + 1 < path.len()
    &&& ('a' <= path[i] && path[i] <= 'z') || ('A' <= path[i] && path[i] <= 'Z')
    &&& path[i + 1] == ':'
}

/// Whether a path starts with `\\?\`.
pub open spec fn is_verbatim(path: Seq<char>) -> bool {
    path.len() >= 4 && path[0] == '\\' && path[1] == '\\' && path[2] == '?' && path[3] == '\\'
}

/// Where the prefix of a verbatim path ends: after `UNC`, a server and a share,
/// after a drive, or after one name.
pub open spec fn verbatim_end(path: Seq<char>) -> int {
    let rules = PathRules::Windows;
    if path.len() >= 8 && path[4] == 'U' && path[5] == 'N' && path[6] == 'C' && is_separator(
        rules,
        path[7],
    ) {
        let server = part_end(rules, true, path, 8);
        let share = part_end(rules, true, path, server + 1);
        if server + 1 < share {
            share
        } else {
            server
        }
    } else if drive_at(path, 4) && (path.len() == 6 || is_separator(rules, path[6])) {
        6
    } else {
        part_end(rules, true, path, 4)
    }
}

/// The prefix of a path: of what kind it is, and where it ends.
pub open spec fn prefix_of(rules: PathRules, path: Seq<char>) -> (PrefixKind, int) {
    if rules is Unix {
        (PrefixKind::Absent, 0)
    } else if path.len() >= 2 && is_separator(rules, path[0]) && is_separator(rules, path[1]) {
        let server = part_end(rules, false, path, 2);
        let share = part_end(rules, false, path, server + 1);
        if is_verbatim(path) {
            (PrefixKind::Verbatim, verbatim_end(path))
        } else if path.len() >= 4 && path[2] == '.' && is_separator(rules, path[3]) {
            (PrefixKind::Device, part_end(rules, false, path, 4))
        } else if 2 < server && server + 1 < share {
            (PrefixKind::Share, share)
        } else {
            (PrefixKind::Absent, 0)
        }
    } else if drive_at(path, 0) {
        (PrefixKind::Drive, 2)
    } else {
        (PrefixKind::Absent, 0)
    }
}

/// Where the components of a path start: after its prefix and its root.
pub open spec fn body_start(rules: PathRules, path: Seq<char>) -> int {
    let prefix = prefix_of(rules, path).1;
    if prefix < path.len() && is_separator(rules, path[prefix]) {
        prefix + 1
    } else {
        prefix
    }
}

/// The components of a path from `from` on.
pub open spec fn parts(rules: PathRules, verbatim: bool, path: Seq<char>, from: int) -> Seq<
    Seq<char>,
>
    decreases path.len() - from,
{
    let end = part_end(rules, verbatim, path, from);
    if from < 0 || from >= path.len() {
        Seq::empty()
    } else if is_cut(rules, verbatim, path[from]) {
        parts(rules, verbatim, path, from + 1)
    } else {
        proof {
            lemma_part_end(rules, verbatim, path, from);
        }
        seq![path.subrange(from, end)] + parts(rules, verbatim, path, end)
    }
}

/// Whether a component only says where to go: `.` or `..`.
pub open spec fn is_dots(part: Seq<char>) -> bool {
    part == seq!['.'] || part == seq!['.', '.']
}

/// The components that come of following others one by one: `.` leads nowhere,
/// `..` leads back over a name.
pub open spec fn followed(list: Seq<Seq<char>>, more: Seq<Seq<char>>) -> Seq<Seq<char>>
    decreases more.len(),
{
    if more.len() == 0 {
        list
    } else if !is_dots(more[0]) {
        followed(list.push(more[0]), more.skip(1))
    } else if more[0].len() == 2 && list.len() > 0 && !is_dots(list.last()) {
        followed(list.drop_last(), more.skip(1))
    } else {
        followed(list, more.skip(1))
    }
}

/// A path that stands below a verbatim one. As `.` and `..` mean nothing in such
/// a path, they are followed here.
pub open spec fn verbatim_joined(base: Seq<char>, path: Seq<char>) -> Seq<char> {
    let rules = PathRules::Windows;
    let prefix = prefix_of(rules, base).1;
    let rooted = is_rooted(rules, path);
    let start = if rooted {
        Seq::empty()
    } else {
        parts(rules, true, base, body_start(rules, base))
    };
    let list = followed(start, parts(rules, false, path, 0));
    if list.len() == 0 && (rooted || prefix < body_start(rules, base)) {
        base.take(prefix).push('\\')
    } else {
        base.take(prefix) + separated(list, seq!['\\'])
    }
}

/// A path that stands below another one. One that starts at the root keeps no
/// more of the other than its prefix, one with a prefix keeps nothing of it.
pub open spec fn joined_path(rules: PathRules, base: Seq<char>, path: Seq<char>) -> Seq<char> {
    let (kind, end) = prefix_of(rules, base);
    if !(prefix_of(rules, path).0 is Absent) {
        path
    } else if kind is Verbatim && path.len() > 0 {
        verbatim_joined(base, path)
    } else if is_rooted(rules, path) {
        base.take(end) + path
    } else if base.len() == 0 || is_separator(rules, base.last()) || (kind is Drive && base.len()
        == 2) {
        base + path
    } else {
        base.push(separator(rules)) + path
    }
}

/// The components of a path without what adds none at its end: a separator, and
/// `.` after one.
pub open spec fn settled(rules: PathRules, verbatim: bool, body: Seq<char>) -> Seq<char>
    decreases body.len(),
{
    if body.len() > 0 && is_cut(rules, verbatim, body.last()) {
        settled(rules, verbatim, body.drop_last())
    } else if !verbatim && body.len() > 1 && body.last() == '.' && is_separator(
        rules,
        body[body.len() - 2],
    ) {
        settled(rules, verbatim, body.take(body.len() - 2))
    } else {
        body
    }
}

/// The place where the last component of a path starts.
pub open spec fn last_part(rules: PathRules, verbatim: bool, body: Seq<char>) -> nat
    decreases body.len(),
{
    if body.len() == 0 || is_cut(rules, verbatim, body.last()) {
        body.len()
    } else {
        last_part(rules, verbatim, body.drop_last())
    }
}

/// The place after the last `.` in a text: 0 where there is none.
pub open spec fn after_dot(s: Seq<char>) -> nat
    decreases s.len(),
{
    if s.len() == 0 || s.last() == '.' {
        s.len()
    } else {
        after_dot(s.drop_last())
    }
}

/// The last component of a path, where that is a name: not a prefix, the root,
/// `.` or `..`.
pub open spec fn file_name(rules: PathRules, path: Seq<char>) -> Option<Seq<char>> {
    let verbatim = prefix_of(rules, path).0 is Verbatim;
    let body = settled(rules, verbatim, path.skip(body_start(rules, path)));
    let name = body.skip(last_part(rules, verbatim, body) as int);
    if name.len() == 0 || is_dots(name) {
        None
    } else {
        Some(name)
    }
}

/// What stands after the last `.` in the file name of a path, where that `.` is
/// not the first character of the name.
pub open spec fn extension(rules: PathRules, path: Seq<char>) -> Option<Seq<char>> {
    match file_name(rules, path) {
        Some(name) => {
            let k = after_dot(name);
            if k <= 1 {
                None
            } else {
                Some(name.skip(k as int))
            }
        },
        None => None,
    }
}

/// A component ends at a separator or at the end of the path.
pub proof fn lemma_part_end(rules: PathRules, verbatim: bool, path: Seq<char>, from: int)
    ensures
        part_end(rules, verbatim, path, from) <= path.len(),
        from <= path.len() ==> from <= part_end(rules, verbatim, path, from),
        0 <= from < path.len() && !is_cut(rules, verbatim, path[from]) ==> from < part_end(
            rules,
            verbatim,
            path,
            from,
        ),
        forall|i: int|
            from <= i < part_end(rules, verbatim, path, from) ==> !is_cut(
                rules,
                verbatim,
                #[trigger] path[i],
            ),
    decreases path.len() - from,
{
    if from < path.len() && !is_cut(rules, verbatim, path[from]) {
        lemma_part_end(rules, verbatim, path, from + 1);
    }
}

/// A prefix ends within its path.
pub proof fn lemma_prefix_of(rules: PathRules, path: Seq<char>)
    ensures
        0 <= prefix_of(rules, path).1 <= path.len(),
        prefix_of(rules, path).1 <= body_start(rules, path) <= path.len(),
{
    lemma_part_end(rules, false, path, 2);
    lemma_part_end(rules, false, path, part_end(rules, false, path, 2) + 1);
    lemma_part_end(rules, false, path, 4);
    lemma_part_end(rules, true, path, 4);
    lemma_part_end(rules, true, path, 8);
    lemma_part_end(rules, true, path, part_end(rules, true, path, 8) + 1);
}

proof fn lemma_separated_push(list: Seq<Seq<char>>, part: Seq<char>, between: Seq<char>)
    ensures
        separated(list.push(part), between) == separated(list, between) + between + part,
    decreases list.len(),
{
    if list.len() == 0 {
        assert(list.push(part).skip(1) == Seq::<Seq<char>>::empty());
        assert(separated(list.push(part).skip(1), between) == Seq::<char>::empty());
        assert(separated(list.push(part), between) == separated(list, between) + between + part);
    } else {
        assert(list.push(part).skip(1) == list.skip(1).push(part));
        lemma_separated_push(list.skip(1), part, between);
        assert(separated(list.push(part), between) == separated(list, between) + between + part);
    }
}

/// Whether a text is a name like any other: no separator and no colon stands in
/// it, and it is neither empty nor `.` or `..`.
pub open spec fn is_plain_name(name: Seq<char>) -> bool {
    &&& name.len() > 0
    &&& !is_dots(name)
    &&& forall|i: int|
        0 <= i < name.len() ==> #[trigger] name[i] != '/' && name[i] != '\\' && name[i] != ':'
}

/// Whatever a name is put below, the path ends with it.
pub proof fn law_joined_path_ends_with_the_name(
    rules: PathRules,
    base: Seq<char>,
    name: Seq<char>,
)
    requires
        is_plain_name(name),
    ensures
        ({
            let whole = joined_path(rules, base, name);
            name.len() <= whole.len() && whole.skip(whole.len() - name.len()) == name
        }),
{
    let whole = joined_path(rules, base, name);
    assert(prefix_of(rules, name).0 is Absent);
    assert(!is_rooted(rules, name));
    if prefix_of(rules, base).0 is Verbatim {
        let windows = PathRules::Windows;
        let n = name.len() as int;
        lemma_part_end(windows, false, name, 0);
        let end = part_end(windows, false, name, 0);
        if end < n {
            lemma_part_end_is_cut(windows, false, name, 0);
        }
        assert(name.subrange(0, n) == name);
        assert(parts(windows, false, name, n) == Seq::<Seq<char>>::empty());
        assert(parts(windows, false, name, 0) == seq![name]);
        let start = parts(windows, true, base, body_start(windows, base));
        assert(seq![name].skip(1) == Seq::<Seq<char>>::empty());
        assert(followed(start.push(name), Seq::<Seq<char>>::empty()) == start.push(name));
        assert(followed(start, seq![name]) == start.push(name));
        lemma_separated_push(start, name, seq!['\\']);
        assert(whole.skip(whole.len() - n) == name);
    } else {
        assert(whole.skip(whole.len() - name.len()) == name);
    }
}

proof fn lemma_part_end_is_cut(rules: PathRules, verbatim: bool, path: Seq<char>, from: int)
    requires
        0 <= from,
        part_end(rules, verbatim, path, from) < path.len(),
    ensures
        is_cut(rules, verbatim, path[part_end(rules, verbatim, path, from)]),
    decreases path.len() - from,
{
    if !is_cut(rules, verbatim, path[from]) {
        lemma_part_end_is_cut(rules, verbatim, path, from + 1);
    }
}

/// Whether a character stands between components.
pub fn separates(rules: PathRules, c: char) -> (yes: bool)
    ensures
        yes == is_separator(rules, c),
{
    match rules {
        PathRules::Unix => c == '/',
        PathRules::Windows => c == '/' || c == '\\',
    }
}

fn cuts(rules: PathRules, verbatim: bool, c: char) -> (yes: bool)
    ensures
        yes == is_cut(rules, verbatim, c),
{
    if verbatim {
        c == '\\'
    } else {
        separates(rules, c)
    }
}

fn find_part_end(rules: PathRules, verbatim: bool, path: &Vec<char>, from: usize) -> (end: usize)
    requires
        from <= path@.len() + 1,
    ensures
        end == part_end(rules, verbatim, path@, from as int),
{
    if from >= path.len() {
        return path.len();
    }
    let mut end: usize = from;
    while end < path.len() && !cuts(rules, verbatim, path[end])
        invariant
            from <= end <= path@.len(),
            part_end(rules, verbatim, path@, from as int) == part_end(
                rules,
                verbatim,
                path@,
                end as int,
            ),
        decreases path@.len() - end,
    {
        end = end + 1;
    }
    end
}

fn finds_drive(path: &Vec<char>, i: usize) -> (yes: bool)
    requires
        i <= 4,
    ensures
        yes == drive_at(path@, i as int),
{
    i + 1 < path.len() && (('a' <= path[i] && path[i] <= 'z') || ('A' <= path[i] && path[i] <= 'Z'))
        && path[i + 1] == ':'
}

fn find_verbatim_end(path: &Vec<char>) -> (end: usize)
    requires
        path@.len() >= 4,
    ensures
        end == verbatim_end(path@),
{
    let rules = PathRules::Windows;
    if path.len() >= 8 && path[4] == 'U' && path[5] == 'N' && path[6] == 'C' && separates(
        rules,
        path[7],
    ) {
        let server = find_part_end(rules, true, path, 8);
        proof {
            lemma_part_end(rules, true, path@, 8);
        }
        if server < path.len() {
            let share = find_part_end(rules, true, path, server + 1);
            if server + 1 < share {
                share
            } else {
                server
            }
        } else {
            server
        }
    } else if finds_drive(path, 4) && (path.len() == 6 || separates(rules, path[6])) {
        6
    } else {
        find_part_end(rules, true, path, 4)
    }
}

/// Finds the prefix of a path.
fn find_prefix(rules: PathRules, path: &Vec<char>) -> (prefix: (PrefixKind, usize))
    ensures
        (prefix.0, prefix.1 as int) == prefix_of(rules, path@),
{
    if let PathRules::Unix = rules {
        return (PrefixKind::Absent, 0);
    }
    if path.len() >= 2 && separates(rules, path[0]) && separates(rules, path[1]) {
        if path.len() >= 4 && path[0] == '\\' && path[1] == '\\' && path[2] == '?' && path[3]
            == '\\' {
            return (PrefixKind::Verbatim, find_verbatim_end(path));
        }
        if path.len() >= 4 && path[2] == '.' && separates(rules, path[3]) {
            return (PrefixKind::Device, find_part_end(rules, false, path, 4));
        }
        let server = find_part_end(rules, false, path, 2);
        proof {
            lemma_part_end(rules, false, path@, 2);
        }
        if 2 < server && server < path.len() {
            let share = find_part_end(rules, false, path, server + 1);
            if server + 1 < share {
                return (PrefixKind::Share, share);
            }
        }
        (PrefixKind::Absent, 0)
    } else if finds_drive(path, 0) {
        (PrefixKind::Drive, 2)
    } else {
        (PrefixKind::Absent, 0)
    }
}

/// Finds where the components of a path start.
fn find_body(rules: PathRules, path: &Vec<char>, prefix: usize) -> (start: usize)
    requires
        prefix == prefix_of(rules, path@).1,
    ensures
        start == body_start(rules, path@),
        prefix <= start <= path@.len(),
{
    proof {
        lemma_prefix_of(rules, path@);
    }
    if prefix < path.len() && separates(rules, path[prefix]) {
        prefix + 1
    } else {
        prefix
    }
}

/// Splits a path into its components.
fn split_parts(rules: PathRules, verbatim: bool, path: &Vec<char>, from: usize) -> (list: Vec<
    String,
>)
    requires
        from <= path@.len(),
    ensures
        texts(list@) == parts(rules, verbatim, path@, from as int),
{
    let mut list: Vec<String> = Vec::new();
    let mut i: usize = from;
    assert(texts(list@) == Seq::<Seq<char>>::empty());
    while i < path.len()
        invariant
            i <= path@.len(),
            parts(rules, verbatim, path@, from as int) == texts(list@) + parts(
                rules,
                verbatim,
                path@,
                i as int,
            ),
        decreases path@.len() - i,
    {
        if cuts(rules, verbatim, path[i]) {
            i = i + 1;
        } else {
            proof {
                lemma_part_end(rules, verbatim, path@, i as int);
            }
            let end = find_part_end(rules, verbatim, path, i);
            let part = text_of(path, i, end);
            let ghost shorter = list@;
            list.push(part);
            assert(texts(list@) == texts(shorter) + seq![part@]);
            assert(parts(rules, verbatim, path@, i as int) == seq![part@] + parts(
                rules,
                verbatim,
                path@,
                end as int,
            ));
            i = end;
        }
    }
    list
}

fn finds_dots(part: &str) -> (yes: bool)
    ensures
        yes == is_dots(part@),
{
    proof {
        reveal_strlit(".");
        reveal_strlit("..");
    }
    assert("."@ =~= seq!['.']);
    assert(".."@ =~= seq!['.', '.']);
    same_text(part, ".") || same_text(part, "..")
}

/// Follows components one by one.
fn follow(list: &mut Vec<String>, more: &Vec<String>)
    ensures
        texts(final(list)@) == followed(texts(old(list)@), texts(more@)),
{
    let ghost all = texts(more@);
    assert(all.skip(0) == all);
    for i in 0..more.len()
        invariant
            all == texts(more@),
            followed(texts(old(list)@), all) == followed(texts(list@), all.skip(i as int)),
    {
        let ghost rest = all.skip(i as int);
        let ghost now = list@;
        assert(rest[0] == more@[i as int]@);
        assert(rest.skip(1) == all.skip(i + 1));
        if !finds_dots(more[i].as_str()) {
            let part = more[i].clone();
            list.push(part);
            assert(texts(list@) == texts(now).push(rest[0]));
        } else if same_text(more[i].as_str(), "..") && list.len() > 0 && !finds_dots(
            list[list.len() - 1].as_str(),
        ) {
            proof {
                reveal_strlit("..");
            }
            let _ = list.pop();
            assert(texts(list@) == texts(now).drop_last());
        } else {
            proof {
                reveal_strlit("..");
            }
            assert(rest[0].len() == 2 ==> rest[0] =~= ".."@);
        }
    }
    assert(all.skip(all.len() as int) == Seq::<Seq<char>>::empty());
}

/// Puts each component after a separator behind a text.
fn push_parts(whole: &mut String, list: &Vec<String>)
    ensures
        final(whole)@ == old(whole)@ + separated(texts(list@), seq!['\\']),
{
    let ghost all = texts(list@);
    let ghost start = whole@;
    assert(all.skip(0) == all);
    for i in 0..list.len()
        invariant
            all == texts(list@),
            start + separated(all, seq!['\\']) == whole@ + separated(
                all.skip(i as int),
                seq!['\\'],
            ),
    {
        let ghost now = whole@;
        assert(all.skip(i as int).skip(1) == all.skip(i + 1));
        whole.push('\\');
        whole.append(list[i].as_str());
        assert(whole@ == now + (seq!['\\'] + all[i as int]));
        assert(now + separated(all.skip(i as int), seq!['\\']) == whole@ + separated(
            all.skip(i + 1),
            seq!['\\'],
        ));
    }
    assert(all.skip(all.len() as int) == Seq::<Seq<char>>::empty());
}

fn join_verbatim(base: &Vec<char>, prefix: usize, path: &Vec<char>) -> (whole: String)
    requires
        prefix == prefix_of(PathRules::Windows, base@).1,
    ensures
        whole@ == verbatim_joined(base@, path@),
{
    let rules = PathRules::Windows;
    let rooted = path.len() > 0 && separates(rules, path[0]);
    let body = find_body(rules, base, prefix);
    let mut list: Vec<String> = if rooted {
        Vec::new()
    } else {
        split_parts(rules, true, base, body)
    };
    assert(rooted ==> texts(list@) == Seq::<Seq<char>>::empty());
    follow(&mut list, &split_parts(rules, false, path, 0));
    assert(texts(list@).len() == list@.len());
    let mut whole = text_of(base, 0, prefix);
    assert(base@.subrange(0, prefix as int) == base@.take(prefix as int));
    if list.len() == 0 && (rooted || prefix < body) {
        whole.push('\\');
    } else {
        push_parts(&mut whole, &list);
    }
    whole
}

/// Joins two paths.
pub fn join_path(rules: PathRules, base: &str, path: &str) -> (whole: String)
    ensures
        whole@ == joined_path(rules, base@, path@),
{
    let front = chars_of(base);
    let back = chars_of(path);
    let (kind, end) = find_prefix(rules, &front);
    proof {
        lemma_prefix_of(rules, base@);
    }
    if let PrefixKind::Absent = find_prefix(rules, &back).0 {
    } else {
        return path.to_owned();
    }
    if let PrefixKind::Verbatim = kind {
        if back.len() > 0 {
            return join_verbatim(&front, end, &back);
        }
    }
    if back.len() > 0 && separates(rules, back[0]) {
        let mut whole = text_of(&front, 0, end);
        assert(base@.subrange(0, end as int) == base@.take(end as int));
        whole.append(path);
        return whole;
    }
    let bare = match kind {
        PrefixKind::Drive => front.len() == 2,
        _ => false,
    };
    let mut whole = base.to_owned();
    if front.len() > 0 && !separates(rules, front[front.len() - 1]) && !bare {
        whole.push(
            match rules {
                PathRules::Unix => '/',
                PathRules::Windows => '\\',
            },
        );
    }
    whole.append(path);
    whole
}

/// The end of the last component of a path that counts.
fn find_settled(rules: PathRules, verbatim: bool, path: &Vec<char>, from: usize) -> (to: usize)
    requires
        from <= path@.len(),
    ensures
        from <= to <= path@.len(),
        path@.subrange(from as int, to as int) == settled(
            rules,
            verbatim,
            path@.skip(from as int),
        ),
{
    let mut to: usize = path.len();
    assert(path@.subrange(from as int, to as int) == path@.skip(from as int));
    loop
        invariant
            from <= to <= path@.len(),
            settled(rules, verbatim, path@.skip(from as int)) == settled(
                rules,
                verbatim,
                path@.subrange(from as int, to as int),
            ),
        ensures
            settled(rules, verbatim, path@.skip(from as int)) == path@.subrange(
                from as int,
                to as int,
            ),
        decreases to,
    {
        let ghost body = path@.subrange(from as int, to as int);
        if from < to && cuts(rules, verbatim, path[to - 1]) {
            assert(body.drop_last() == path@.subrange(from as int, to - 1));
            to = to - 1;
        } else if !verbatim && to - from > 1 && path[to - 1] == '.' && separates(
            rules,
            path[to - 2],
        ) {
            assert(body.take(body.len() - 2) == path@.subrange(from as int, to - 2));
            to = to - 2;
        } else {
            break ;
        }
    }
    to
}

fn find_last_part(
    rules: PathRules,
    verbatim: bool,
    path: &Vec<char>,
    from: usize,
    to: usize,
) -> (start: usize)
    requires
        from <= to <= path@.len(),
    ensures
        from <= start <= to,
        start - from == last_part(rules, verbatim, path@.subrange(from as int, to as int)),
{
    let mut start: usize = to;
    while from < start && !cuts(rules, verbatim, path[start - 1])
        invariant
            from <= start <= to <= path@.len(),
            last_part(rules, verbatim, path@.subrange(from as int, to as int)) == last_part(
                rules,
                verbatim,
                path@.subrange(from as int, start as int),
            ),
        decreases start,
    {
        assert(path@.subrange(from as int, start as int).drop_last() == path@.subrange(
            from as int,
            start - 1,
        ));
        start = start - 1;
    }
    start
}

fn find_after_dot(path: &Vec<char>, from: usize, to: usize) -> (k: usize)
    requires
        from <= to <= path@.len(),
    ensures
        k <= to - from,
        k == after_dot(path@.subrange(from as int, to as int)),
{
    let mut k: usize = to;
    while from < k && path[k - 1] != '.'
        invariant
            from <= k <= to <= path@.len(),
            after_dot(path@.subrange(from as int, to as int)) == after_dot(
                path@.subrange(from as int, k as int),
            ),
        decreases k,
    {
        assert(path@.subrange(from as int, k as int).drop_last() == path@.subrange(
            from as int,
            k - 1,
        ));
        k = k - 1;
    }
    k - from
}

/// Finds the extension of a path.
pub fn path_extension(rules: PathRules, path: &str) -> (found: Option<&str>)
    ensures
        match found {
            Some(e) => extension(rules, path@) == Some(e@),
            None => extension(rules, path@) is None,
        },
{
    let chars = chars_of(path);
    let (kind, prefix) = find_prefix(rules, &chars);
    let verbatim = match kind {
        PrefixKind::Verbatim => true,
        _ => false,
    };
    let from = find_body(rules, &chars, prefix);
    let to = find_settled(rules, verbatim, &chars, from);
    let ghost body = path@.subrange(from as int, to as int);
    let start = find_last_part(rules, verbatim, &chars, from, to);
    let ghost name = path@.subrange(start as int, to as int);
    assert(body.skip(start - from) == name);
    if start == to || finds_dots(path.substring_char(start, to)) {
        return None;
    }
    let k = find_after_dot(&chars, start, to);
    if k <= 1 {
        None
    } else {
        assert(path@.subrange(start + k, to as int) == name.skip(k as int));
        Some(path.substring_char(start + k, to))
    }
}

/// By the rules of Unix a path from the root stays as it is wherever it is put.
/// Another one comes right behind a base that is empty or ends in a slash, and
/// behind one slash otherwise.
pub proof fn law_unix_paths_are_joined_by_one_slash(base: Seq<char>, path: Seq<char>)
    ensures
        ({
            let whole = joined_path(PathRules::Unix, base, path);
            if path.len() > 0 && path[0] == '/' {
                whole == path
            } else if base.len() == 0 || base.last() == '/' {
                whole == base + path
            } else {
                whole == base + seq!['/'] + path
            }
        }),
{
    assert(base.take(0) + path == path);
    assert(base.push('/') + path == base + seq!['/'] + path);
}

/// Whether a text starts with a drive: a letter and a colon.
pub open spec fn starts_with_drive(path: Seq<char>) -> bool {
    &&& path.len() >= 2 && path[1] == ':'
    &&& ('a' <= path[0] && path[0] <= 'z') || ('A' <= path[0] && path[0] <= 'Z')
}

/// By the rules of Windows a path without a drive and without a separator at its
/// start comes behind one backslash, but right behind a base that is empty, ends
/// in a separator or is a bare drive. A base that starts with `\\?\` is another
/// matter.
pub proof fn law_windows_paths_are_joined_by_one_backslash(base: Seq<char>, path: Seq<char>)
    requires
        !starts_with_drive(path),
        path.len() > 0 ==> path[0] != '\\' && path[0] != '/',
        !(base.len() >= 4 && base[0] == '\\' && base[1] == '\\' && base[2] == '?' && base[3]
            == '\\'),
    ensures
        ({
            let whole = joined_path(PathRules::Windows, base, path);
            let bare = base.len() == 2 && starts_with_drive(base);
            if base.len() == 0 || base.last() == '\\' || base.last() == '/' || bare {
                whole == base + path
            } else {
                whole == base + seq!['\\'] + path
            }
        }),
{
    assert(prefix_of(PathRules::Windows, path).0 is Absent);
    assert(!is_rooted(PathRules::Windows, path));
    assert(base.push('\\') + path == base + seq!['\\'] + path);
}

/// By the rules of Windows a path with a drive stays as it is wherever it is put.
/// One from the root stays below the drive of the base, and as it is where the
/// base has neither a drive nor a separator at its start.
pub proof fn law_windows_paths_from_the_root(base: Seq<char>, path: Seq<char>)
    ensures
        starts_with_drive(path) ==> joined_path(PathRules::Windows, base, path) == path,
        ({
            let rooted = path.len() > 0 && (path[0] == '\\' || path[0] == '/') && (path.len() > 1
                ==> path[1] != '\\' && path[1] != '/');
            let plain = base.len() > 0 ==> base[0] != '\\' && base[0] != '/';
            rooted && plain ==> joined_path(PathRules::Windows, base, path) == if starts_with_drive(
                base,
            ) {
                base.take(2) + path
            } else {
                path
            }
        }),
{
    assert(base.take(0) + path == path);
}

proof fn lemma_part_end_is(path: Seq<char>, from: int, end: int)
    requires
        0 <= from <= end <= path.len(),
        forall|i: int| from <= i < end ==> #[trigger] path[i] != '\\',
        end < path.len() ==> path[end] == '\\',
    ensures
        part_end(PathRules::Windows, true, path, from) == end,
    decreases end - from,
{
    if from < end {
        assert(path[from] != '\\');
        lemma_part_end_is(path, from + 1, end);
    }
}

proof fn lemma_parts_of_separated(path: Seq<char>, from: int, list: Seq<Seq<char>>)
    requires
        0 <= from <= path.len(),
        path.skip(from) == separated(list, seq!['\\']),
        forall|i: int|
            0 <= i < list.len() ==> (#[trigger] list[i]).len() > 0 && !list[i].contains('\\'),
    ensures
        parts(PathRules::Windows, true, path, from) == list,
    decreases list.len(),
{
    let rules = PathRules::Windows;
    let rest = path.skip(from);
    if list.len() == 0 {
        assert(list == Seq::<Seq<char>>::empty());
    } else {
        let first = list[0];
        let more = list.skip(1);
        let tail = separated(more, seq!['\\']);
        assert(rest == seq!['\\'] + first + tail);
        assert(rest[0] == '\\' && path[from] == rest[0]);
        assert(first.contains(first[0]));
        assert(rest[1] == first[0] && path[from + 1] == rest[1]);
        let end = from + 1 + first.len();
        assert(rest.len() == path.len() - from);
        assert(rest.skip(1 + first.len() as int) == tail);
        assert(path.skip(end) == rest.skip(1 + first.len() as int));
        assert(rest.subrange(1, 1 + first.len() as int) == first);
        assert(path.subrange(from + 1, end) == rest.subrange(1, 1 + first.len() as int));
        assert forall|i: int| from + 1 <= i < end implies #[trigger] path[i] != '\\' by {
            assert(path[i] == rest[i - from] && rest[i - from] == first[i - from - 1]);
            assert(first.contains(first[i - from - 1]));
        }
        if end < path.len() {
            assert(path[end] == tail[0]);
            assert(more.len() > 0);
            assert(tail[0] == '\\');
        }
        lemma_part_end_is(path, from + 1, end);
        assert forall|i: int| 0 <= i < more.len() implies (#[trigger] more[i]).len() > 0
            && !more[i].contains('\\') by {
            assert(more[i] == list[i + 1]);
        }
        lemma_parts_of_separated(path, end, more);
        assert(parts(rules, true, path, from + 1) == seq![first] + more);
        assert(seq![first] + more == list);
    }
}

/// By the rules of Windows a plain name below a verbatim drive and its components
/// comes behind them and one more backslash.
pub proof fn law_windows_names_below_a_verbatim_drive(
    letter: char,
    list: Seq<Seq<char>>,
    name: Seq<char>,
)
    requires
        ('a' <= letter && letter <= 'z') || ('A' <= letter && letter <= 'Z'),
        list.len() > 0,
        forall|i: int|
            0 <= i < list.len() ==> (#[trigger] list[i]).len() > 0 && !list[i].contains('\\'),
        is_plain_name(name),
    ensures
        ({
            let base = seq!['\\', '\\', '?', '\\', letter, ':'] + separated(list, seq!['\\']);
            joined_path(PathRules::Windows, base, name) == base + seq!['\\'] + name
        }),
{
    let rules = PathRules::Windows;
    let drive = seq!['\\', '\\', '?', '\\', letter, ':'];
    let tail = separated(list, seq!['\\']);
    let base = drive + tail;
    assert(tail == seq!['\\'] + list[0] + separated(list.skip(1), seq!['\\']));
    assert(tail[0] == '\\' && base[6] == tail[0]);
    assert(is_verbatim(base) && drive_at(base, 4));
    assert(base[4] == letter && base[5] == ':');
    assert(!(base[5] == 'N'));
    assert(prefix_of(rules, base) == (PrefixKind::Verbatim, 6int));
    assert(base.skip(6) == tail);
    lemma_parts_of_separated(base, 6, list);
    assert(parts(rules, true, base, 7) == list);
    assert(prefix_of(rules, name).0 is Absent);
    assert(!is_rooted(rules, name));
    let n = name.len() as int;
    lemma_part_end(rules, false, name, 0);
    if part_end(rules, false, name, 0) < n {
        lemma_part_end_is_cut(rules, false, name, 0);
    }
    assert(name.subrange(0, n) == name);
    assert(parts(rules, false, name, n) == Seq::<Seq<char>>::empty());
    assert(parts(rules, false, name, 0) == seq![name]);
    assert(seq![name].skip(1) == Seq::<Seq<char>>::empty());
    assert(followed(list.push(name), Seq::<Seq<char>>::empty()) == list.push(name));
    assert(followed(list, seq![name]) == list.push(name));
    lemma_separated_push(list, name, seq!['\\']);
    assert(base.take(6) == drive);
}

proof fn lemma_last_part_is(rules: PathRules, verbatim: bool, front: Seq<char>, name: Seq<char>)
    requires
        front.len() > 0 ==> is_cut(rules, verbatim, front.last()),
        forall|i: int| 0 <= i < name.len() ==> !is_cut(rules, verbatim, #[trigger] name[i]),
    ensures
        last_part(rules, verbatim, front + name) == front.len(),
    decreases name.len(),
{
    let body = front + name;
    if name.len() == 0 {
        assert(body == front);
    } else {
        assert(!is_cut(rules, verbatim, name[name.len() - 1]));
        assert(body.last() == name[name.len() - 1]);
        assert(body.drop_last() == front + name.drop_last());
        assert forall|i: int| 0 <= i < name.drop_last().len() implies !is_cut(
            rules,
            verbatim,
            #[trigger] name.drop_last()[i],
        ) by {
            assert(!is_cut(rules, verbatim, name[i]));
        }
        lemma_last_part_is(rules, verbatim, front, name.drop_last());
    }
}

proof fn lemma_after_dot_is(front: Seq<char>, e: Seq<char>)
    requires
        front.len() > 0 ==> front.last() == '.',
        !e.contains('.'),
    ensures
        after_dot(front + e) == front.len(),
    decreases e.len(),
{
    let s = front + e;
    if e.len() == 0 {
        assert(s == front);
    } else {
        assert(s.last() == e[e.len() - 1] && e.contains(e[e.len() - 1]));
        assert(s.drop_last() == front + e.drop_last());
        assert forall|c: char| e.drop_last().contains(c) implies e.contains(c) by {
            let k = choose|k: int| 0 <= k < e.len() - 1 && e.drop_last()[k] == c;
            assert(e[k] == c);
        }
        lemma_after_dot_is(front, e.drop_last());
    }
}

proof fn lemma_file_name_is(rules: PathRules, directory: Seq<char>, name: Seq<char>)
    requires
        !(prefix_of(rules, directory + name).0 is Verbatim),
        0 <= body_start(rules, directory + name) <= directory.len(),
        directory.len() > 0 ==> is_separator(rules, directory.last()),
        name.len() > 0,
        !is_dots(name),
        forall|i: int| 0 <= i < name.len() ==> !is_separator(rules, #[trigger] name[i]),
    ensures
        file_name(rules, directory + name) == Some(name),
{
    let path = directory + name;
    let from = body_start(rules, path);
    let front = directory.skip(from);
    let body = path.skip(from);
    assert(body == front + name);
    let last = name[name.len() - 1];
    assert(!is_separator(rules, last) && body.last() == last);
    if body.len() > 1 && last == '.' && is_separator(rules, body[body.len() - 2]) {
        if name.len() == 1 {
            assert(name == seq!['.']);
        } else {
            assert(body[body.len() - 2] == name[name.len() - 2]);
        }
    }
    assert(settled(rules, false, body) == body);
    assert(front.len() > 0 ==> front.last() == directory.last());
    lemma_last_part_is(rules, false, front, name);
    assert(body.skip(front.len() as int) == name);
}

/// Whether a directory is one that a name can be put right behind: it is empty or
/// ends in a separator. By the rules of Windows it starts with none, so that
/// nothing but a drive can be its prefix.
pub open spec fn is_front(rules: PathRules, directory: Seq<char>) -> bool {
    match rules {
        PathRules::Unix => directory.len() > 0 ==> directory.last() == '/',
        PathRules::Windows => {
            &&& directory.len() > 0
            &&& directory[0] != '/' && directory[0] != '\\'
            &&& directory.last() == '/' || directory.last() == '\\'
        },
    }
}

proof fn lemma_front_holds_the_prefix(rules: PathRules, directory: Seq<char>, name: Seq<char>)
    requires
        is_front(rules, directory),
        name.len() > 0 ==> name[0] != '/',
    ensures
        !(prefix_of(rules, directory + name).0 is Verbatim),
        0 <= body_start(rules, directory + name) <= directory.len(),
{
    let path = directory + name;
    if rules is Windows {
        assert(path[0] == directory[0]);
        if drive_at(path, 0) {
            if directory.len() == 2 {
                assert(path[1] == directory[1]);
            }
        } else if directory.len() == 1 {
            assert(directory[0] == directory.last());
        }
    } else if directory.len() > 0 {
        assert(path[0] == directory[0]);
    }
}

/// The extension of a file is what stands behind the last dot of its name, all of
/// it and nothing else, where something stands before that dot in the name.
pub proof fn law_extension_stands_behind_the_last_dot(
    rules: PathRules,
    directory: Seq<char>,
    stem: Seq<char>,
    e: Seq<char>,
)
    requires
        is_front(rules, directory),
        stem.len() > 0,
        !stem.contains('/') && !e.contains('/') && !e.contains('.'),
        rules is Windows ==> !stem.contains('\\') && !e.contains('\\'),
        e.len() == 0 ==> stem != seq!['.'],
    ensures
        extension(rules, directory + (stem + seq!['.'] + e)) == Some(e),
{
    let name = stem + seq!['.'] + e;
    assert forall|i: int| 0 <= i < name.len() implies !is_separator(rules, #[trigger] name[i]) by {
        if i < stem.len() {
            assert(stem.contains(stem[i]));
        } else if i > stem.len() {
            assert(e.contains(e[i - stem.len() - 1]));
        }
    }
    assert(!is_separator(rules, name[0]));
    if is_dots(name) {
        assert(name.len() == 2);
        assert(name[0] == '.');
        assert(stem == seq!['.']);
    }
    lemma_front_holds_the_prefix(rules, directory, name);
    lemma_file_name_is(rules, directory, name);
    lemma_after_dot_is(stem + seq!['.'], e);
    assert(name.skip(stem.len() as int + 1) == e);
}

/// A name has no extension where no dot stands in it, or none but its first
/// character.
pub proof fn law_no_extension_without_a_dot(
    rules: PathRules,
    directory: Seq<char>,
    name: Seq<char>,
)
    requires
        is_front(rules, directory),
        name.len() > 0,
        name != seq!['.'],
        !name.contains('/'),
        rules is Windows ==> !name.contains('\\'),
        !name.skip(1).contains('.'),
    ensures
        extension(rules, directory + name) is None,
{
    assert forall|i: int| 0 <= i < name.len() implies !is_separator(rules, #[trigger] name[i]) by {
        assert(name.contains(name[i]));
    }
    assert(!is_separator(rules, name[0]));
    if is_dots(name) {
        assert(name.skip(1)[0] == '.');
    }
    lemma_front_holds_the_prefix(rules, directory, name);
    lemma_file_name_is(rules, directory, name);
    if name[0] == '.' {
        assert(name == seq!['.'] + name.skip(1));
        lemma_after_dot_is(seq!['.'], name.skip(1));
    } else {
        assert(name == Seq::<char>::empty() + name);
        assert(!name.contains('.')) by {
            assert forall|i: int| 0 <= i < name.len() implies name[i] != '.' by {
                if i > 0 {
                    assert(name.skip(1)[i - 1] == name[i]);
                    assert(name.skip(1).contains(name[i]));
                }
            }
        }
        lemma_after_dot_is(Seq::empty(), name);
    }
}

/// By the rules of Unix neither a slash nor a slash and a dot behind a path
/// changes its extension.
pub proof fn law_a_slash_behind_a_path_changes_no_extension(path: Seq<char>)
    requires
        path.len() > 0,
    ensures
        extension(PathRules::Unix, path + seq!['/']) == extension(PathRules::Unix, path),
        extension(PathRules::Unix, path + seq!['/', '.']) == extension(PathRules::Unix, path),
{
    let rules = PathRules::Unix;
    let from = body_start(rules, path);
    let body = path.skip(from);
    let slashed = path + seq!['/'];
    let dotted = path + seq!['/', '.'];
    assert(slashed[0] == path[0] && dotted[0] == path[0]);
    assert(slashed.skip(from) == body + seq!['/']);
    assert((body + seq!['/']).drop_last() == body);
    assert(settled(rules, false, body + seq!['/']) == settled(rules, false, body));
    assert(dotted.skip(from) == body + seq!['/', '.']);
    assert((body + seq!['/', '.']).take(body.len() as int) == body);
    assert(settled(rules, false, body + seq!['/', '.']) == settled(rules, false, body));
}

/// By the rules of Unix neither an empty path nor the root nor `.` has an
/// extension, and `..` has none wherever it stands.
pub proof fn law_dots_have_no_extension(directory: Seq<char>)
    requires
        directory.len() > 0 ==> directory.last() == '/',
    ensures
        extension(PathRules::Unix, Seq::empty()) is None,
        extension(PathRules::Unix, seq!['/']) is None,
        extension(PathRules::Unix, seq!['.']) is None,
        extension(PathRules::Unix, directory + seq!['.', '.']) is None,
{
    let rules = PathRules::Unix;
    let none = Seq::<char>::empty();
    assert(none.skip(0) == none);
    assert(seq!['/'].skip(1) == none);
    assert(seq!['.'].skip(0) == seq!['.']);
    assert(settled(rules, false, none) == none);
    assert(settled(rules, false, seq!['.']) == seq!['.']);
    assert(last_part(rules, false, none) == 0);
    lemma_last_part_is(rules, false, none, seq!['.']);
    assert(none + seq!['.'] == seq!['.']);
    let dots = seq!['.', '.'];
    let path = directory + dots;
    if directory.len() > 0 {
        assert(path[0] == directory[0]);
    }
    let from = body_start(rules, path);
    let front = directory.skip(from);
    let body = path.skip(from);
    assert(body == front + dots);
    assert(body[body.len() - 2] == '.');
    assert(settled(rules, false, body) == body);
    lemma_last_part_is(rules, false, front, dots);
    assert(body.skip(front.len() as int) == dots);
}

} // verus!
