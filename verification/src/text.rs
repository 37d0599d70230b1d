//! Plain text: characters, whitespace, words, lines and numerals.
//!
//! A text is seen as the sequence of its characters. Each function below is
//! stated over such sequences.
use vstd::prelude::*;

use vstd::arithmetic::div_mod::lemma_mod_breakdown;

verus! {

/// `String::push` appends one character to the end of a text.
pub assume_specification[ String::push ](s: &mut String, c: char)
    ensures
        final(s)@ == old(s)@.push(c),
;

/// The texts held by a list of strings.
pub open spec fn texts(list: Seq<String>) -> Seq<Seq<char>> {
    Seq::new(list.len(), |i: int| list[i]@)
}

/// The characters that Unicode gives the property `White_Space`.
pub open spec fn is_space(c: char) -> bool {
    ||| '\t' <= c && c <= '\r'
    ||| c == ' '
    ||| c == '\u{85}'
    ||| c == '\u{a0}'
    ||| c == '\u{1680}'
    ||| '\u{2000}' <= c && c <= '\u{200a}'
    ||| c == '\u{2028}'
    ||| c == '\u{2029}'
    ||| c == '\u{202f}'
    ||| c == '\u{205f}'
    ||| c == '\u{3000}'
}

/// A text without its leading whitespace.
pub open spec fn trim_start(s: Seq<char>) -> Seq<char>
    decreases s.len(),
{
    if s.len() > 0 && is_space(s[0]) {
        trim_start(s.skip(1))
    } else {
        s
    }
}

/// A text without its trailing whitespace.
pub open spec fn trim_end(s: Seq<char>) -> Seq<char>
    decreases s.len(),
{
    if s.len() > 0 && is_space(s.last()) {
        trim_end(s.drop_last())
    } else {
        s
    }
}

/// A text without the whitespace at either end.
pub open spec fn trimmed(s: Seq<char>) -> Seq<char> {
    trim_end(trim_start(s))
}

/// How many characters stand before the first `c`: all of them, where there is
/// none.
pub open spec fn before(s: Seq<char>, c: char) -> nat
    decreases s.len(),
{
    if s.len() == 0 || s[0] == c {
        0
    } else {
        1 + before(s.skip(1), c)
    }
}

/// What `before` counts: no `c` stands there, and one stands right after,
/// unless the text ends.
pub proof fn lemma_before(s: Seq<char>, c: char)
    ensures
        before(s, c) <= s.len(),
        before(s, c) < s.len() ==> s[before(s, c) as int] == c,
        forall|i: int| 0 <= i < before(s, c) ==> s[i] != c,
    decreases s.len(),
{
    if s.len() > 0 && s[0] != c {
        lemma_before(s.skip(1), c);
        assert forall|i: int| 0 <= i < before(s, c) implies s[i] != c by {
            if i > 0 {
                assert(s.skip(1)[i - 1] == s[i]);
            }
        }
    }
}

/// How many characters stand before the first whitespace.
pub open spec fn word_length(s: Seq<char>) -> nat
    decreases s.len(),
{
    if s.len() == 0 || is_space(s[0]) {
        0
    } else {
        1 + word_length(s.skip(1))
    }
}

/// What `word_length` counts: no whitespace stands there.
pub proof fn lemma_word_length(s: Seq<char>)
    ensures
        word_length(s) <= s.len(),
        forall|i: int| 0 <= i < word_length(s) ==> !is_space(#[trigger] s[i]),
    decreases s.len(),
{
    if s.len() > 0 && !is_space(s[0]) {
        lemma_word_length(s.skip(1));
        assert forall|i: int| 0 <= i < word_length(s) implies !is_space(#[trigger] s[i]) by {
            if i > 0 {
                assert(s.skip(1)[i - 1] == s[i]);
            }
        }
    }
}

/// The words of a text: what is left of it between whitespace, from first to
/// last, none of them empty.
pub open spec fn words(s: Seq<char>) -> Seq<Seq<char>>
    decreases s.len(),
{
    if s.len() == 0 {
        Seq::empty()
    } else if is_space(s[0]) {
        words(s.skip(1))
    } else {
        proof {
            lemma_word_length(s.skip(1));
        }
        let n = 1 + word_length(s.skip(1));
        seq![s.take(n as int)] + words(s.skip(n as int))
    }
}

/// A word is never empty and holds no whitespace.
pub proof fn law_words_hold_no_whitespace(s: Seq<char>)
    ensures
        forall|i: int| 0 <= i < words(s).len() ==> (#[trigger] words(s)[i]).len() > 0,
        forall|i: int, k: int|
            0 <= i < words(s).len() && 0 <= k < words(s)[i].len() ==> !is_space(
                #[trigger] words(s)[i][k],
            ),
    decreases s.len(),
{
    if s.len() > 0 {
        if is_space(s[0]) {
            law_words_hold_no_whitespace(s.skip(1));
            assert(words(s) == words(s.skip(1)));
        } else {
            lemma_word_length(s.skip(1));
            let n = 1 + word_length(s.skip(1)) as int;
            let rest = s.skip(n);
            law_words_hold_no_whitespace(rest);
            assert(words(s) == seq![s.take(n)] + words(rest));
            assert forall|i: int| 0 <= i < words(s).len() implies (#[trigger] words(s)[i]).len()
                > 0 by {
                if i > 0 {
                    assert(words(s)[i] == words(rest)[i - 1]);
                }
            }
            assert forall|i: int, k: int|
                0 <= i < words(s).len() && 0 <= k < words(s)[i].len() implies !is_space(
                #[trigger] words(s)[i][k],
            ) by {
                if i > 0 {
                    assert(words(s)[i] == words(rest)[i - 1]);
                    assert(!is_space(words(rest)[i - 1][k]));
                } else {
                    assert(words(s)[0][k] == s[k]);
                    if k > 0 {
                        assert(s.skip(1)[k - 1] == s[k]);
                    }
                }
            }
        }
    }
}

/// The first line of a text, without the line break that ends it. An empty text
/// has no line. A line break is a line feed, or a carriage return and a line
/// feed.
pub open spec fn first_line(s: Seq<char>) -> Option<Seq<char>> {
    let n = before(s, '\n') as int;
    if s.len() == 0 {
        None
    } else if 0 < n < s.len() && s[n - 1] == '\r' {
        Some(s.take(n - 1))
    } else {
        Some(s.take(n))
    }
}

/// Whether a text starts with another one.
pub open spec fn starts_with(s: Seq<char>, prefix: Seq<char>) -> bool {
    prefix.len() <= s.len() && s.take(prefix.len() as int) == prefix
}

/// Each text of a list with the separator before it.
pub open spec fn separated(list: Seq<Seq<char>>, separator: Seq<char>) -> Seq<char>
    decreases list.len(),
{
    if list.len() == 0 {
        Seq::empty()
    } else {
        separator + list[0] + separated(list.skip(1), separator)
    }
}

/// The texts of a list with the separator between each two.
pub open spec fn joined(list: Seq<Seq<char>>, separator: Seq<char>) -> Seq<char> {
    if list.len() == 0 {
        Seq::empty()
    } else {
        list[0] + separated(list.skip(1), separator)
    }
}

/// A character with the ASCII capitals made small.
pub open spec fn lower(c: char) -> char {
    if 'A' <= c && c <= 'Z' {
        ((c as u32) + 32) as char
    } else {
        c
    }
}

/// A text with the ASCII capitals made small.
pub open spec fn lowercase(s: Seq<char>) -> Seq<char> {
    s.map_values(|c: char| lower(c))
}

/// The numeral of a number below sixteen.
pub open spec fn digit(n: nat) -> char {
    if n < 10 {
        (48 + n) as char
    } else {
        (87 + n) as char
    }
}

/// A number in decimal, without leading zeros.
pub open spec fn decimal(n: nat) -> Seq<char>
    decreases n,
{
    if n < 10 {
        seq![digit(n)]
    } else {
        decimal(n / 10).push(digit(n % 10))
    }
}

/// A number in decimal, with a minus sign where it is negative.
pub open spec fn signed_decimal(n: int) -> Seq<char> {
    if n < 0 {
        seq!['-'] + decimal((-n) as nat)
    } else {
        decimal(n as nat)
    }
}

/// The last `width` digits of a number in hexadecimal, small letters.
pub open spec fn hexadecimal(n: nat, width: nat) -> Seq<char>
    decreases width,
{
    if width == 0 {
        Seq::empty()
    } else {
        hexadecimal(n / 16, (width - 1) as nat).push(digit(n % 16))
    }
}

/// The characters of a text, one by one.
pub fn chars_of(s: &str) -> (chars: Vec<char>)
    ensures
        chars@ == s@,
{
    let mut chars: Vec<char> = Vec::new();
    for c in it: s.chars()
        invariant
            chars@ == s@.take(it.index() as int),
            it.seq() == s@,
    {
        chars.push(c);
        assert(s@.take(it.index() + 1) == s@.take(it.index() as int).push(c));
    }
    chars
}

/// The text made of the characters from `from` up to `to`.
pub fn text_of(chars: &Vec<char>, from: usize, to: usize) -> (s: String)
    requires
        from <= to <= chars@.len(),
    ensures
        s@ == chars@.subrange(from as int, to as int),
{
    let mut s = String::new();
    for i in from..to
        invariant
            from <= to <= chars@.len(),
            from <= i <= to,
            s@ == chars@.subrange(from as int, i as int),
    {
        s.push(chars[i]);
        assert(chars@.subrange(from as int, i + 1) == chars@.subrange(from as int, i as int).push(
            chars@[i as int],
        ));
    }
    s
}

/// Whether two texts hold the same characters.
pub fn same_text(a: &str, b: &str) -> (same: bool)
    ensures
        same == (a@ == b@),
{
    a.to_owned() == b.to_owned()
}

/// Whether a character is whitespace.
pub fn space(c: char) -> (yes: bool)
    ensures
        yes == is_space(c),
{
    ('\t' <= c && c <= '\r') || c == ' ' || c == '\u{85}' || c == '\u{a0}' || c == '\u{1680}' || (
    '\u{2000}' <= c && c <= '\u{200a}') || c == '\u{2028}' || c == '\u{2029}' || c == '\u{202f}'
        || c == '\u{205f}' || c == '\u{3000}'
}

/// Takes the whitespace off either end of a text.
pub fn trim(s: &str) -> (t: &str)
    ensures
        t@ == trimmed(s@),
{
    let chars = chars_of(s);
    let mut from: usize = 0;
    assert(s@.skip(0) == s@);
    while from < chars.len() && space(chars[from])
        invariant
            chars@ == s@,
            from <= s@.len(),
            trim_start(s@.skip(from as int)) == trim_start(s@),
        decreases s@.len() - from,
    {
        assert(s@.skip(from as int).skip(1) == s@.skip(from + 1));
        from = from + 1;
    }
    let ghost rest = s@.skip(from as int);
    let mut to: usize = chars.len();
    assert(s@.subrange(from as int, to as int) == rest);
    while from < to && space(chars[to - 1])
        invariant
            chars@ == s@,
            from <= to <= s@.len(),
            rest == s@.skip(from as int),
            trim_end(s@.subrange(from as int, to as int)) == trim_end(rest),
        decreases to,
    {
        assert(s@.subrange(from as int, to as int).drop_last() == s@.subrange(
            from as int,
            to - 1,
        ));
        to = to - 1;
    }
    s.substring_char(from, to)
}

/// The place of the first `c` in a text, or the length where there is none.
pub fn find(chars: &Vec<char>, c: char) -> (n: usize)
    ensures
        n == before(chars@, c),
        n <= chars@.len(),
        n < chars@.len() ==> chars@[n as int] == c,
        forall|i: int| 0 <= i < n ==> chars@[i] != c,
{
    let mut n: usize = 0;
    assert(chars@.skip(0) == chars@);
    while n < chars.len() && chars[n] != c
        invariant
            n <= chars@.len(),
            before(chars@, c) == n + before(chars@.skip(n as int), c),
            forall|i: int| 0 <= i < n ==> chars@[i] != c,
        decreases chars@.len() - n,
    {
        assert(chars@.skip(n as int).skip(1) == chars@.skip(n + 1));
        n = n + 1;
    }
    n
}

/// Splits a text into its words.
pub fn split_words(s: &str) -> (list: Vec<String>)
    ensures
        texts(list@) == words(s@),
{
    let chars = chars_of(s);
    let mut list: Vec<String> = Vec::new();
    let mut i: usize = 0;
    assert(s@.skip(0) == s@);
    assert(texts(list@) == Seq::<Seq<char>>::empty());
    while i < chars.len()
        invariant
            chars@ == s@,
            i <= s@.len(),
            words(s@) == texts(list@) + words(s@.skip(i as int)),
        decreases s@.len() - i,
    {
        let ghost rest = s@.skip(i as int);
        if space(chars[i]) {
            assert(rest.skip(1) == s@.skip(i + 1));
            i = i + 1;
        } else {
            let start: usize = i;
            i = i + 1;
            assert(rest.skip(1) == s@.skip(i as int));
            while i < chars.len() && !space(chars[i])
                invariant
                    chars@ == s@,
                    start < i <= s@.len(),
                    rest == s@.skip(start as int),
                    word_length(rest.skip(1)) == i - start - 1 + word_length(s@.skip(i as int)),
                decreases s@.len() - i,
            {
                assert(s@.skip(i as int).skip(1) == s@.skip(i + 1));
                i = i + 1;
            }
            let word = text_of(&chars, start, i);
            let ghost shorter = list@;
            list.push(word);
            assert(rest.take(i - start) == word@);
            assert(rest.skip(i - start) == s@.skip(i as int));
            assert(texts(list@) == texts(shorter) + seq![word@]);
            assert(words(rest) == seq![word@] + words(s@.skip(i as int)));
        }
    }
    assert(s@.skip(i as int) == Seq::<char>::empty());
    list
}

/// Finds the first line of a text.
pub fn find_line(s: &str) -> (first: Option<&str>)
    ensures
        match first {
            Some(t) => first_line(s@) == Some(t@),
            None => first_line(s@) is None,
        },
{
    let chars = chars_of(s);
    let n = find(&chars, '\n');
    if chars.len() == 0 {
        None
    } else if 0 < n && n < chars.len() && chars[n - 1] == '\r' {
        Some(s.substring_char(0, n - 1))
    } else {
        Some(s.substring_char(0, n))
    }
}

/// Takes a prefix off a text that starts with it.
pub fn strip_prefix<'a>(s: &'a str, prefix: &str) -> (rest: Option<&'a str>)
    ensures
        match rest {
            Some(r) => starts_with(s@, prefix@) && r@ == s@.skip(prefix@.len() as int),
            None => !starts_with(s@, prefix@),
        },
{
    let length = s.unicode_len();
    let n = prefix.unicode_len();
    if n <= length && same_text(s.substring_char(0, n), prefix) {
        assert(s@.subrange(0, n as int) == s@.take(n as int));
        Some(s.substring_char(n, length))
    } else {
        assert(n <= length ==> s@.subrange(0, n as int) == s@.take(n as int));
        None
    }
}

/// Joins the texts of a list, with the separator between each two.
pub fn join(list: &Vec<String>, separator: &str) -> (s: String)
    ensures
        s@ == joined(texts(list@), separator@),
{
    let ghost all = texts(list@);
    let mut s = String::new();
    let mut i: usize = 0;
    assert(all.skip(0) == all);
    while i < list.len()
        invariant
            all == texts(list@),
            i <= list@.len(),
            i == 0 ==> s@.len() == 0,
            i > 0 ==> joined(all, separator@) == s@ + separated(all.skip(i as int), separator@),
        decreases list@.len() - i,
    {
        let ghost rest = all.skip(i as int);
        assert(rest.skip(1) == all.skip(i + 1));
        if i > 0 {
            s.append(separator);
        }
        s.append(list[i].as_str());
        i = i + 1;
        assert(joined(all, separator@) == s@ + separated(all.skip(i as int), separator@));
    }
    assert(all.skip(i as int) == Seq::<Seq<char>>::empty());
    s
}

/// Makes the ASCII capitals of a text small.
pub fn to_lowercase(s: &str) -> (t: String)
    ensures
        t@ == lowercase(s@),
{
    let chars = chars_of(s);
    let mut t = String::new();
    for i in 0..chars.len()
        invariant
            chars@ == s@,
            t@ == lowercase(s@.take(i as int)),
    {
        let c = chars[i];
        let small = if 'A' <= c && c <= 'Z' {
            (c as u8 + 32) as char
        } else {
            c
        };
        t.push(small);
        assert(lowercase(s@.take(i + 1)) == lowercase(s@.take(i as int)).push(lower(c)));
    }
    assert(s@.take(s@.len() as int) == s@);
    t
}

/// The numeral of a number below sixteen.
fn numeral(n: u64) -> (c: char)
    requires
        n < 16,
    ensures
        c == digit(n as nat),
{
    if n < 10 {
        (48 + n as u8) as char
    } else {
        (87 + n as u8) as char
    }
}

/// Writes a number in decimal.
pub fn decimal_text(n: u64) -> (s: String)
    ensures
        s@ == decimal(n as nat),
    decreases n,
{
    if n < 10 {
        let mut s = String::new();
        s.push(numeral(n));
        assert(s@ == seq![digit(n as nat)]);
        s
    } else {
        let mut s = decimal_text(n / 10);
        s.push(numeral(n % 10));
        s
    }
}

/// Writes a number in decimal, with a minus sign where it is negative.
pub fn signed_decimal_text(n: i32) -> (s: String)
    ensures
        s@ == signed_decimal(n as int),
{
    if n < 0 {
        let mut s = String::new();
        s.push('-');
        let rest = decimal_text((-(n as i64)) as u64);
        s.append(rest.as_str());
        assert(s@ == signed_decimal(n as int));
        s
    } else {
        decimal_text(n as u64)
    }
}

/// Writes the last `width` digits of a number in hexadecimal.
pub fn hexadecimal_text(n: u64, width: usize) -> (s: String)
    ensures
        s@ == hexadecimal(n as nat, width as nat),
    decreases width,
{
    if width == 0 {
        String::new()
    } else {
        let mut s = hexadecimal_text(n / 16, width - 1);
        s.push(numeral(n % 16));
        s
    }
}

/// Whether a text is nothing but whitespace, or empty.
pub open spec fn is_blank(s: Seq<char>) -> bool {
    forall|i: int| 0 <= i < s.len() ==> is_space(#[trigger] s[i])
}

/// Whether a text is a word: not empty, and without whitespace.
pub open spec fn is_word(s: Seq<char>) -> bool {
    s.len() > 0 && forall|i: int| 0 <= i < s.len() ==> !is_space(#[trigger] s[i])
}

/// Whether a text ends a word that it is put behind: it is empty or starts with
/// whitespace.
pub open spec fn ends_a_word(s: Seq<char>) -> bool {
    s.len() > 0 ==> is_space(s[0])
}

/// The whitespace below U+0100 is the tab, the line feed, the vertical tab, the
/// form feed, the carriage return, the space, the next line and the no-break
/// space. Above there are seventeen more characters.
pub proof fn law_whitespace_is_that_of_unicode(c: char)
    ensures
        is_space(c) <==> {
            let n = c as int;
            ||| 9 <= n <= 13
            ||| n == 32
            ||| n == 0x85
            ||| n == 0xa0
            ||| n == 0x1680
            ||| 0x2000 <= n <= 0x200a
            ||| n == 0x2028
            ||| n == 0x2029
            ||| n == 0x202f
            ||| n == 0x205f
            ||| n == 0x3000
        },
{
}

/// The texts of a list are those of its strings, each in its place.
pub proof fn law_texts_are_those_of_the_strings(list: Seq<String>)
    ensures
        texts(list).len() == list.len(),
        forall|i: int| 0 <= i < list.len() ==> (#[trigger] texts(list)[i]) == list[i]@,
{
}

proof fn lemma_trim_start_of_blank(a: Seq<char>, rest: Seq<char>)
    requires
        is_blank(a),
        rest.len() > 0 ==> !is_space(rest[0]),
    ensures
        trim_start(a + rest) == rest,
    decreases a.len(),
{
    if a.len() == 0 {
        assert(a + rest == rest);
    } else {
        assert(is_space(a[0]) && (a + rest)[0] == a[0]);
        assert((a + rest).skip(1) == a.skip(1) + rest);
        assert(is_blank(a.skip(1)));
        lemma_trim_start_of_blank(a.skip(1), rest);
    }
}

proof fn lemma_trim_end_of_blank(rest: Seq<char>, b: Seq<char>)
    requires
        is_blank(b),
        rest.len() > 0 ==> !is_space(rest.last()),
    ensures
        trim_end(rest + b) == rest,
    decreases b.len(),
{
    if b.len() == 0 {
        assert(rest + b == rest);
    } else {
        assert(is_space(b[b.len() - 1]) && (rest + b).last() == b[b.len() - 1]);
        assert((rest + b).drop_last() == rest + b.drop_last());
        assert(is_blank(b.drop_last()));
        lemma_trim_end_of_blank(rest, b.drop_last());
    }
}

/// Whitespace is taken off either end of a text, however much of it there is,
/// and nothing else is. Of nothing but whitespace nothing is left.
pub proof fn law_trimming_takes_off_whitespace(a: Seq<char>, m: Seq<char>, b: Seq<char>)
    requires
        is_blank(a),
        is_blank(b),
        m.len() > 0 ==> !is_space(m[0]) && !is_space(m.last()),
    ensures
        trimmed(a + m + b) == m,
{
    if m.len() == 0 {
        let all = a + m + b;
        assert(is_blank(all)) by {
            assert forall|i: int| 0 <= i < all.len() implies is_space(#[trigger] all[i]) by {
                if i < a.len() {
                    assert(is_space(a[i]));
                } else {
                    assert(is_space(b[i - a.len()]));
                }
            }
        }
        assert(all + m == all);
        lemma_trim_start_of_blank(all, m);
        assert(trim_end(m) == m);
    } else {
        assert(a + m + b == a + (m + b));
        lemma_trim_start_of_blank(a, m + b);
        lemma_trim_end_of_blank(m, b);
    }
}

/// Every text is whitespace, what is left of it once that is taken off, and
/// whitespace.
pub proof fn law_a_text_is_whitespace_around_the_rest(s: Seq<char>) -> (ends: (
    Seq<char>,
    Seq<char>,
))
    ensures
        s == ends.0 + trimmed(s) + ends.1,
        is_blank(ends.0),
        is_blank(ends.1),
        trimmed(s).len() > 0 ==> !is_space(trimmed(s)[0]) && !is_space(trimmed(s).last()),
{
    let a = lemma_trim_start_splits(s);
    let b = lemma_trim_end_splits(trim_start(s));
    assert(s == a + trimmed(s) + b);
    if trimmed(s).len() > 0 {
        assert(trim_start(s)[0] == trimmed(s)[0]);
    }
    (a, b)
}

proof fn lemma_trim_start_splits(s: Seq<char>) -> (a: Seq<char>)
    ensures
        s == a + trim_start(s),
        is_blank(a),
        trim_start(s).len() > 0 ==> !is_space(trim_start(s)[0]),
    decreases s.len(),
{
    if s.len() > 0 && is_space(s[0]) {
        let inner = lemma_trim_start_splits(s.skip(1));
        let a = seq![s[0]] + inner;
        assert(s == seq![s[0]] + s.skip(1));
        assert(s == a + trim_start(s));
        assert forall|i: int| 0 <= i < a.len() implies is_space(#[trigger] a[i]) by {
            if i > 0 {
                assert(is_space(inner[i - 1]));
            }
        }
        a
    } else {
        assert(s == Seq::<char>::empty() + s);
        Seq::empty()
    }
}

proof fn lemma_trim_end_splits(s: Seq<char>) -> (b: Seq<char>)
    ensures
        s == trim_end(s) + b,
        is_blank(b),
        trim_end(s).len() > 0 ==> !is_space(trim_end(s).last()),
    decreases s.len(),
{
    if s.len() > 0 && is_space(s.last()) {
        let inner = lemma_trim_end_splits(s.drop_last());
        let b = inner.push(s.last());
        assert(s == s.drop_last().push(s.last()));
        assert(s == trim_end(s) + b);
        assert forall|i: int| 0 <= i < b.len() implies is_space(#[trigger] b[i]) by {
            if i < inner.len() {
                assert(is_space(inner[i]));
            }
        }
        b
    } else {
        assert(s == s + Seq::<char>::empty());
        Seq::empty()
    }
}

proof fn lemma_word_length_of_a_word(w: Seq<char>, rest: Seq<char>)
    requires
        forall|i: int| 0 <= i < w.len() ==> !is_space(#[trigger] w[i]),
        ends_a_word(rest),
    ensures
        word_length(w + rest) == w.len(),
    decreases w.len(),
{
    if w.len() == 0 {
        assert(w + rest == rest);
    } else {
        assert(!is_space(w[0]) && (w + rest)[0] == w[0]);
        assert((w + rest).skip(1) == w.skip(1) + rest);
        assert forall|i: int| 0 <= i < w.skip(1).len() implies !is_space(
            #[trigger] w.skip(1)[i],
        ) by {
            assert(!is_space(w[i + 1]));
        }
        lemma_word_length_of_a_word(w.skip(1), rest);
    }
}

/// The first word of a text is what stands before the next whitespace once the
/// leading whitespace is passed over. The words of what follows come after it.
pub proof fn law_words_stand_between_whitespace(a: Seq<char>, w: Seq<char>, rest: Seq<char>)
    requires
        is_blank(a),
        is_word(w),
        ends_a_word(rest),
    ensures
        words(a + w + rest) == seq![w] + words(rest),
    decreases a.len(),
{
    let s = a + w + rest;
    if a.len() == 0 {
        assert(s == w + rest);
        assert(!is_space(w[0]) && s[0] == w[0]);
        let shorter = w.skip(1);
        assert(s.skip(1) == shorter + rest);
        assert forall|i: int| 0 <= i < shorter.len() implies !is_space(#[trigger] shorter[i]) by {
            assert(!is_space(w[i + 1]));
        }
        lemma_word_length_of_a_word(shorter, rest);
        let n = w.len() as int;
        assert(s.take(n) == w);
        assert(s.skip(n) == rest);
    } else {
        assert(is_space(a[0]) && s[0] == a[0]);
        assert(s.skip(1) == a.skip(1) + w + rest);
        assert(is_blank(a.skip(1)));
        law_words_stand_between_whitespace(a.skip(1), w, rest);
    }
}

/// There are no words in nothing but whitespace.
pub proof fn law_no_words_in_whitespace(a: Seq<char>)
    requires
        is_blank(a),
    ensures
        words(a).len() == 0,
    decreases a.len(),
{
    if a.len() > 0 {
        assert(is_space(a[0]));
        assert(is_blank(a.skip(1)));
        law_no_words_in_whitespace(a.skip(1));
    }
}

/// What `before` counts is settled by where the first `c` stands.
pub proof fn lemma_before_is(front: Seq<char>, c: char, rest: Seq<char>)
    requires
        !front.contains(c),
        rest.len() > 0 ==> rest[0] == c,
    ensures
        before(front + rest, c) == front.len(),
{
    let s = front + rest;
    lemma_before(s, c);
    let n = before(s, c) as int;
    if n < front.len() {
        assert(s[n] == front[n]);
        assert(front.contains(front[n]));
    } else if n > front.len() {
        assert(s[front.len() as int] == rest[0]);
    }
}

/// The first line of a text is what stands before its first line feed, without
/// one carriage return right before that. A text without a line feed is one line
/// as it is, and an empty text has none.
pub proof fn law_first_line_ends_at_the_first_line_feed(front: Seq<char>, rest: Seq<char>)
    requires
        !front.contains('\n'),
    ensures
        first_line(front + seq!['\n'] + rest) == Some(
            if front.len() > 0 && front.last() == '\r' {
                front.drop_last()
            } else {
                front
            },
        ),
        front.len() > 0 ==> first_line(front) == Some(front),
        first_line(Seq::empty()) is None,
{
    let s = front + (seq!['\n'] + rest);
    assert(front + seq!['\n'] + rest == s);
    lemma_before_is(front, '\n', seq!['\n'] + rest);
    assert(s.take(front.len() as int) == front);
    if front.len() > 0 {
        assert(s.take(front.len() - 1) == front.drop_last());
    }
    assert(front + Seq::<char>::empty() == front);
    lemma_before_is(front, '\n', Seq::empty());
    assert(front.take(front.len() as int) == front);
}

/// Where the text at `i` starts in the texts of a list with a gap between each
/// two: after those before it, and after one gap for each of them.
pub open spec fn offset(list: Seq<Seq<char>>, gap: nat, i: int) -> int
    decreases i,
{
    if i <= 0 {
        0
    } else {
        offset(list, gap, i - 1) + list[i - 1].len() + gap
    }
}

proof fn lemma_offset_skips(list: Seq<Seq<char>>, gap: nat, i: int)
    requires
        0 < i <= list.len(),
    ensures
        offset(list, gap, i) == list[0].len() + gap + offset(list.skip(1), gap, i - 1),
    decreases i,
{
    if i > 1 {
        lemma_offset_skips(list, gap, i - 1);
        assert(list.skip(1)[i - 2] == list[i - 1]);
    } else {
        assert(offset(list, gap, 0) == 0);
    }
}

proof fn lemma_offset_leaves_room(list: Seq<Seq<char>>, gap: nat, i: int)
    requires
        0 < i,
    ensures
        offset(list, gap, i) >= gap,
    decreases i,
{
    if i > 1 {
        lemma_offset_leaves_room(list, gap, i - 1);
    } else {
        assert(offset(list, gap, 0) == 0);
    }
}

proof fn lemma_separated_places(list: Seq<Seq<char>>, between: Seq<char>)
    ensures
        separated(list, between).len() == offset(list, between.len(), list.len() as int),
        forall|i: int|
            0 <= i < list.len() ==> {
                let at = #[trigger] offset(list, between.len(), i);
                let whole = separated(list, between);
                let from = at + between.len();
                &&& 0 <= at && from + list[i].len() <= whole.len()
                &&& whole.subrange(at, from) == between
                &&& whole.subrange(from, from + list[i].len()) == list[i]
            },
    decreases list.len(),
{
    if list.len() > 0 {
        let gap = between.len();
        let whole = separated(list, between);
        let more = list.skip(1);
        let rest = separated(more, between);
        lemma_separated_places(more, between);
        lemma_offset_skips(list, gap, list.len() as int);
        assert(whole == between + list[0] + rest);
        let n = (gap + list[0].len()) as int;
        assert forall|i: int| 0 <= i < list.len() implies {
            let at = #[trigger] offset(list, gap, i);
            let from = at + gap;
            &&& 0 <= at && from + list[i].len() <= whole.len()
            &&& whole.subrange(at, from) == between
            &&& whole.subrange(from, from + list[i].len()) == list[i]
        } by {
            if i == 0 {
                assert(offset(list, gap, 0) == 0);
                assert(whole.subrange(0, gap as int) == between);
                assert(whole.subrange(gap as int, n) == list[0]);
            } else {
                lemma_offset_skips(list, gap, i);
                let at = offset(more, gap, i - 1);
                let from = at + gap;
                assert(list[i] == more[i - 1]);
                assert(whole.subrange(n + at, n + from) == rest.subrange(at, from));
                assert(whole.subrange(n + from, n + from + list[i].len()) == rest.subrange(
                    from,
                    from + list[i].len(),
                ));
            }
        }
    }
}

/// Joined texts stand one after another in their order, each of them whole, with
/// exactly one separator between each two and nothing before or behind them.
pub proof fn law_joined_texts_stand_in_their_places(list: Seq<Seq<char>>, between: Seq<char>)
    ensures
        list.len() == 0 ==> joined(list, between).len() == 0,
        list.len() > 0 ==> joined(list, between).len() == offset(
            list,
            between.len(),
            list.len() as int,
        ) - between.len(),
        forall|i: int|
            0 <= i < list.len() ==> {
                let at = #[trigger] offset(list, between.len(), i);
                let whole = joined(list, between);
                &&& 0 <= at && at + list[i].len() <= whole.len()
                &&& whole.subrange(at, at + list[i].len()) == list[i]
                &&& i > 0 ==> between.len() <= at && whole.subrange(at - between.len(), at)
                    == between
            },
{
    if list.len() > 0 {
        let gap = between.len();
        let all = separated(list, between);
        let whole = joined(list, between);
        assert(all == between + whole);
        lemma_separated_places(list, between);
        assert forall|i: int| 0 <= i < list.len() implies {
            let at = #[trigger] offset(list, gap, i);
            &&& 0 <= at && at + list[i].len() <= whole.len()
            &&& whole.subrange(at, at + list[i].len()) == list[i]
            &&& i > 0 ==> gap <= at && whole.subrange(at - gap, at) == between
        } by {
            let at = offset(list, gap, i);
            assert(whole.subrange(at, at + list[i].len()) == all.subrange(
                at + gap,
                at + gap + list[i].len(),
            ));
            if i > 0 {
                lemma_offset_leaves_room(list, gap, i);
                assert(whole.subrange(at - gap, at) == all.subrange(at, at + gap));
            }
        }
    }
}

/// Making a text small changes nothing but the 26 letters `A` to `Z`: each of
/// them becomes the letter that stands 32 places further on.
pub proof fn law_only_capitals_are_made_small(s: Seq<char>)
    ensures
        lowercase(s).len() == s.len(),
        forall|i: int|
            0 <= i < s.len() ==> if 65 <= #[trigger] s[i] as int <= 90 {
                lowercase(s)[i] as int == s[i] as int + 32
            } else {
                lowercase(s)[i] == s[i]
            },
{
    assert forall|i: int| 0 <= i < s.len() implies if 65 <= #[trigger] s[i] as int <= 90 {
        lowercase(s)[i] as int == s[i] as int + 32
    } else {
        lowercase(s)[i] == s[i]
    } by {
        lemma_lower(s[i]);
        assert(lowercase(s)[i] == lower(s[i]));
    }
}

/// What becomes of one character that is made small.
pub proof fn lemma_lower(c: char)
    ensures
        65 <= c as int <= 90 ==> lower(c) as int == c as int + 32,
        !(65 <= c as int <= 90) ==> lower(c) == c,
{
}

/// A text starts with another one just where it is that one and something more,
/// be it nothing.
pub proof fn law_a_text_starts_with_its_front(front: Seq<char>, rest: Seq<char>)
    ensures
        starts_with(front + rest, front),
        forall|s: Seq<char>| #[trigger]
            starts_with(s, front) ==> s == front + s.skip(front.len() as int),
{
    assert((front + rest).take(front.len() as int) == front);
    assert forall|s: Seq<char>| #[trigger] starts_with(s, front) implies s == front + s.skip(
        front.len() as int,
    ) by {
        assert(s == s.take(front.len() as int) + s.skip(front.len() as int));
    }
}

/// The number that a text of hexadecimal digits in small letters stands for.
pub open spec fn hexadecimal_value(digits: Seq<char>) -> nat
    decreases digits.len(),
{
    if digits.len() == 0 {
        0
    } else if digits.last() <= '9' {
        16 * hexadecimal_value(digits.drop_last()) + (digits.last() as nat - 48) as nat
    } else {
        16 * hexadecimal_value(digits.drop_last()) + (digits.last() as nat - 87) as nat
    }
}

/// Sixteen to a given power.
pub open spec fn sixteens(width: nat) -> nat
    decreases width,
{
    if width == 0 {
        1
    } else {
        16 * sixteens((width - 1) as nat)
    }
}

/// A number in hexadecimal has as many digits as the width says, all of them `0`
/// to `9` and `a` to `f`. It reads back as itself where it fits the width, and as
/// what is left of it modulo a power of sixteen where it does not.
pub proof fn law_hexadecimal_reads_back(n: nat, width: nat)
    ensures
        sixteens(width) > 0,
        hexadecimal(n, width).len() == width,
        hexadecimal_value(hexadecimal(n, width)) == n % sixteens(width),
        forall|i: int|
            0 <= i < width ==> {
                let c = #[trigger] hexadecimal(n, width)[i] as int;
                48 <= c <= 57 || 97 <= c <= 102
            },
    decreases width,
{
    if width > 0 {
        let w = (width - 1) as nat;
        law_hexadecimal_reads_back(n / 16, w);
        let all = hexadecimal(n, width);
        assert(all.drop_last() == hexadecimal(n / 16, w));
        lemma_mod_breakdown(n as int, 16, sixteens(w) as int);
        assert forall|i: int| 0 <= i < width implies {
            let c = #[trigger] all[i] as int;
            48 <= c <= 57 || 97 <= c <= 102
        } by {
            if i < w {
                assert(all[i] == hexadecimal(n / 16, w)[i]);
            }
        }
    }
}

} // verus!
