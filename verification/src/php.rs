//! PHP string literals in single quotes.
use vstd::prelude::*;

use crate::text::chars_of;

verus! {

/// What stands in a literal for one character of its value.
pub open spec fn escape(c: char) -> Seq<char> {
    if c == '\\' {
        seq!['\\', '\\']
    } else if c == '\'' {
        seq!['\\', '\'']
    } else if c == '\r' {
        seq!['\\', 'r']
    } else if c == '\n' {
        seq!['\\', 'n']
    } else {
        seq![c]
    }
}

/// What stands between the quotes of a literal.
pub open spec fn escaped(value: Seq<char>) -> Seq<char>
    decreases value.len(),
{
    if value.len() == 0 {
        Seq::empty()
    } else {
        escape(value[0]) + escaped(value.skip(1))
    }
}

/// The literal for a value.
pub open spec fn php_quoted(value: Seq<char>) -> Seq<char> {
    seq!['\''] + escaped(value) + seq!['\'']
}

/// Where PHP sees a literal end that is open at `i`: at the first quote that no
/// backslash stands before, each backslash being taken with the character after
/// it. The length of the text, where it never ends.
pub open spec fn closing_quote(source: Seq<char>, i: int) -> int
    decreases source.len() + 1 - i,
{
    if i >= source.len() {
        source.len() as int
    } else if source[i] == '\'' {
        i
    } else if source[i] == '\\' {
        closing_quote(source, i + 2)
    } else {
        closing_quote(source, i + 1)
    }
}

/// What PHP reads between the quotes of a literal: a backslash before a
/// backslash or a quote is dropped, any other stays.
pub open spec fn literal_value(body: Seq<char>) -> Seq<char>
    decreases body.len(),
{
    if body.len() == 0 {
        Seq::empty()
    } else if body.len() > 1 && body[0] == '\\' && (body[1] == '\\' || body[1] == '\'') {
        seq![body[1]] + literal_value(body.skip(2))
    } else {
        seq![body[0]] + literal_value(body.skip(1))
    }
}

/// A text with each carriage return and line feed spelled as a backslash and a
/// letter.
pub open spec fn spelled(value: Seq<char>) -> Seq<char>
    decreases value.len(),
{
    if value.len() == 0 {
        Seq::empty()
    } else if value[0] == '\r' || value[0] == '\n' {
        escape(value[0]) + spelled(value.skip(1))
    } else {
        seq![value[0]] + spelled(value.skip(1))
    }
}

/// The value that a literal was made from.
pub open spec fn unescaped(body: Seq<char>) -> Seq<char>
    decreases body.len(),
{
    if body.len() == 0 {
        Seq::empty()
    } else if body.len() > 1 && body[0] == '\\' {
        let c = if body[1] == 'r' {
            '\r'
        } else if body[1] == 'n' {
            '\n'
        } else {
            body[1]
        };
        seq![c] + unescaped(body.skip(2))
    } else {
        seq![body[0]] + unescaped(body.skip(1))
    }
}

/// Writes a value as a PHP string literal in single quotes.
pub fn php_string(value: &str) -> (literal: String)
    ensures
        literal@ == php_quoted(value@),
{
    let chars = chars_of(value);
    let mut literal = String::new();
    literal.push('\'');
    assert(value@.skip(0) == value@);
    for i in 0..chars.len()
        invariant
            chars@ == value@,
            seq!['\''] + escaped(value@) == literal@ + escaped(value@.skip(i as int)),
    {
        let c = chars[i];
        let ghost start = literal@;
        if c == '\\' {
            literal.push('\\');
            literal.push('\\');
        } else if c == '\'' {
            literal.push('\\');
            literal.push('\'');
        } else if c == '\r' {
            literal.push('\\');
            literal.push('r');
        } else if c == '\n' {
            literal.push('\\');
            literal.push('n');
        } else {
            literal.push(c);
        }
        assert(value@.skip(i as int).skip(1) == value@.skip(i + 1));
        assert(literal@ == start + escape(c));
        assert(start + (escape(c) + escaped(value@.skip(i + 1))) == literal@ + escaped(
            value@.skip(i + 1),
        ));
    }
    assert(value@.skip(value@.len() as int) == Seq::<char>::empty());
    literal.push('\'');
    assert(literal@ == php_quoted(value@));
    literal
}

proof fn lemma_closing_quote_passes(source: Seq<char>, i: int, value: Seq<char>)
    requires
        0 <= i,
        i + escaped(value).len() <= source.len(),
        source.subrange(i, i + escaped(value).len()) == escaped(value),
    ensures
        closing_quote(source, i) == closing_quote(source, i + escaped(value).len()),
    decreases value.len(),
{
    if value.len() > 0 {
        let body = escaped(value);
        let first = escape(value[0]);
        let rest = escaped(value.skip(1));
        assert(body == first + rest);
        assert(forall|k: int| 0 <= k < body.len() ==> source[i + k] == #[trigger] body[k]) by {
            assert(forall|k: int|
                0 <= k < body.len() ==> source.subrange(i, i + body.len())[k] == #[trigger] body[k]);
        }
        assert(source[i] == body[0] && body[0] == first[0]);
        let j = i + first.len();
        assert(source.subrange(j, j + rest.len()) == rest) by {
            assert(forall|k: int| 0 <= k < rest.len() ==> rest[k] == #[trigger] body[first.len() + k]);
            assert forall|k: int| 0 <= k < rest.len() implies source.subrange(j, j + rest.len())[k]
                == rest[k] by {
                assert(rest[k] == body[first.len() + k]);
            }
        }
        lemma_closing_quote_passes(source, j, value.skip(1));
    }
}

/// A literal ends where it was meant to end, whatever its value is and whatever
/// stands before and after it: no value can close its own literal.
pub proof fn law_literal_is_closed(prefix: Seq<char>, value: Seq<char>, suffix: Seq<char>)
    ensures
        closing_quote(prefix + php_quoted(value) + suffix, prefix.len() as int + 1) == prefix.len()
            + php_quoted(value).len() - 1,
{
    let source = prefix + php_quoted(value) + suffix;
    let i = prefix.len() as int + 1;
    assert(source.subrange(i, i + escaped(value).len()) == escaped(value));
    lemma_closing_quote_passes(source, i, value);
    assert(source[i + escaped(value).len()] == '\'');
}

proof fn lemma_literal_value_of_escaped(value: Seq<char>)
    ensures
        literal_value(escaped(value)) == spelled(value),
    decreases value.len(),
{
    if value.len() > 0 {
        let body = escaped(value);
        let rest = escaped(value.skip(1));
        lemma_literal_value_of_escaped(value.skip(1));
        if escape(value[0]).len() == 1 {
            assert(body.skip(1) == rest);
        } else if value[0] == '\\' || value[0] == '\'' {
            assert(body.skip(2) == rest);
        } else {
            assert(body.skip(1).skip(1) == rest);
            assert(body.skip(1)[0] == body[1]);
            assert(literal_value(body.skip(1)) == seq![body[1]] + literal_value(rest));
            assert(seq![body[0]] + (seq![body[1]] + literal_value(rest)) == escape(value[0])
                + literal_value(rest));
        }
    }
}

/// A literal means what it was made from, but for carriage returns and line
/// feeds: PHP reads those as a backslash and a letter.
pub proof fn law_literal_means_its_value(value: Seq<char>)
    ensures
        literal_value(php_quoted(value).subrange(1, php_quoted(value).len() - 1)) == spelled(value),
        !value.contains('\r') && !value.contains('\n') ==> literal_value(
            php_quoted(value).subrange(1, php_quoted(value).len() - 1),
        ) == value,
{
    lemma_literal_value_of_escaped(value);
    assert(php_quoted(value).subrange(1, php_quoted(value).len() - 1) == escaped(value));
    if !value.contains('\r') && !value.contains('\n') {
        lemma_spelled_without_breaks(value);
    }
}

proof fn lemma_spelled_without_breaks(value: Seq<char>)
    requires
        !value.contains('\r'),
        !value.contains('\n'),
    ensures
        spelled(value) == value,
    decreases value.len(),
{
    if value.len() > 0 {
        assert(value.contains(value[0]));
        let rest = value.skip(1);
        assert forall|c: char| rest.contains(c) implies value.contains(c) by {
            let k = choose|k: int| 0 <= k < rest.len() && rest[k] == c;
            assert(value[k + 1] == c);
        }
        lemma_spelled_without_breaks(rest);
        assert(seq![value[0]] + rest == value);
    }
}

proof fn lemma_unescaped_of_escaped(value: Seq<char>)
    ensures
        unescaped(escaped(value)) == value,
    decreases value.len(),
{
    if value.len() > 0 {
        let body = escaped(value);
        let rest = escaped(value.skip(1));
        lemma_unescaped_of_escaped(value.skip(1));
        assert(seq![value[0]] + value.skip(1) == value);
        if escape(value[0]).len() == 1 {
            assert(body.skip(1) == rest);
        } else {
            assert(body.skip(2) == rest);
        }
    }
}

/// Two values with the same literal are the same value.
pub proof fn law_literals_differ(a: Seq<char>, b: Seq<char>)
    requires
        php_quoted(a) == php_quoted(b),
    ensures
        a == b,
{
    assert(escaped(a) == php_quoted(a).subrange(1, php_quoted(a).len() - 1));
    assert(escaped(b) == php_quoted(b).subrange(1, php_quoted(b).len() - 1));
    lemma_unescaped_of_escaped(a);
    lemma_unescaped_of_escaped(b);
}

/// A literal stands on one line, whatever lines its value has.
pub proof fn law_literal_is_one_line(value: Seq<char>)
    ensures
        !php_quoted(value).contains('\r'),
        !php_quoted(value).contains('\n'),
    decreases value.len(),
{
    if value.len() > 0 {
        law_literal_is_one_line(value.skip(1));
        let body = escaped(value);
        let first = escape(value[0]);
        let rest = escaped(value.skip(1));
        let inner = php_quoted(value.skip(1));
        assert forall|k: int| 0 <= k < php_quoted(value).len() implies php_quoted(value)[k] != '\r'
            && php_quoted(value)[k] != '\n' by {
            if 1 + first.len() <= k < 1 + body.len() {
                assert(php_quoted(value)[k] == rest[k - 1 - first.len()]);
                assert(inner[k - first.len()] == rest[k - 1 - first.len()]);
                assert(inner.contains(inner[k - first.len()]));
            }
        }
    }
}

proof fn lemma_escaped_joins(a: Seq<char>, b: Seq<char>)
    ensures
        escaped(a + b) == escaped(a) + escaped(b),
    decreases a.len(),
{
    if a.len() == 0 {
        assert(a + b == b);
        assert(escaped(a) + escaped(b) == escaped(b));
    } else {
        assert((a + b).skip(1) == a.skip(1) + b);
        lemma_escaped_joins(a.skip(1), b);
        assert(escaped(a + b) == escaped(a) + escaped(b));
    }
}

/// A literal is made character by character: what stands in it for two texts one
/// after the other is what stands in it for the first, and then for the second.
pub proof fn law_literal_is_made_character_by_character(a: Seq<char>, b: Seq<char>)
    ensures
        php_quoted(a + b) == php_quoted(a).drop_last() + php_quoted(b).skip(1),
        php_quoted(Seq::empty()) == seq!['\'', '\''],
{
    lemma_escaped_joins(a, b);
    assert(php_quoted(a).drop_last() == seq!['\''] + escaped(a));
    assert(php_quoted(b).skip(1) == escaped(b) + seq!['\'']);
    assert(php_quoted(a + b) == php_quoted(a).drop_last() + php_quoted(b).skip(1));
    assert(php_quoted(Seq::empty()) == seq!['\'', '\'']);
}

/// A backslash and a quote stand in a literal behind a backslash, a carriage
/// return and a line feed as a backslash and a letter. Any other character stands
/// for itself.
pub proof fn law_four_characters_are_escaped(c: char)
    ensures
        php_quoted(seq![c]) == if c == '\\' {
            seq!['\'', '\\', '\\', '\'']
        } else if c == '\'' {
            seq!['\'', '\\', '\'', '\'']
        } else if c == '\r' {
            seq!['\'', '\\', 'r', '\'']
        } else if c == '\n' {
            seq!['\'', '\\', 'n', '\'']
        } else {
            seq!['\'', c, '\'']
        },
{
    let one = seq![c];
    assert(one.skip(1) == Seq::<char>::empty());
    assert(escaped(one.skip(1)) == Seq::<char>::empty());
    assert(escaped(one) == escape(c));
    assert(php_quoted(one) == seq!['\''] + escape(c) + seq!['\'']);
}

} // verus!
