use rustenphp::text::{
    chars_of, decimal_text, find, find_line, hexadecimal_text, join, same_text, signed_decimal_text,
    space, split_words, strip_prefix, text_of, to_lowercase, trim,
};

const SAMPLES: [&str; 16] = [
    "",
    " ",
    "\n",
    "\r\n",
    "\r",
    "GET / HTTP/1.1\r\nHost: a\r\n\r\n",
    "one",
    "  one\ttwo \u{a0}three\u{3000}",
    "a\nb\nc",
    "a\r\r\nb",
    "a\r",
    "\u{2028}x\u{85}",
    "\u{200b}not a space\u{feff}",
    "caf\u{e9} \u{1f600}",
    "\u{1f600}\u{1f600}",
    "{\"a\": 1}\n",
];

#[test]
fn whitespace_is_that_of_unicode() {
    for n in 0..=0x10ffff_u32 {
        if let Some(c) = char::from_u32(n) {
            assert_eq!(space(c), c.is_whitespace(), "{n:x}");
        }
    }
}

#[test]
fn trimming_agrees_with_the_standard_library() {
    for s in SAMPLES {
        assert_eq!(trim(s), s.trim());
    }
    assert_eq!(trim(" \t a b \n"), "a b");
}

#[test]
fn words_agree_with_the_standard_library() {
    for s in SAMPLES {
        let expected: Vec<String> = s.split_whitespace().map(String::from).collect();
        assert_eq!(split_words(s), expected);
    }
    assert_eq!(split_words(" GET  /x "), vec!["GET".to_string(), "/x".to_string()]);
}

#[test]
fn first_lines_agree_with_the_standard_library() {
    for s in SAMPLES {
        assert_eq!(find_line(s), s.lines().next());
    }
    assert_eq!(find_line("a\r\nb"), Some("a"));
    assert_eq!(find_line("a\r"), Some("a\r"));
    assert_eq!(find_line("\nb"), Some(""));
    assert_eq!(find_line(""), None);
}

#[test]
fn texts_are_joined_with_the_separator_between() {
    let list = |items: &[&str]| items.iter().map(|s| s.to_string()).collect::<Vec<String>>();
    for items in [&[][..], &["a"][..], &["a", "b"][..], &["", "", "c"][..]] {
        assert_eq!(join(&list(items), " "), list(items).join(" "));
    }
    assert_eq!(join(&list(&["echo", "1;"]), " "), "echo 1;");
}

#[test]
fn characters_make_the_text_again() {
    for s in SAMPLES {
        let chars = chars_of(s);
        assert_eq!(text_of(&chars, 0, chars.len()), s);
    }
    assert_eq!(text_of(&chars_of("abcd"), 1, 3), "bc");
}

#[test]
fn a_character_is_found_or_not() {
    assert_eq!(find(&chars_of("a?b?c"), '?'), 1);
    assert_eq!(find(&chars_of("abc"), '?'), 3);
    assert_eq!(find(&chars_of(""), '?'), 0);
}

#[test]
fn texts_compare_by_their_characters() {
    assert!(same_text("GET", "GET"));
    assert!(!same_text("GET", "get"));
    assert!(!same_text("GET", "GETS"));
}

#[test]
fn a_prefix_is_taken_off() {
    assert_eq!(strip_prefix("-lphp", "-l"), Some("php"));
    assert_eq!(strip_prefix("-l", "-l"), Some(""));
    assert_eq!(strip_prefix("-", "-l"), None);
    assert_eq!(strip_prefix("-Lphp", "-l"), None);
}

#[test]
fn only_ascii_capitals_are_made_small() {
    for s in ["PHP", "Log", "\u{c9}A", "a-Z[@`{"] {
        assert_eq!(to_lowercase(s), s.to_ascii_lowercase());
    }
    assert_eq!(to_lowercase("PhP"), "php");
}

#[test]
fn numbers_are_written_in_decimal() {
    for n in [0, 9, 10, 200, 405, 8192, u64::MAX] {
        assert_eq!(decimal_text(n), n.to_string());
    }
    for n in [0, 1, -1, 255, i32::MAX, i32::MIN] {
        assert_eq!(signed_decimal_text(n), n.to_string());
    }
    assert_eq!(signed_decimal_text(-10), "-10");
}

#[test]
fn numbers_are_written_in_hexadecimal() {
    for n in [0, 1, 0xabcd, 0xffff] {
        assert_eq!(hexadecimal_text(n, 4), format!("{n:04x}"));
    }
    assert_eq!(hexadecimal_text(0xdeadbeef, 8), "deadbeef");
    assert_eq!(hexadecimal_text(0xdeadbeef, 4), "beef");
}

#[test]
fn a_number_in_decimal_reads_back() {
    for n in [0, 7, 10, 99, 8192, u64::MAX] {
        assert_eq!(decimal_text(n).parse::<u64>().unwrap(), n);
    }
}
