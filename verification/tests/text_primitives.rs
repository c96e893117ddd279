use sysadminlib::text::{
    copy_range, decode, from_chars, has_phrase, has_prefix, is_whitespace, matches_at, same_text,
    split_lines, split_on, split_words, to_chars, trim_start,
};

fn chars(s: &str) -> Vec<char> {
    s.chars().collect()
}

fn strings(parts: Vec<Vec<char>>) -> Vec<String> {
    parts.into_iter().map(|p| p.into_iter().collect()).collect()
}

const SAMPLES: [&str; 16] = [
    "",
    "a",
    "\n",
    "a\n",
    "a\nb",
    "a\n\nb\n",
    "a\r\nb\r\n",
    "foo\nbar\n\r\nbaz\r",
    "\r",
    "\r\n",
    "\r\r\n",
    "  leading and trailing  ",
    "tabs\tand\u{a0}no-break\u{3000}wide",
    "one.two.three",
    ".a..b.",
    "é\u{2003}ü\u{85}x\u{1680}y\u{2028}z\u{200b}w",
];

#[test]
fn characters_go_to_a_string_and_back() {
    for sample in SAMPLES {
        assert_eq!(to_chars(sample), chars(sample));
        assert_eq!(from_chars(&chars(sample)), sample);
    }
    assert_eq!(from_chars(&vec!['h', 'é', '\u{1F600}']), "hé\u{1F600}");
}

#[test]
fn lines_are_those_of_the_standard_library() {
    for sample in SAMPLES {
        let expected: Vec<String> = sample.lines().map(|l| l.to_string()).collect();
        assert_eq!(strings(split_lines(&chars(sample))), expected, "{sample:?}");
    }
}

#[test]
fn lines_keep_a_last_carriage_return_without_line_feed() {
    assert_eq!(strings(split_lines(&chars("foo\nbar\n\r\nbaz\r"))), ["foo", "bar", "", "baz\r"]);
    assert_eq!(strings(split_lines(&chars("a\n\nb\n"))), ["a", "", "b"]);
    assert_eq!(strings(split_lines(&chars(""))), Vec::<String>::new());
    assert_eq!(strings(split_lines(&chars("\r\r\n"))), ["\r"]);
}

#[test]
fn words_are_those_of_the_standard_library() {
    for sample in SAMPLES {
        let expected: Vec<String> = sample.split_whitespace().map(|l| l.to_string()).collect();
        assert_eq!(strings(split_words(&chars(sample))), expected, "{sample:?}");
    }
}

#[test]
fn words_are_runs_without_white_space() {
    assert_eq!(strings(split_words(&chars("  a  bc \t d\n"))), ["a", "bc", "d"]);
    assert_eq!(strings(split_words(&chars(" \t "))), Vec::<String>::new());
    assert_eq!(strings(split_words(&chars("x\u{200b}y"))), ["x\u{200b}y"]);
}

#[test]
fn pieces_are_those_of_the_standard_library() {
    for sample in SAMPLES {
        for sep in ['.', '\n', ' ', 'a'] {
            let expected: Vec<String> = sample.split(sep).map(|l| l.to_string()).collect();
            assert_eq!(strings(split_on(&chars(sample), sep)), expected, "{sample:?}");
        }
    }
}

#[test]
fn pieces_keep_empty_ones() {
    assert_eq!(strings(split_on(&chars(".a..b."), '.')), ["", "a", "", "b", ""]);
    assert_eq!(strings(split_on(&chars(""), '.')), [""]);
    assert_eq!(strings(split_on(&chars("abc"), '.')), ["abc"]);
}

#[test]
fn white_space_is_that_of_unicode() {
    let mut code = 0u32;
    while code <= 0x11000 {
        if let Some(c) = char::from_u32(code) {
            assert_eq!(is_whitespace(c), c.is_whitespace(), "U+{code:04X}");
        }
        code += 1;
    }
    assert!(!is_whitespace('\u{10FFFF}'));
}

#[test]
fn leading_white_space_is_dropped() {
    for sample in SAMPLES {
        assert_eq!(from_chars(&trim_start(&chars(sample))), sample.trim_start(), "{sample:?}");
    }
    assert_eq!(from_chars(&trim_start(&chars(" \t x y "))), "x y ");
    assert_eq!(from_chars(&trim_start(&chars("   "))), "");
}

#[test]
fn phrases_are_found_as_by_the_standard_library() {
    let phrases = ["", "a", "ab", "\n", "two", "three", "one.two.three", "one.two.three.", "é"];
    for sample in SAMPLES {
        for phrase in phrases {
            assert_eq!(
                has_phrase(&chars(sample), &chars(phrase)),
                sample.contains(phrase),
                "{sample:?} {phrase:?}"
            );
            assert_eq!(
                has_prefix(&chars(sample), &chars(phrase)),
                sample.starts_with(phrase),
                "{sample:?} {phrase:?}"
            );
            assert_eq!(same_text(&chars(sample), &chars(phrase)), sample == phrase);
        }
    }
}

#[test]
fn phrase_at_an_index() {
    let text = chars("abcabc");
    assert!(matches_at(&text, &chars("abc"), 0));
    assert!(matches_at(&text, &chars("abc"), 3));
    assert!(!matches_at(&text, &chars("abc"), 1));
    assert!(!matches_at(&text, &chars("abc"), 4));
    assert!(matches_at(&text, &chars(""), 6));
    assert!(!matches_at(&text, &chars(""), 7));
    assert!(!matches_at(&text, &chars("abcabca"), 0));
}

#[test]
fn a_range_is_copied() {
    let text = chars("hello");
    assert_eq!(copy_range(&text, 1, 3), chars("el"));
    assert_eq!(copy_range(&text, 0, 5), text);
    assert_eq!(copy_range(&text, 5, 5), chars(""));
}

#[test]
fn bytes_are_decoded_as_utf8() {
    assert_eq!(decode(&b"plain".to_vec()), Some("plain".to_string()));
    assert_eq!(decode(&"h\u{e9}llo \u{1F600}".as_bytes().to_vec()), Some("héllo \u{1F600}".to_string()));
    assert_eq!(decode(&vec![]), Some(String::new()));
}

#[test]
fn bytes_that_are_not_utf8_are_not_decoded() {
    assert_eq!(decode(&vec![0xff]), None);
    assert_eq!(decode(&vec![b'a', 0xc3]), None);
    assert_eq!(decode(&vec![0xc0, 0x80]), None);
    assert_eq!(decode(&vec![0xed, 0xa0, 0x80]), None);
    assert_eq!(decode(&vec![0xf4, 0x90, 0x80, 0x80]), None);
}

fn pseudo_random_texts() -> Vec<String> {
    let alphabet = ['a', 'b', '.', ':', ' ', '\t', '\n', '\r', '\u{a0}', 'é', '\u{2028}', '='];
    let mut state: u64 = 0x2545_f491_4f6c_dd1d;
    let mut texts = Vec::new();
    for round in 0..400u64 {
        let mut text = String::new();
        let len = round % 23;
        for _ in 0..len {
            state ^= state << 13;
            state ^= state >> 7;
            state ^= state << 17;
            text.push(alphabet[(state % alphabet.len() as u64) as usize]);
        }
        texts.push(text);
    }
    texts
}

#[test]
fn splitting_agrees_with_the_standard_library_on_many_texts() {
    for text in pseudo_random_texts() {
        let expected: Vec<String> = text.lines().map(|l| l.to_string()).collect();
        assert_eq!(strings(split_lines(&chars(&text))), expected, "{text:?}");
        let expected: Vec<String> = text.split_whitespace().map(|l| l.to_string()).collect();
        assert_eq!(strings(split_words(&chars(&text))), expected, "{text:?}");
        for sep in ['.', ':', '='] {
            let expected: Vec<String> = text.split(sep).map(|l| l.to_string()).collect();
            assert_eq!(strings(split_on(&chars(&text), sep)), expected, "{text:?}");
        }
        assert_eq!(from_chars(&trim_start(&chars(&text))), text.trim_start(), "{text:?}");
        for phrase in ["a", "ab", ". ", "\n", " :", "a.b"] {
            assert_eq!(has_phrase(&chars(&text), &chars(phrase)), text.contains(phrase));
            assert_eq!(has_prefix(&chars(&text), &chars(phrase)), text.starts_with(phrase));
        }
    }
}
