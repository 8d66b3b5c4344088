use unipac::text;

fn owned(parts: &[&str]) -> Vec<String> {
    parts.iter().map(|part| part.to_string()).collect()
}

const SAMPLES: [&str; 14] = [
    "",
    "a",
    "a b",
    " a  b ",
    "a\nb",
    "a\nb\n",
    "a\r\nb\r\n",
    "a\r",
    "\n",
    "\n\n",
    "a\n\nb",
    "tab\tseparated\tline",
    "h\u{e9}llo w\u{f6}rld",
    "\r\n\r",
];

#[test]
fn chars_and_same() {
    assert_eq!(text::chars("h\u{e9}"), vec!['h', '\u{e9}']);
    assert!(text::same("abc", "abc"));
    assert!(!text::same("abc", "abd"));
    assert!(!text::same("abc", "ab"));
    assert_eq!(text::slice("h\u{e9}llo", 1, 3), "\u{e9}l");
    assert_eq!(text::join2("ab", "cd"), "abcd");
}

#[test]
fn split_is_str_split() {
    for sample in SAMPLES {
        for sep in [' ', '\n', '\t', 'a'] {
            let expected: Vec<String> = sample.split(sep).map(String::from).collect();
            assert_eq!(text::split(sample, sep), expected, "{sample:?} at {sep:?}");
        }
    }
    assert_eq!(text::split("a,b,,c", ','), owned(&["a", "b", "", "c"]));
    assert_eq!(text::split("", ','), owned(&[""]));
    assert_eq!(text::split("a,", ','), owned(&["a", ""]));
}

#[test]
fn lines_is_str_lines() {
    for sample in SAMPLES {
        let expected: Vec<String> = sample.lines().map(String::from).collect();
        assert_eq!(text::lines(sample), expected, "{sample:?}");
    }
    assert_eq!(text::lines("one\r\ntwo\nthree"), owned(&["one", "two", "three"]));
    assert_eq!(text::lines(""), Vec::<String>::new());
}

#[test]
fn join_is_slice_join() {
    assert_eq!(text::join(&owned(&[]), ", "), "");
    assert_eq!(text::join(&owned(&["a"]), ", "), "a");
    assert_eq!(text::join(&owned(&["a", "b", "c"]), ", "), "a, b, c");
    assert_eq!(text::join(&owned(&["", ""]), "\t"), "\t");
}

#[test]
fn decimal_is_to_string() {
    for n in [0usize, 1, 9, 10, 11, 99, 100, 101, 12345, usize::MAX] {
        assert_eq!(text::decimal_string(n), n.to_string());
    }
}

#[test]
fn has_and_begins_are_contains_and_starts_with() {
    for sample in SAMPLES {
        for pattern in ["", "a", "  ", "\t", "b\n", "Updating ", "w\u{f6}"] {
            assert_eq!(text::has(sample, pattern), sample.contains(pattern), "{sample:?} {pattern:?}");
            assert_eq!(text::begins(sample, pattern), sample.starts_with(pattern));
        }
    }
    assert!(text::has("Updating org.gimp.GIMP", "gimp"));
    assert!(!text::has("ab", "abc"));
    assert!(text::begins("Updating x", "Updating "));
    assert!(!text::begins("updating x", "Updating "));
}

#[test]
fn split_once_head_and_second() {
    for sample in SAMPLES {
        for sep in [' ', '\n', 'a', '+'] {
            let expected = sample.split_once(sep).map(|(a, b)| (a.to_string(), b.to_string()));
            assert_eq!(text::split_once(sample, sep), expected);
            assert_eq!(text::head(sample, sep), sample.splitn(2, sep).next().unwrap());
            assert_eq!(text::second(sample, sep), sample.split(sep).nth(1).map(String::from));
        }
    }
    assert_eq!(text::split_once("git+https://x#abc", '+'), Some(("git".to_string(), "https://x#abc".to_string())));
    assert_eq!(text::split_once("nothing", '+'), None);
    assert_eq!(text::head("linux 6.1 -> 6.2", ' '), "linux");
    assert_eq!(text::second("upgrading linux...", ' '), Some("linux...".to_string()));
    assert_eq!(text::second("upgrading", ' '), None);
}

#[test]
fn parse_i32_is_str_parse() {
    let samples = [
        "", "0", "7", "42", "-42", "+42", "+", "-", "--1", "+-1", "12a", "a12", " 1", "1 ",
        "2147483647", "2147483648", "-2147483648", "-2147483649", "00012", "-0", "+0",
        "99999999999999999999999999", "\u{664}\u{662}",
    ];
    for sample in samples {
        assert_eq!(text::parse_i32(sample), sample.parse::<i32>().ok(), "{sample:?}");
    }
}

#[test]
fn byte_len_and_byte_slice_are_str_len_and_get() {
    let samples = ["", "a", "ab", "abc", "abcd", "\u{e9}", "a\u{e9}", "\u{e9}a", "\u{20ac}uro", "a\u{1f600}b", "(x)"];
    for sample in samples {
        assert_eq!(text::byte_len(sample), sample.len() as u128);
        for from in 0..8usize {
            for to in 0..8usize {
                let expected = sample.get(from..to).map(String::from);
                assert_eq!(text::byte_slice(sample, from as u128, to as u128), expected, "{sample:?} {from}..{to}");
            }
        }
    }
}

#[test]
fn replace_is_str_replace() {
    let samples = ["", "__manager", "x__manager__manager y", "__Manager_to_string", "aaa", "aaaa", "abab", "__MANAGER_STYLE"];
    for sample in samples {
        for (from, to) in [("__manager", "pacman"), ("aa", "b"), ("ab", ""), ("a", "aa"), ("__M", "__m"), ("", "-"), ("", "")] {
            assert_eq!(text::replace(sample, from, to), sample.replace(from, to), "{sample:?} {from:?} {to:?}");
        }
    }
}
