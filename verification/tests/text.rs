use silo::numbers::{decimal_string, parse_u32};
use silo::scan::after_last;
use silo::scan::char_is_space;
use silo::scan::contains;
use silo::scan::has_prefix;
use silo::scan::lines;
use silo::scan::replace_char;
use silo::scan::strip_prefix;
use silo::scan::trim;
use silo::scan::trim_end_matches;
use silo::scan::words;
use silo::text::{chars_of, concat_str, join, split, str_eq, string_of};

const TEXTS: [&str; 24] = [
    "",
    " ",
    "a",
    " a ",
    "\ta b\n",
    "a\nb",
    "a\nb\n",
    "a\r\nb\r\n",
    "a\rb\r",
    "\n",
    "\n\n",
    "\r\n",
    "a\n\r\nb\r",
    "  two  words ",
    "\u{a0}x\u{2003}y\u{3000}",
    "\u{85}line\u{2028}",
    "x\u{200b}y",
    "tab\tsep\tvalues",
    "trailing\n\n\n",
    "é\nü",
    "a b\tc\nd\re\u{b}f\u{c}g",
    "\u{1680}\u{2000}\u{200a}\u{2029}\u{202f}\u{205f}",
    "\u{1c}\u{1f}\u{180e}",
    "mixed \r\n endings\nhere\r",
];

#[test]
fn split_and_join_agree_with_std() {
    for text in TEXTS {
        for sep in ['\n', '\t', ' ', '/'] {
            let expected: Vec<String> = text.split(sep).map(|s| s.to_string()).collect();
            assert_eq!(split(text, sep), expected, "{:?} by {:?}", text, sep);
            assert_eq!(join(&expected, &sep.to_string()), text);
        }
    }
    assert_eq!(split("a/b//c", '/'), vec!["a", "b", "", "c"]);
    assert_eq!(
        join(&vec!["a".to_string(), "b".to_string(), "c".to_string()], ", "),
        "a, b, c"
    );
    assert_eq!(join(&Vec::new(), ", "), "");
}

#[test]
fn trim_agrees_with_std() {
    for text in TEXTS {
        assert_eq!(trim(text), text.trim(), "{:?}", text);
    }
    assert_eq!(trim("  a b \n"), "a b");
}

#[test]
fn white_space_agrees_with_std() {
    for code in 0u32..0x3100 {
        if let Some(c) = char::from_u32(code) {
            assert_eq!(char_is_space(c), c.is_whitespace(), "U+{:04X}", code);
        }
    }
    assert!(!char_is_space('\u{feff}'));
}

#[test]
fn lines_agree_with_std() {
    for text in TEXTS {
        let expected: Vec<String> = text.lines().map(|s| s.to_string()).collect();
        assert_eq!(lines(text), expected, "{:?}", text);
    }
    assert_eq!(lines("a\r\nb\n\nc"), vec!["a", "b", "", "c"]);
}

#[test]
fn words_agree_with_std() {
    for text in TEXTS {
        let expected: Vec<String> = text.split_whitespace().map(|s| s.to_string()).collect();
        assert_eq!(words(text), expected, "{:?}", text);
    }
    assert_eq!(words("  git   diff "), vec!["git", "diff"]);
}

#[test]
fn prefixes_and_suffixes_agree_with_std() {
    let patterns = ["", "a", " ", "\n", "a\n", "tab", "é", "ab", "x"];
    for text in TEXTS {
        for pattern in patterns {
            assert_eq!(has_prefix(text, pattern), text.starts_with(pattern));
            assert_eq!(
                strip_prefix(text, pattern),
                text.strip_prefix(pattern).map(|s| s.to_string())
            );
            assert_eq!(contains(text, pattern), text.contains(pattern));
            if !pattern.is_empty() {
                assert_eq!(trim_end_matches(text, pattern), text.trim_end_matches(pattern));
                assert_eq!(after_last(text, pattern), text.split(pattern).last().unwrap());
            }
        }
    }
    assert_eq!(trim_end_matches("repo.git.git", ".git"), "repo");
    assert_eq!(trim_end_matches("repo", ""), "repo");
    assert_eq!(after_last("old -> new", " -> "), "new");
    assert_eq!(after_last("a -> -> b", " -> "), "-> b");
    assert_eq!(after_last("a ->  -> b", " -> "), "b");
    assert_eq!(after_last("plain", " -> "), "plain");
}

#[test]
fn replace_char_agrees_with_std() {
    for text in TEXTS {
        assert_eq!(replace_char(text, ' ', "\\ "), text.replace(' ', "\\ "));
        assert_eq!(replace_char(text, '\n', ""), text.replace('\n', ""));
    }
    assert_eq!(replace_char("a:b:c", ':', "\\:"), "a\\:b\\:c");
}

#[test]
fn characters_and_strings() {
    assert_eq!(chars_of("héllo"), vec!['h', 'é', 'l', 'l', 'o']);
    let chars = chars_of("héllo");
    assert_eq!(string_of(&chars, 1, 3), "él");
    assert_eq!(string_of(&chars, 2, 2), "");
    assert!(str_eq("abc", "abc"));
    assert!(!str_eq("abc", "abd"));
    assert!(!str_eq("abc", "ab"));
    assert_eq!(concat_str("ab", "cd"), "abcd");
}

#[test]
fn decimal_agrees_with_std() {
    for n in [0u64, 1, 9, 10, 11, 99, 100, 12345, 4294967295, 4294967296, u64::MAX] {
        assert_eq!(decimal_string(n), n.to_string());
    }
}

#[test]
fn parse_u32_agrees_with_std() {
    let samples = [
        "", "0", "7", "007", "+7", "+", "-7", "++7", "4294967295", "4294967296", "+4294967295",
        "99999999999999999999999", "12a", "a12", " 12", "12 ", "１２", "1_000", "0x10", "-0",
        "+0", "000000000000000000000001",
    ];
    for sample in samples {
        assert_eq!(parse_u32(sample), sample.parse::<u32>().ok(), "{:?}", sample);
    }
    assert_eq!(parse_u32("42"), Some(42));
    assert_eq!(parse_u32("-"), None);
}
