use commit_cat::utils::text::{
    contains, file_name, has_prefix, has_suffix, is_whitespace, matches_at, parse_u32, same_text,
    slice, split_lines, to_chars, trim, trim_range, trim_str,
};

fn chars(s: &str) -> Vec<char> {
    s.chars().collect()
}

fn text(v: &[char]) -> String {
    v.iter().collect()
}

fn samples() -> Vec<&'static str> {
    vec![
        "",
        " ",
        "\n",
        "\r\n",
        "a",
        "  a  ",
        "\t/usr/bin/code \r\n",
        "one\ntwo\nthree",
        "one\ntwo\nthree\n",
        "one\r\ntwo\r\n\r\nthree\r",
        "\n\nx\n\n",
        "/Applications/Visual Studio Code.app/Contents/MacOS/Electron",
        "trailing/slash/",
        "\u{3000}wide\u{2003}space\u{a0}",
        "caf\u{e9} \u{1F600} end",
        "a\rb",
        "\r",
        "\r\r\n",
    ]
}

#[test]
fn to_chars_keeps_every_character() {
    for s in samples() {
        assert_eq!(to_chars(s), chars(s));
    }
}

#[test]
fn white_space_is_what_the_standard_library_calls_white_space() {
    let mut code: u32 = 0;
    while code <= 0x10FFFF {
        if let Some(c) = char::from_u32(code) {
            assert_eq!(is_whitespace(c), c.is_whitespace(), "U+{:04X}", code);
        }
        code += 1;
    }
}

#[test]
fn trim_agrees_with_the_standard_library() {
    for s in samples() {
        assert_eq!(text(&trim(&chars(s))), s.trim(), "{:?}", s);
        assert_eq!(trim_str(s), s.trim(), "{:?}", s);
        let (a, b) = trim_range(&chars(s));
        assert_eq!(text(&chars(s)[a..b]), s.trim());
    }
}

#[test]
fn trim_of_white_space_only_is_empty() {
    assert_eq!(trim_str(" \t\r\n "), "");
    assert_eq!(trim_range(&chars("   ")), (3, 3));
}

#[test]
fn split_lines_agrees_with_the_standard_library() {
    for s in samples() {
        let ours: Vec<String> = split_lines(&chars(s)).iter().map(|l| text(l)).collect();
        let theirs: Vec<String> = s.lines().map(|l| l.to_string()).collect();
        assert_eq!(ours, theirs, "{:?}", s);
    }
}

#[test]
fn split_lines_keeps_a_carriage_return_that_no_line_feed_follows() {
    let lines = split_lines(&chars("a\r\nb\r"));
    assert_eq!(lines, vec![chars("a"), chars("b\r")]);
    assert!(split_lines(&chars("")).is_empty());
    assert_eq!(split_lines(&chars("\n")), vec![chars("")]);
}

#[test]
fn file_name_is_what_follows_the_last_slash() {
    for s in samples() {
        let expected = s.rsplit('/').next().unwrap_or(s);
        assert_eq!(text(&file_name(&chars(s))), expected, "{:?}", s);
    }
    assert_eq!(text(&file_name(&chars("/usr/bin/code"))), "code");
    assert_eq!(text(&file_name(&chars("code"))), "code");
    assert_eq!(text(&file_name(&chars("dir/"))), "");
}

#[test]
fn contains_agrees_with_the_standard_library() {
    let needles = ["", "a", "o", "on", "one", "three", "\n", "code", "Code", "e\n", "xyz", "  "];
    for s in samples() {
        for n in needles {
            assert_eq!(contains(&chars(s), &chars(n)), s.contains(n), "{:?} in {:?}", n, s);
            assert_eq!(has_suffix(&chars(s), &chars(n)), s.ends_with(n), "{:?} {:?}", n, s);
            assert_eq!(has_prefix(&chars(s), &chars(n)), s.starts_with(n), "{:?} {:?}", n, s);
            assert_eq!(same_text(&chars(s), &chars(n)), s == n);
        }
    }
}

#[test]
fn contains_finds_a_needle_at_the_very_end() {
    assert!(contains(&chars("abc"), &chars("c")));
    assert!(contains(&chars("abc"), &chars("abc")));
    assert!(!contains(&chars("abc"), &chars("abcd")));
    assert!(!contains(&chars("abc"), &chars("ca")));
}

#[test]
fn matches_at_compares_in_place() {
    let hay = chars("hello world");
    assert!(matches_at(&hay, 6, &chars("world")));
    assert!(!matches_at(&hay, 5, &chars("world")));
    assert!(matches_at(&hay, 11, &chars("")));
}

#[test]
fn slice_copies_a_range() {
    let hay = chars("hello world");
    assert_eq!(slice(&hay, 0, 5), chars("hello"));
    assert_eq!(slice(&hay, 6, 11), chars("world"));
    assert_eq!(slice(&hay, 4, 4), chars(""));
}

#[test]
fn parse_u32_agrees_with_the_standard_library() {
    let inputs = [
        "", "0", "7", "007", "42", "+42", "+", "-1", "-0", "++1", "1+", " 1", "1 ", "12a", "a12",
        "4294967295", "4294967296", "04294967295", "99999999999999999999999999", "+0",
        "+4294967295", "+4294967296", "1_000", "0x10", "٣",
    ];
    for s in inputs {
        assert_eq!(parse_u32(&chars(s)), s.parse::<u32>().ok(), "{:?}", s);
    }
}

#[test]
fn parse_u32_reads_the_largest_number() {
    assert_eq!(parse_u32(&chars("4294967295")), Some(u32::MAX));
    assert_eq!(parse_u32(&chars("4294967296")), None);
}
