use http_wire::text::{
    chars_of, decimal_string, join_strings, parse_usize_str, split_once_str, split_str, str_eq,
    trim_str,
};

const SAMPLES: [&str; 14] = [
    "",
    "a",
    "abc",
    "  padded\t",
    "\u{a0}nbsp\u{3000}",
    "a,b,,c",
    ",",
    "key=value=more",
    "one; two;three",
    "line\r\nnext\r\n\r\n",
    "ünïcödé, text",
    "+42",
    "007",
    "18446744073709551616",
];

#[test]
fn chars_of_gives_the_characters() {
    for s in SAMPLES {
        assert_eq!(chars_of(s), s.chars().collect::<Vec<char>>());
    }
}

#[test]
fn str_eq_compares_text() {
    assert!(str_eq("GET", "GET"));
    assert!(!str_eq("GET", "GETS"));
    assert!(!str_eq("GET", "get"));
    assert!(str_eq("", ""));
}

#[test]
fn trim_str_matches_std_trim() {
    for s in SAMPLES {
        assert_eq!(trim_str(s), s.trim());
    }
    assert_eq!(trim_str(" \u{2003}x y\u{85} "), "x y");
}

#[test]
fn split_str_matches_std_split() {
    let seps = [",", ";", "\r\n", " ", "=", "ab", ""];
    for s in SAMPLES {
        for sep in seps {
            let expected: Vec<&str> = s.split(sep).collect();
            assert_eq!(split_str(s, sep), expected, "splitting {:?} at {:?}", s, sep);
        }
    }
}

#[test]
fn split_once_str_matches_std_split_once() {
    let seps = [",", ";", "\r\n", " ", "=", ""];
    for s in SAMPLES {
        for sep in seps {
            assert_eq!(split_once_str(s, sep), s.split_once(sep), "{:?} at {:?}", s, sep);
        }
    }
}

#[test]
fn decimal_string_matches_display() {
    for n in [0u64, 7, 10, 42, 999, 1000, 65535, u64::MAX] {
        assert_eq!(decimal_string(n), n.to_string());
    }
}

#[test]
fn parse_usize_str_matches_std_parse() {
    let cases = [
        "", "0", "42", "+42", "+", "-", "-1", "007", " 7", "7 ", "1_000", "18446744073709551615",
        "18446744073709551616", "４２", "12a",
    ];
    for s in cases {
        assert_eq!(parse_usize_str(s), s.parse::<usize>().ok(), "{:?}", s);
    }
}

#[test]
fn join_strings_matches_std_join() {
    let parts = vec!["a".to_string(), "".to_string(), "c".to_string()];
    assert_eq!(join_strings(&parts, ", "), parts.join(", "));
    assert_eq!(join_strings(&Vec::new(), ";"), "");
}
