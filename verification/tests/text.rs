use daemon_green::path::join;
use daemon_green::text::{
    contains_whitespace, decimal, decode, ends_with, is_whitespace, lines, parse_u32, same_text,
    signed_decimal, split_once, strip_prefix, tail_lines, trim,
};
use std::path::PathBuf;

const TEXTS: [&str; 22] = [
    "",
    " ",
    "a",
    " a ",
    "\t a b \n",
    "\n",
    "\r\n",
    "\r",
    "a\n",
    "a\r\n",
    "a\r",
    "a\nb",
    "a\r\nb\r\n",
    "a\n\nb\n\n",
    "a\r\r\nb",
    "\u{a0}\u{3000}é\u{2028}",
    "k=v",
    "k=v=w",
    "=",
    " k = v ",
    "pid = 17",
    "com.x.y.service",
];

#[test]
fn white_space_is_that_of_the_standard_library() {
    for n in 0..=0x10ffff {
        if let Some(c) = char::from_u32(n) {
            assert_eq!(is_whitespace(c), c.is_whitespace(), "{n:x}");
        }
    }
    for s in TEXTS {
        assert_eq!(contains_whitespace(s), s.contains(char::is_whitespace));
    }
}

#[test]
fn trimming_is_that_of_the_standard_library() {
    for s in TEXTS {
        assert_eq!(trim(s), s.trim());
        assert_eq!(trim(&trim(s)), trim(s));
    }
}

#[test]
fn lines_are_those_of_the_standard_library() {
    for s in TEXTS {
        let expected: Vec<&str> = s.lines().collect();
        assert_eq!(lines(s), expected, "{s:?}");
    }
}

#[test]
fn splitting_is_that_of_the_standard_library() {
    for s in TEXTS {
        let expected = s
            .split_once('=')
            .map(|(a, b)| (a.to_string(), b.to_string()));
        assert_eq!(split_once(s, '='), expected);
    }
}

#[test]
fn prefixes_and_suffixes_are_those_of_the_standard_library() {
    for s in TEXTS {
        for t in TEXTS {
            assert_eq!(ends_with(s, t), s.ends_with(t));
            assert_eq!(
                strip_prefix(s, t),
                s.strip_prefix(t).map(|r| r.to_string())
            );
            assert_eq!(same_text(s, t), s == t);
        }
    }
    assert_eq!(strip_prefix("pid = 17", "pid = ").as_deref(), Some("17"));
}

#[test]
fn decimals_are_those_of_the_standard_library() {
    for n in [0, 1, 9, 10, 11, 99, 100, 501, 1000, 4294967295, u64::MAX] {
        assert_eq!(decimal(n), n.to_string());
    }
    for n in [0, 1, -1, 9, -10, 127, i32::MAX, i32::MIN] {
        assert_eq!(signed_decimal(n), n.to_string());
    }
    assert_eq!(signed_decimal(i32::MIN), "-2147483648");
}

#[test]
fn numbers_are_read_as_by_the_standard_library() {
    for s in [
        "", "0", "1", "+1", "-1", "-0", "+", "++1", "00012", "4294967295", "4294967296",
        "99999999999999999999999", "1a", "a", " 1", "1 ", "\u{661}", "+0",
    ] {
        assert_eq!(parse_u32(s), s.parse::<u32>().ok(), "{s:?}");
    }
    assert_eq!(parse_u32("4294967295"), Some(u32::MAX));
}

#[test]
fn written_numbers_are_read_back() {
    for n in [0, 1, 10, 4096, u32::MAX] {
        assert_eq!(parse_u32(&decimal(n as u64)), Some(n));
    }
}

#[test]
fn tail_has_the_last_lines() {
    for s in TEXTS {
        for n in [0, 1, 2, 3, 100, usize::MAX] {
            let tail: Vec<&str> = s.lines().rev().take(n).collect();
            let expected = tail.into_iter().rev().collect::<Vec<_>>().join("\n");
            assert_eq!(tail_lines(s, n), expected, "{s:?} {n}");
        }
    }
    assert_eq!(tail_lines("a\nb\nc\n", 2), "b\nc");
    assert_eq!(lines(&tail_lines("a\nb\nc\n", 2)), ["b", "c"]);
}

#[test]
fn paths_join_as_in_the_standard_library() {
    for base in ["", "/", "/home/u", "/home/u/", "rel", "a//"] {
        for rest in ["", "x", "x/y", "/x", "/", "./x", "../x"] {
            let expected = PathBuf::from(base).join(rest);
            assert_eq!(join(base, rest), expected.to_str().unwrap());
        }
    }
}

#[test]
fn paths_join_associatively() {
    for a in ["", "/", "/home/u", "rel/"] {
        for b in ["", "/", "x", "/x", "x/"] {
            for c in ["", "y", "/y"] {
                assert_eq!(join(&join(a, b), c), join(a, &join(b, c)));
            }
        }
    }
}

#[test]
fn output_is_decoded_as_by_the_standard_library() {
    for bytes in [
        &b""[..],
        b"plain\n",
        "\u{e9}\u{1f600}".as_bytes(),
        b"a\xffb",
        b"\xe2\x82",
        b"\xed\xa0\x80",
    ] {
        assert_eq!(decode(bytes), String::from_utf8_lossy(bytes));
    }
    assert_eq!(decode(b"pid = 1"), "pid = 1");
    assert_eq!(decode(b"a\xffb"), "a\u{fffd}b");
}
