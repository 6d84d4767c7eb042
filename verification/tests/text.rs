use hbb_common::text::{
    bytes_eq, bytes_start_with, contains, from_chars, is_whitespace, lines, push_decimal,
    push_signed_decimal, replace, split, split_whitespace, str_contains, str_eq, to_chars, trim,
    trim_end, Cut,
};

const SAMPLES: [&str; 16] = [
    "",
    " ",
    "a",
    "  a b\tc  ",
    "one\ntwo\r\nthree",
    "one\n\n two \n",
    "\r",
    "line\r",
    "\r\n\r\n",
    "a:b::c:",
    "\u{a0}x\u{3000}",
    "\"quoted\"",
    "\"\"",
    "aXbXXc",
    "aaaa",
    "äöü ß 中文",
];

fn strings(chars: Vec<Vec<char>>) -> Vec<String> {
    chars.iter().map(|c| c.iter().collect()).collect()
}

#[test]
fn whitespace_is_that_of_unicode() {
    for n in 0..=0x10FFFFu32 {
        if let Some(c) = char::from_u32(n) {
            assert_eq!(is_whitespace(c), c.is_whitespace(), "{n:x}");
        }
    }
}

#[test]
fn characters_round_trip() {
    for s in SAMPLES {
        let chars = to_chars(s);
        assert_eq!(chars, s.chars().collect::<Vec<char>>());
        assert_eq!(from_chars(&chars), s);
    }
}

#[test]
fn trimming() {
    for s in SAMPLES {
        let chars = to_chars(s);
        assert_eq!(from_chars(trim(&chars, Cut::Whitespace)), s.trim());
        assert_eq!(from_chars(trim_end(&chars, Cut::Whitespace)), s.trim_end());
        assert_eq!(from_chars(trim(&chars, Cut::Only('"'))), s.trim_matches('"'));
    }
}

#[test]
fn splitting() {
    for s in SAMPLES {
        let chars = to_chars(s);
        assert_eq!(strings(lines(&chars)), s.lines().collect::<Vec<&str>>());
        assert_eq!(
            strings(split_whitespace(&chars)),
            s.split_whitespace().collect::<Vec<&str>>()
        );
        assert_eq!(strings(split(&chars, ':')), s.split(':').collect::<Vec<&str>>());
        assert_eq!(strings(split(&chars, ' ')).len(), s.split(" ").count());
    }
}

#[test]
fn searching_and_replacing() {
    for s in SAMPLES {
        let chars = to_chars(s);
        for p in ["a", "X", "XX", "aa", "b ", "文", "absent"] {
            let pattern = to_chars(p);
            assert_eq!(contains(&chars, &pattern), s.contains(p));
            assert_eq!(str_contains(s, p), s.contains(p));
            assert_eq!(
                from_chars(&replace(&chars, &pattern, &to_chars("-X-"))),
                s.replace(p, "-X-")
            );
        }
        assert!(str_contains(s, ""));
    }
}

#[test]
fn comparing() {
    for a in SAMPLES {
        for b in SAMPLES {
            assert_eq!(str_eq(a, b), a == b);
            assert_eq!(bytes_eq(a.as_bytes(), b.as_bytes()), a == b);
            assert_eq!(bytes_start_with(a.as_bytes(), b.as_bytes()), a.starts_with(b));
        }
    }
}

#[test]
fn numbers() {
    for n in [0usize, 7, 10, 99, 100, 4294967295, usize::MAX] {
        let mut s = "n=".to_string();
        push_decimal(&mut s, n);
        assert_eq!(s, format!("n={n}"));
    }
    for n in [0i32, 5, -5, 128, i32::MAX, i32::MIN] {
        let mut s = String::new();
        push_signed_decimal(&mut s, n);
        assert_eq!(s, n.to_string());
    }
}
