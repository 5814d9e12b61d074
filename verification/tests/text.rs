use midi_mapper_linux::text::{
    chars_of, contains_chars, is_white_space_char, lines_of, push_decimal, push_zero_padded,
    second_field_of, split_chars, string_from, trim_bounds,
};

fn cs(s: &str) -> Vec<char> {
    s.chars().collect()
}

fn st(v: &[char]) -> String {
    v.iter().collect()
}

const SAMPLES: &[&str] = &[
    "",
    "\n",
    "\n\n",
    "a",
    "a\n",
    "a\r\n",
    "a\r",
    "a\rb\r\n\r\nc",
    "one\ntwo\r\nthree",
    "x\n\ny\n",
    "\r\n",
    "tab\tsep\t\tend",
    "  \u{a0}mixed\u{3000} white\t ",
    "\u{2009}",
];

#[test]
fn lines_match_str_lines() {
    for s in SAMPLES {
        let got: Vec<String> = lines_of(&cs(s)).iter().map(|l| st(l)).collect();
        let want: Vec<String> = s.lines().map(|l| l.to_string()).collect();
        assert_eq!(got, want, "input {:?}", s);
    }
}

#[test]
fn split_matches_str_split() {
    for s in SAMPLES {
        for sep in ['\t', '\n', 'a'] {
            let got: Vec<String> = split_chars(&cs(s), sep).iter().map(|l| st(l)).collect();
            let want: Vec<String> = s.split(sep).map(|l| l.to_string()).collect();
            assert_eq!(got, want, "input {:?} sep {:?}", s, sep);
        }
    }
}

#[test]
fn trim_matches_str_trim() {
    for s in SAMPLES {
        let c = cs(s);
        let (a, b) = trim_bounds(&c);
        assert_eq!(st(&c[a..b]), s.trim(), "input {:?}", s);
    }
}

#[test]
fn white_space_matches_char_is_whitespace() {
    for u in 0..=0x10FFFFu32 {
        if let Some(c) = char::from_u32(u) {
            assert_eq!(is_white_space_char(c), c.is_whitespace(), "char {:#x}", u);
        }
    }
}

#[test]
fn contains_matches_str_contains() {
    let hays = ["", "abc", "org.mpris.MediaPlayer2.vlc", "aab", "ab"];
    let needles = ["", "a", "ab", "abc", "abcd", "org.mpris.MediaPlayer2", "b"];
    for h in hays {
        for n in needles {
            assert_eq!(contains_chars(&cs(h), &cs(n)), h.contains(n), "{:?} in {:?}", n, h);
        }
    }
}

#[test]
fn second_field_matches_split_nth() {
    for s in ["a\tb\tc", "a", "a\t", "\tb", "a\tb", ""] {
        let got = second_field_of(&cs(s)).map(|f| st(&f));
        let want = s.split('\t').nth(1).map(|f| f.to_string());
        assert_eq!(got, want, "input {:?}", s);
    }
}

#[test]
fn decimal_and_padding_match_format() {
    for n in [0u32, 5, 9, 10, 42, 99, 100, 127, 255, 1000, 65535, u32::MAX] {
        let mut s = String::new();
        push_decimal(&mut s, n);
        assert_eq!(s, format!("{}", n));
        for w in [0usize, 1, 2, 3, 5] {
            let mut p = String::from("x");
            push_zero_padded(&mut p, n, w);
            assert_eq!(p, format!("x{:0w$}", n, w = w));
        }
    }
}

#[test]
fn chars_and_strings_round_trip() {
    for s in SAMPLES {
        let c = chars_of(s);
        assert_eq!(c, cs(s));
        assert_eq!(string_from(&c, 0, c.len()), *s);
    }
    let c = chars_of("hello");
    assert_eq!(string_from(&c, 1, 3), "el");
}
