use nvrc::text::{
    chars_of, contains, indent_width, is_indented, is_white_space, push_chars, push_decimal,
    push_indent, push_lines, same_text, split_lines, starts_with_chars, trimmed, trimmed_end,
    trimmed_start,
};

fn text(cs: &Vec<char>) -> String {
    let mut s = String::new();
    push_chars(&mut s, cs);
    s
}

const SAMPLES: [&str; 12] = [
    "",
    "\n",
    "a",
    "a\n",
    "a\nb",
    "a\r\nb\r\n",
    "a\r",
    "a\r\r\n\n",
    "\n\n x \n",
    "\u{3000}\u{85}x\u{2003}\n\u{a0}y",
    "\r\n",
    "gr\u{fc}\u{df}e \u{1f600}\n",
];

#[test]
fn white_space_is_that_of_unicode() {
    for u in 0..=0x10ffffu32 {
        if let Some(c) = char::from_u32(u) {
            assert_eq!(is_white_space(c), c.is_whitespace(), "U+{:04x}", u);
        }
    }
}

#[test]
fn lines_are_those_of_std() {
    for s in SAMPLES {
        let got: Vec<String> = split_lines(&chars_of(s)).iter().map(text).collect();
        let want: Vec<&str> = s.lines().collect();
        assert_eq!(got, want, "{:?}", s);
    }
}

#[test]
fn trims_are_those_of_std() {
    for s in SAMPLES {
        let cs = chars_of(s);
        assert_eq!(text(&trimmed(&cs)), s.trim());
        assert_eq!(text(&trimmed_start(&cs)), s.trim_start());
        assert_eq!(text(&trimmed_end(&cs)), s.trim_end());
    }
}

#[test]
fn indentation_counts_bytes() {
    for s in SAMPLES {
        let cs = chars_of(s);
        let bytes = s.len() - s.trim_start().len();
        let mut out = String::new();
        push_indent(&mut out, &cs);
        assert_eq!(out, " ".repeat(bytes));
        assert_eq!(is_indented(&cs), bytes > 0);
        assert_eq!(indent_width(&cs), bytes as u128);
    }
}

#[test]
fn substrings_are_those_of_std() {
    for s in SAMPLES {
        for t in SAMPLES {
            assert_eq!(contains(s, t), s.contains(t), "{:?} {:?}", s, t);
            assert_eq!(same_text(s, t), s == t);
            assert_eq!(
                starts_with_chars(&chars_of(s), &chars_of(t)),
                s.starts_with(t)
            );
        }
    }
    assert!(contains("aab", "ab"));
    assert!(!contains("ab", "abc"));
}

#[test]
fn decimals_are_those_of_std() {
    for n in [0u64, 1, 9, 10, 11, 99, 100, 4096, u32::MAX as u64, u64::MAX] {
        let mut s = String::from("n=");
        push_decimal(&mut s, n);
        assert_eq!(s, format!("n={}", n));
    }
}

#[test]
fn written_lines_are_read_back() {
    let ls = split_lines(&chars_of("a\n\n b\nc"));
    let mut out = String::new();
    push_lines(&mut out, &ls, 0, ls.len());
    assert_eq!(out, "a\n\n b\nc\n");
    assert_eq!(split_lines(&chars_of(&out)), ls);
    let mut some = String::new();
    push_lines(&mut some, &ls, 1, 3);
    assert_eq!(some, "\n b\n");
}
