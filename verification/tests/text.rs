use walkie::text::{chars_of, join, is_white_space, pad, repeat, same_text, shorten, trim};

#[test]
fn white_space_is_what_std_takes_for_it() {
    for n in 0..=0x10_ffffu32 {
        if let Some(c) = char::from_u32(n) {
            assert_eq!(is_white_space(c), c.is_whitespace(), "U+{:04X}", n);
        }
    }
}

#[test]
fn trim_agrees_with_std() {
    for s in [
        "",
        " ",
        "a",
        "  a b  ",
        "\u{3000}x\u{2003}",
        "\t\r\n",
        "no change",
        "\u{200b}kept\u{200b}",
        "ends \n",
    ] {
        assert_eq!(trim(s), s.trim());
    }
}

#[test]
fn trimming_twice_is_trimming_once() {
    let once = trim(" \t a  b \n");
    assert_eq!(once, "a  b");
    assert_eq!(trim(&once), once);
}

#[test]
fn pad_agrees_with_format() {
    for s in ["", "bob", "exactly twelv", "äöü", "a much longer alias than fits"] {
        assert_eq!(pad(s, 12), format!("{:<12}", s));
    }
}

#[test]
fn shorten_takes_characters() {
    assert_eq!(shorten("abcdef", 4), "abcd");
    assert_eq!(shorten("abc", 4), "abc");
    assert_eq!(shorten("äöüß", 2), "äö");
}

#[test]
fn small_helpers() {
    assert_eq!(repeat('─', 3), "───");
    assert_eq!(repeat('x', 0), "");
    assert_eq!(join("ab", "cd"), "abcd");
    assert!(same_text("ab", "ab"));
    assert!(!same_text("ab", "aB"));
    assert_eq!(chars_of("a█c"), vec!['a', '█', 'c']);
}
