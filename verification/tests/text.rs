use weather_cli::text::{decimal_text, is_space_char, parse_usize, same_text, split_words, trim};

#[test]
fn trim_both_ends() {
    assert_eq!(trim("  x y \n"), "x y");
    assert_eq!(trim("\u{3000}\u{85}z\u{a0}"), "z");
    assert_eq!(trim("   "), "");
    assert_eq!(trim(""), "");
    assert_eq!(trim(trim(" a ")), trim(" a "));
}

#[test]
fn split_words_like_std() {
    let inputs = ["", " a  bb\tccc\n", "one", "\u{2003}é ü ", "a\u{200b}b c"];
    for s in inputs {
        let ours = split_words(s);
        let std: Vec<String> = s.split_whitespace().map(|w| w.to_string()).collect();
        assert_eq!(ours, std);
    }
}

#[test]
fn whitespace_matches_std() {
    for v in 0u32..0x3100 {
        if let Some(c) = char::from_u32(v) {
            assert_eq!(is_space_char(c), c.is_whitespace(), "{v:#x}");
        }
    }
}

#[test]
fn parse_usize_like_std() {
    let inputs = ["0", "7", "+3", "-3", "", "+", "007", "12a", " 1", "18446744073709551615", "18446744073709551616", "4294967296", "٣"];
    for s in inputs {
        assert_eq!(parse_usize(s), s.parse::<usize>().ok(), "{s:?}");
    }
}

#[test]
fn decimal_text_like_std() {
    for n in [0u32, 3, 10, 16, 99, 100, 12345, u32::MAX] {
        assert_eq!(decimal_text(n), n.to_string());
        assert_eq!(parse_usize(&decimal_text(n)), Some(n as usize));
    }
}

#[test]
fn same_text_compares_characters() {
    assert!(same_text("help", "help"));
    assert!(!same_text("help", "hel"));
    assert!(!same_text("q", "Q"));
    assert!(same_text("", ""));
}
