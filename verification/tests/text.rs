use gtlite_installer::text::{
    contains, decimal_text, last_part, parse_u64, replace, same_text, trim, trim_end_matches,
    white_space,
};

#[test]
fn white_space_agrees_with_char_for_every_char() {
    for code in 0..=0x10ffff_u32 {
        if let Some(c) = char::from_u32(code) {
            assert_eq!(white_space(c), c.is_whitespace(), "{code:#x}");
        }
    }
}

#[test]
fn trim_agrees_with_str() {
    let samples = [
        "", " ", "a", " a", "a ", "\t a b \n", "\u{3000}全角\u{3000}", "\u{85}x\u{a0}", "  \u{2003}  ",
        "a\u{200b}", "\u{feff}x",
    ];
    for s in samples {
        assert_eq!(trim(s), s.trim());
        assert_eq!(trim(trim(s)), trim(s));
    }
}

#[test]
fn trim_end_matches_agrees_with_str() {
    for s in ["", "/", "///", "a", "a/", "a//", "/a/b//", "a/b"] {
        assert_eq!(trim_end_matches(s, '/'), s.trim_end_matches('/'));
    }
}

#[test]
fn last_part_agrees_with_rsplit() {
    for s in ["", "/", "a", "a/b", "a/b/", "bytes 0-9/10", "bytes 0-9/*"] {
        assert_eq!(last_part(s, '/'), s.rsplit('/').next().unwrap());
    }
}

#[test]
fn contains_and_replace_agree_with_str() {
    let samples = [
        "", "{url}", "{url", "url}", "x{url}y", "{url}{url}", "{{url}}", "{u{url}rl}",
        "https://p/?u={url}&v={url}#",
    ];
    for s in samples {
        assert_eq!(contains(s, "{url}"), s.contains("{url}"));
        assert_eq!(replace(s, "{url}", "地址"), s.replace("{url}", "地址"));
    }
    assert_eq!(replace("aaaa", "aa", "b"), "bb");
    assert_eq!(replace("aaa", "aa", "b"), "ba");
    assert!(contains("", ""));
    assert!(contains("abc", ""));
}

#[test]
fn replacing_an_absent_pattern_changes_nothing() {
    assert_eq!(replace("https://p/{ur}", "{url}", "x"), "https://p/{ur}");
}

#[test]
fn same_text_compares_characters() {
    assert!(same_text("", ""));
    assert!(same_text("下载", "下载"));
    assert!(!same_text("a", "b"));
    assert!(!same_text("a", "ab"));
}

#[test]
fn decimal_text_agrees_with_to_string() {
    for n in [0, 1, 9, 10, 11, 99, 100, 206, 1024, 65536, u64::MAX - 1, u64::MAX] {
        assert_eq!(decimal_text(n), n.to_string());
        assert_eq!(parse_u64(&decimal_text(n)), Some(n));
    }
}

#[test]
fn parse_u64_agrees_with_str() {
    let samples = [
        "", "+", "-", "0", "+0", "00012", "+7", "++7", "-1", " 1", "1 ", "1_000", "0x10", "1.0", "*",
        "18446744073709551615", "18446744073709551616", "+18446744073709551615",
        "99999999999999999999999999", "00000000000000000000000000001", "１２",
    ];
    for s in samples {
        assert_eq!(parse_u64(s), s.parse::<u64>().ok(), "{s:?}");
    }
}
