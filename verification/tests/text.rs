use fortinet_vpn_status::text::{chars_of, contains, is_white, line_ranges, same_text, split_ranges, starts_with, trim_range};

fn texts(source: &str, ranges: &[(usize, usize)]) -> Vec<String> {
    let chars = chars_of(source);
    ranges.iter().map(|&(a, b)| chars[a..b].iter().collect()).collect()
}

#[test]
fn lines_follow_std() {
    for source in ["", "a", "a\n", "a\r\nb", "\n\nx\r", "a\r\n\r\n", "é\nü"] {
        let chars = chars_of(source);
        let expected: Vec<&str> = source.lines().collect();
        assert_eq!(texts(source, &line_ranges(&chars)), expected);
    }
}

#[test]
fn split_follows_std() {
    for source in ["", ":", "a:b:c", "::x", "é:ü:"] {
        let chars = chars_of(source);
        let expected: Vec<&str> = source.split(':').collect();
        assert_eq!(texts(source, &split_ranges(&chars, 0, chars.len(), ':')), expected);
    }
}

#[test]
fn trim_follows_std() {
    for source in ["", "  ", " a b ", "\u{a0}x\u{3000}", "\t\r\nz"] {
        let chars = chars_of(source);
        let (a, b) = trim_range(&chars, 0, chars.len());
        assert_eq!(texts(source, &[(a, b)]), vec![source.trim()]);
    }
}

#[test]
fn searching_and_comparing_text() {
    assert!(contains("reconnecting", "connecting"));
    assert!(!contains("connect", "connecting"));
    assert!(contains("abc", ""));
    assert!(starts_with("fctvpn0", "fctvpn"));
    assert!(!starts_with("fct", "fctvpn"));
    assert!(same_text("é", "é"));
    assert!(!same_text("a", "ab"));
}

#[test]
fn white_space_matches_std_for_every_character() {
    for code in 0..=0x10FFFFu32 {
        if let Some(c) = char::from_u32(code) {
            assert_eq!(is_white(c), c.is_whitespace(), "{code:#x}");
        }
    }
}
