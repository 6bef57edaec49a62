use multinode_controller::text::{
    comes_before, contains, decimal, enclosed, join, prefixed, same, signed, to_lower, trim,
};

#[test]
fn trims_white_space_at_both_ends() {
    assert_eq!(trim("  a b\n"), "a b");
    assert_eq!(trim("\u{a0}x\u{3000}"), "x");
    assert_eq!(trim(" \t\r\n"), "");
    assert_eq!(trim(""), "");
}

#[test]
fn trims_like_std_for_every_short_text() {
    let samples = [
        "a", " ", "\u{85}", "\u{1680}", "\u{2000}", "\u{200a}", "\u{200b}", "\u{2028}", "\u{2029}",
        "\u{202f}", "\u{205f}", "\u{feff}", "\u{b}", "\u{c}", "\u{1c}",
    ];
    for left in samples {
        for right in samples {
            let text = format!("{left}x{right}");
            assert_eq!(trim(&text), text.trim(), "{text:?}");
        }
    }
}

#[test]
fn lower_case_changes_ascii_letters_alone() {
    assert_eq!(to_lower("CUDA Out Of Memory ÄÖ"), "cuda out of memory ÄÖ");
    assert_eq!(to_lower("aZ09[]@`{"), "aZ09[]@`{".to_ascii_lowercase());
}

#[test]
fn containment_is_that_of_std() {
    for (hay, needle) in [
        ("abcabd", "abd"),
        ("abc", ""),
        ("", ""),
        ("", "a"),
        ("aab", "ab"),
        ("häßlich", "äß"),
        ("abc", "abcd"),
    ] {
        assert_eq!(contains(hay, needle), hay.contains(needle), "{hay:?} {needle:?}");
    }
}

#[test]
fn numbers_are_written_in_decimal() {
    for n in [0, 7, 10, 99, 100, 8765, u64::MAX] {
        assert_eq!(decimal(n), n.to_string());
    }
    for n in [0, 1, -1, 127, -128, i32::MAX, i32::MIN] {
        assert_eq!(signed(n), n.to_string());
    }
}

#[test]
fn texts_are_put_together() {
    assert_eq!(prefixed("=", "session"), "=session");
    assert_eq!(enclosed("node ", "a", " is not connected"), "node a is not connected");
    let parts: Vec<String> = vec!["a".to_owned(), "".to_owned(), "b".to_owned()];
    assert_eq!(join(&parts, ", "), "a, , b");
    assert_eq!(join(&Vec::new(), ", "), "");
}

#[test]
fn order_of_texts_is_that_of_std() {
    let samples = ["", "a", "b", "ab", "aa", "b ", "ä", "\u{ffff}", "\u{10000}", "2024-01-01T"];
    for a in samples {
        for b in samples {
            assert_eq!(comes_before(a, b), a < b, "{a:?} {b:?}");
            assert_eq!(same(a, b), a == b);
        }
    }
}
