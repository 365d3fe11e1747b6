use album_cover_check::counts::ExtensionCounts;
use album_cover_check::order::{Order, compare_str};
use album_cover_check::text::{is_blank_str, replace, starts_with, to_ascii_lowercase, u64_to_decimal};

#[test]
fn lowercase_touches_only_ascii_letters() {
    assert_eq!(to_ascii_lowercase("MiXeD Ä 123"), "mixed Ä 123");
}

#[test]
fn decimal_numbers() {
    assert_eq!(u64_to_decimal(0), "0");
    assert_eq!(u64_to_decimal(7), "7");
    assert_eq!(u64_to_decimal(1234567890), "1234567890");
    assert_eq!(u64_to_decimal(u64::MAX), u64::MAX.to_string());
}

#[test]
fn replace_like_std() {
    for (s, p, t) in [
        ("last 30 days", "last ", "最近 "),
        ("aaaa", "aa", "b"),
        ("abcabc", "bc", ""),
        ("nothing here", "xyz", "q"),
        ("", "a", "b"),
    ] {
        assert_eq!(replace(s, p, t), s.replace(p, t));
    }
}

#[test]
fn blank_and_prefix() {
    assert!(is_blank_str(""));
    assert!(is_blank_str(" \t\n\u{3000}"));
    assert!(!is_blank_str(" a "));
    assert!(starts_with("._x", "._"));
    assert!(!starts_with(".", "._"));
}

#[test]
fn string_order_is_rust_order() {
    let words = ["", "a", "ab", "b", "B", "é", "z", "中"];
    for x in words {
        for y in words {
            let expected = if x < y {
                Order::Less
            } else if x == y {
                Order::Equal
            } else {
                Order::Greater
            };
            assert_eq!(compare_str(x, y), expected, "{x} vs {y}");
        }
    }
}

#[test]
fn counts_stay_sorted() {
    let mut counts = ExtensionCounts::new();
    for key in ["mp3", "flac", "mp3", "m4a", "mp3"] {
        counts.increment(key);
    }
    let entries: Vec<(String, usize)> = (0..counts.len())
        .map(|i| {
            let (k, c) = counts.entry(i);
            (k.to_string(), c)
        })
        .collect();
    assert_eq!(
        entries,
        vec![(String::from("flac"), 1), (String::from("m4a"), 1), (String::from("mp3"), 3)]
    );
    assert_eq!(counts.get("mp3"), 3);
    assert_eq!(counts.get("ogg"), 0);
}
