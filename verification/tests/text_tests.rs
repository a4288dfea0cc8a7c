use odoo_mcp::text::{
    chars_of, str_concat, join_strings, pad_str, prefix_chars, replace_chars, split_chars,
    str_contains, str_starts_with, string_of, strip_trailing_str, trim_str,
};

#[test]
fn trim_matches_std_trim() {
    let samples = [
        "",
        "   ",
        "  abc  ",
        "\tline\n",
        "\u{3000}wide\u{00a0}",
        "\u{2028}x y\u{205f}",
        "no-space",
        " a b ",
        "\u{200b}zero width is not white\u{200b}",
    ];
    for s in samples {
        assert_eq!(trim_str(s), s.trim(), "sample {:?}", s);
    }
}

#[test]
fn chars_roundtrip() {
    let s = "héllo → wörld";
    let cs = chars_of(s);
    assert_eq!(cs.len(), s.chars().count());
    assert_eq!(string_of(&cs), s);
}

#[test]
fn contains_and_starts_with() {
    assert!(str_contains("class Foo(models.Model):", "models.Model"));
    assert!(!str_contains("class Foo:", "models.Model"));
    assert!(str_contains("anything", ""));
    assert!(!str_contains("ab", "abc"));
    assert!(str_starts_with("notifications/initialized", "notifications/"));
    assert!(!str_starts_with("tools/call", "notifications/"));
    assert!(!str_starts_with("notif", "notifications/"));
}

#[test]
fn split_keeps_empty_pieces() {
    let cs = chars_of("a,,b,");
    let parts: Vec<String> = split_chars(&cs, ',').iter().map(|p| string_of(p)).collect();
    assert_eq!(parts, vec!["a", "", "b", ""]);
    let empty: Vec<String> = split_chars(&chars_of(""), ',').iter().map(|p| string_of(p)).collect();
    assert_eq!(empty, vec![""]);
}

#[test]
fn replace_prefix_strip_pad_join() {
    assert_eq!(replace_chars("ext-url-x", '-', '_'), "ext_url_x");
    assert_eq!(prefix_chars("abcdef", 3), "abc");
    assert_eq!(prefix_chars("ab", 3), "ab");
    assert_eq!(prefix_chars("ééé", 2), "éé");
    assert_eq!(strip_trailing_str("https://x.com///", '/'), "https://x.com");
    assert_eq!(strip_trailing_str("////", '/'), "");
    assert_eq!(pad_str("abc", 6), "abc   ");
    assert_eq!(pad_str("abcdefgh", 6), "abcdefgh");
    assert_eq!(format!("{:<20}", "naïve"), pad_str("naïve", 20));
    let parts = vec!["fetch".to_string(), "origin".to_string()];
    assert_eq!(join_strings(&parts, " "), "fetch origin");
    assert_eq!(join_strings(&Vec::new(), " "), "");
    assert_eq!(str_concat("a", "b"), "ab");
}
