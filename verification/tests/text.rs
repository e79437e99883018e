use basecoat::text::format_i64;
use basecoat::text::{escape_attr, format_u64, html_escape, parse_u32};

#[test]
fn parse_reads_back_formatted_numbers() {
    for n in [0u32, 7, 10, 5000, 4294967295] {
        let s = format_u64(n as u64);
        assert_eq!(parse_u32(s.as_str()), Some(n));
    }
}

#[test]
fn parse_follows_u32_from_str() {
    assert_eq!(parse_u32("+7"), Some(7));
    assert_eq!(parse_u32("007"), Some(7));
    assert_eq!(parse_u32("-1"), None);
    assert_eq!(parse_u32(""), None);
    assert_eq!(parse_u32("+"), None);
    assert_eq!(parse_u32(" 5"), None);
    assert_eq!(parse_u32("4294967296"), None);
    assert_eq!(parse_u32("12a"), None);
}

#[test]
fn formatting_signed_numbers() {
    assert_eq!(format_i64(-42), "-42");
    assert_eq!(format_i64(0), "0");
    assert_eq!(format_i64(i64::MIN), "-9223372036854775808");
    assert_eq!(format_u64(u64::MAX), "18446744073709551615");
}

#[test]
fn escaped_text_has_no_markup_characters() {
    let raw = r#"<a href="x">'Tom' & "Jerry"</a>"#;
    let attr = escape_attr(raw);
    assert!(!attr.contains(['<', '>', '"', '\'']));
    assert_eq!(attr, "&lt;a href=&quot;x&quot;&gt;&#39;Tom&#39; &amp; &quot;Jerry&quot;&lt;/a&gt;");
    let body = html_escape(raw);
    assert!(!body.contains(['<', '>', '"']));
    assert_eq!(html_escape("plain text"), "plain text");
}
