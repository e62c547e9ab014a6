use serenade::form::error::FormError;
use serenade::form::escape::{escape_attr, escape_html};
use serenade::form::parse::parse_urlencoded;
use serenade::security::error::SecurityError;

#[test]
fn escape_html_xss_payload() {
    let raw = r#"<script>alert("x")</script>&'"#;
    let escaped = escape_html(raw);
    assert!(!escaped.contains('<'));
    assert!(escaped.contains("&lt;script&gt;"));
    assert!(escaped.contains("&amp;"));
    assert!(escaped.contains("&quot;"));
    assert!(escaped.contains("&#39;"));
    assert_eq!(escape_attr(r#""quoted""#), "&quot;quoted&quot;");
}

#[test]
fn parse_urlencoded_basic() {
    let map = parse_urlencoded(b"a=hello+world&b=%3Ctag%3E").expect("parse");
    assert_eq!(map.get("a").map(String::as_str), Some("hello world"));
    assert_eq!(map.get("b").map(String::as_str), Some("<tag>"));
}

#[test]
fn parse_urlencoded_edge_cases() {
    assert!(parse_urlencoded(b"").expect("empty").is_empty());
    let map = parse_urlencoded(b"solo&x=1&=&%41=%42&&z=9").expect("pairs");
    assert_eq!(map.get("solo").map(String::as_str), Some(""));
    assert_eq!(map.get("x").map(String::as_str), Some("1"));
    assert_eq!(map.get("A").map(String::as_str), Some("B"));
    assert_eq!(map.get("z").map(String::as_str), Some("9"));
    assert!(matches!(
        parse_urlencoded(b"\xff"),
        Err(FormError::InvalidEncoding)
    ));
    assert!(matches!(
        parse_urlencoded(b"a=%zz"),
        Err(FormError::InvalidEncoding)
    ));
    assert!(matches!(
        parse_urlencoded(b"a=%a"),
        Err(FormError::InvalidEncoding)
    ));
}

#[test]
fn parse_urlencoded_later_pairs_win_and_utf8_decodes() {
    let map = parse_urlencoded(b"k=1&k=2&e=%C3%A9&v=a=b").expect("parse");
    assert_eq!(map.get("k").map(String::as_str), Some("2"));
    assert_eq!(map.get("e").map(String::as_str), Some("é"));
    assert_eq!(map.get("v").map(String::as_str), Some("a=b"));
    assert!(matches!(
        parse_urlencoded(b"e=%C3"),
        Err(FormError::InvalidEncoding)
    ));
}

#[test]
fn form_error_messages() {
    assert_eq!(FormError::InvalidEncoding.message(), "invalid form encoding");
    assert_eq!(
        FormError::from(SecurityError::InvalidCsrfToken).message(),
        "csrf: invalid CSRF token"
    );
}

#[test]
fn form_version_is_non_empty() {
    assert_ne!(serenade::version(), "");
}
