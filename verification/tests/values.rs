use inappbrowser::error::Error;
use inappbrowser::models::{BrowserCookie, BrowserEventKind};
use inappbrowser::text::{push_decimal, text_eq, text_starts_with};
use inappbrowser::urls::{is_web_scheme, parse_any_url, parse_web_url};

#[test]
fn decimal_notation() {
    for n in [0u32, 7, 10, 99, 100, 4096, u32::MAX] {
        let mut s = String::from("n=");
        push_decimal(&mut s, n);
        assert_eq!(s, format!("n={n}"));
    }
}

#[test]
fn prefix_and_equality_of_text() {
    assert!(text_starts_with("myapp://oauth", "myapp://"));
    assert!(text_starts_with("abc", ""));
    assert!(!text_starts_with("ab", "abc"));
    assert!(!text_starts_with("xbc", "a"));
    assert!(text_starts_with("héllo wörld", "héllo"));
    assert!(text_eq("same", "same"));
    assert!(!text_eq("same", "sam"));
    assert!(!text_eq("sam", "same"));
}

#[test]
fn error_messages() {
    assert_eq!(
        Error::UnsupportedPlatform.message(),
        "in-app browser is not supported on this platform"
    );
    assert_eq!(Error::InvalidUrl.message(), "invalid url");
    assert_eq!(Error::BrowserNotFound(42).message(), "in-app browser 42 not found");
    assert_eq!(
        Error::Browser("timed out".to_string()).message(),
        "in-app browser error: timed out"
    );
}

#[test]
fn event_kind_names_round_trip() {
    for kind in [
        BrowserEventKind::Navigated,
        BrowserEventKind::Intercepted,
        BrowserEventKind::LoadFinished,
        BrowserEventKind::Closed,
    ] {
        assert_eq!(BrowserEventKind::from_name(kind.name()), Some(kind));
    }
    assert_eq!(BrowserEventKind::LoadFinished.name(), "load-finished");
    assert_eq!(BrowserEventKind::from_name("load_finished"), None);
    assert_eq!(BrowserEventKind::from_name("Closed"), None);
    assert_eq!(BrowserEventKind::from_name(""), None);
}

#[test]
fn cookie_parts_default_to_empty() {
    let c = BrowserCookie::from_parts("sid", "abc", Some(".example.com"), None);
    assert_eq!(c.name, "sid");
    assert_eq!(c.value, "abc");
    assert_eq!(c.domain, ".example.com");
    assert_eq!(c.path, "");
}

#[test]
fn web_urls_need_http_or_https() {
    assert!(parse_web_url("https://example.com/a").is_ok());
    assert!(parse_web_url("http://example.com").is_ok());
    assert!(parse_web_url("HTTPS://EXAMPLE.COM").is_ok());
    assert!(matches!(parse_web_url("ftp://example.com"), Err(Error::InvalidUrl)));
    assert!(matches!(parse_web_url("myapp://oauth"), Err(Error::InvalidUrl)));
    assert!(matches!(parse_web_url("not a url"), Err(Error::InvalidUrl)));
    assert!(matches!(parse_web_url(""), Err(Error::InvalidUrl)));
}

#[test]
fn any_absolute_url_parses() {
    let url = parse_any_url("myapp://oauth?code=1").expect("parses").into_url();
    assert_eq!(url.scheme(), "myapp");
    assert!(matches!(parse_any_url("/relative/path"), Err(Error::InvalidUrl)));
}

#[test]
fn web_schemes() {
    assert!(is_web_scheme("http"));
    assert!(is_web_scheme("https"));
    assert!(!is_web_scheme("HTTP"));
    assert!(!is_web_scheme("httpss"));
    assert!(!is_web_scheme(""));
}

#[test]
fn scheme_is_read_after_leading_blanks_and_lower_cased() {
    assert!(parse_web_url("  \tHtTpS://example.com/").is_ok());
    assert!(parse_web_url("ht\ttp://example.com/").is_ok());
    assert!(matches!(parse_web_url("  ftp://example.com/"), Err(Error::InvalidUrl)));
}
