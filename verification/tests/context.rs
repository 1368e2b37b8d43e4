use veloce::context::{
    names_scheme, parse_server_url, scheme_char, Context, ContextError, DEFAULT_PAGER,
};
use veloce::presto::presto_headers;

fn sample() -> Context {
    Context::new(
        "localhost:8080",
        "hive".to_string(),
        "default".to_string(),
        "alice".to_string(),
        DEFAULT_PAGER.to_string(),
    )
    .unwrap()
}

#[test]
fn server_without_scheme_gets_http() {
    assert_eq!(parse_server_url("localhost:8080"), "http://localhost:8080");
}

#[test]
fn server_trailing_slash_is_removed() {
    assert_eq!(parse_server_url("http://localhost:8080/"), "http://localhost:8080");
}

#[test]
fn server_with_scheme_is_kept() {
    assert_eq!(parse_server_url("http://localhost:8080"), "http://localhost:8080");
    assert_eq!(parse_server_url("https://presto.example.com"), "https://presto.example.com");
}

#[test]
fn server_every_trailing_slash_is_removed() {
    assert_eq!(parse_server_url("http://host//"), "http://host");
    assert_eq!(parse_server_url("host///"), "http://host");
}

#[test]
fn server_inner_slashes_are_kept() {
    assert_eq!(parse_server_url("host/path/"), "http://host/path");
    assert_eq!(parse_server_url("http://host/a//b"), "http://host/a//b");
}

#[test]
fn server_beginning_with_http_letters_names_no_scheme() {
    assert_eq!(parse_server_url("httpbin.org:8080"), "http://httpbin.org:8080");
    assert_eq!(parse_server_url("httpbin.org"), "http://httpbin.org");
    assert_eq!(parse_server_url("http"), "http://http");
    assert_eq!(parse_server_url("https"), "http://https");
    assert_eq!(parse_server_url("http:/x"), "http://http:/x");
}

#[test]
fn server_with_any_scheme_is_kept() {
    assert_eq!(parse_server_url("https://presto:8443/"), "https://presto:8443");
    assert_eq!(parse_server_url("HTTP://Host:80"), "HTTP://Host:80");
    assert_eq!(parse_server_url("ftp://a/"), "ftp://a");
    assert_eq!(parse_server_url("x://y"), "x://y");
    assert_eq!(parse_server_url("svn+ssh://h/"), "svn+ssh://h");
    assert_eq!(parse_server_url("a.b-c2://h"), "a.b-c2://h");
}

#[test]
fn server_mark_elsewhere_names_no_scheme() {
    assert_eq!(parse_server_url("localhost/a://b"), "http://localhost/a://b");
    assert_eq!(parse_server_url("://x"), "http://://x");
    assert_eq!(parse_server_url(" http://a"), "http:// http://a");
    assert_eq!(parse_server_url("a:b://c"), "http://a:b://c");
    assert_eq!(parse_server_url("é:://x"), "http://é:://x");
    assert_eq!(parse_server_url("é://x"), "http://é://x");
    assert_eq!(parse_server_url("a_b://x"), "http://a_b://x");
}

#[test]
fn server_edge_values() {
    assert_eq!(parse_server_url("/"), "http:");
    assert_eq!(parse_server_url("://"), "http://:");
    assert_eq!(parse_server_url("http://"), "http:");
    assert_eq!(parse_server_url("htt"), "http://htt");
    assert_eq!(parse_server_url("日本:80/"), "http://日本:80");
    assert_eq!(parse_server_url("a:/"), "http://a:");
}

fn begins_with_scheme(s: &str) -> bool {
    let name = s
        .chars()
        .take_while(|c| c.is_ascii_alphanumeric() || *c == '+' || *c == '-' || *c == '.')
        .count();
    name >= 1 && s[name..].starts_with("://")
}

#[test]
fn server_matches_std_on_samples() {
    let samples = [
        "/", "//", "a", "a/", "http", "http/", "http://", "http://a", "http://a/", "https://a//",
        "ftp://a/", "HTTP://a/", "h", "ht/tp", "localhost:8080", "é/", "http://é//", " http://a/ ",
        "httpbin.org:8080", "a:/b", "a:///", "://", "x:://", "a//:b/", "localhost/a://b", "://x",
        "a:b://c", "é:://x", "1://2/", "+://h", "a b://c",
    ];
    for s in samples {
        let full = if begins_with_scheme(s) { s.to_string() } else { "http://".to_string() + s };
        assert_eq!(parse_server_url(s), full.trim_end_matches('/'), "input {:?}", s);
    }
}

#[test]
fn server_result_never_ends_in_a_slash() {
    for s in ["/", "a//", "http://x/", "localhost:8080", "http", "://", "http://"] {
        let once = parse_server_url(s);
        assert!(!once.is_empty());
        assert!(!once.ends_with('/'));
    }
}

#[test]
fn server_normalizing_twice_changes_nothing_with_a_host() {
    for s in [
        "a//", "http://x/", "localhost:8080", "http", "httpbin.org", "https://h:1/p/", "x://y",
        "http:///a/", "localhost/a://b", "://x",
    ] {
        let once = parse_server_url(s);
        assert!(begins_with_scheme(&once), "input {:?}", s);
        assert_eq!(parse_server_url(&once), once, "input {:?}", s);
    }
}

#[test]
fn server_without_host_is_not_a_fixed_point() {
    assert_eq!(parse_server_url("http://"), "http:");
    assert_eq!(parse_server_url("http:"), "http://http:");
}

#[test]
fn context_refuses_empty_server() {
    let made = Context::new("", "c".to_string(), "s".to_string(), "u".to_string(), "p".to_string());
    assert_eq!(made.err(), Some(ContextError::EmptyServer));
}

#[test]
fn context_holds_what_it_was_given() {
    let ctx = Context::new(
        "example.org/",
        "hive".to_string(),
        "web".to_string(),
        "bob".to_string(),
        "more".to_string(),
    )
    .unwrap();
    assert_eq!(ctx.server, "http://example.org");
    assert_eq!(ctx.catalog, "hive");
    assert_eq!(ctx.schema, "web");
    assert_eq!(ctx.user, "bob");
    assert_eq!(ctx.pager, "more");
}

#[test]
fn default_pager_is_less() {
    assert_eq!(DEFAULT_PAGER, "less --no-init -n --chop-long-lines --quit-if-one-screen");
}

#[test]
fn identity_headers_are_four() {
    let ctx = sample();
    let headers = ctx.presto_headers();
    let pairs: Vec<(String, String)> =
        headers.into_iter().map(|h| (h.name, h.value)).collect();
    assert_eq!(
        pairs,
        vec![
            ("X-Presto-Catalog".to_string(), "hive".to_string()),
            ("X-Presto-Schema".to_string(), "default".to_string()),
            ("X-Presto-Source".to_string(), "alice".to_string()),
            ("X-Presto-User".to_string(), "alice".to_string()),
        ]
    );
}

#[test]
fn free_headers_equal_method_headers() {
    let ctx = sample();
    let a: Vec<(String, String)> =
        ctx.presto_headers().into_iter().map(|h| (h.name, h.value)).collect();
    let b: Vec<(String, String)> =
        presto_headers(&ctx).into_iter().map(|h| (h.name, h.value)).collect();
    assert_eq!(a, b);
}

#[test]
fn scheme_is_a_leading_name_with_the_mark_behind() {
    let chars = |s: &str| s.chars().collect::<Vec<char>>();
    assert!(names_scheme(&chars("http://a")));
    assert!(names_scheme(&chars("a://")));
    assert!(names_scheme(&chars("A1+-.://x")));
    assert!(!names_scheme(&chars("")));
    assert!(!names_scheme(&chars("://")));
    assert!(!names_scheme(&chars("é:://x")));
    assert!(!names_scheme(&chars(":/")));
    assert!(!names_scheme(&chars("http:/x/")));
    assert!(!names_scheme(&chars("http:")));
    assert!(!names_scheme(&chars("httpbin.org:8080")));
    assert!(!names_scheme(&chars("a:b//")));
    assert!(!names_scheme(&chars("localhost/a://b")));
    assert!(!names_scheme(&chars(" http://a")));
}

#[test]
fn scheme_chars_are_ascii_letters_digits_and_three_signs() {
    for n in 0u32..=0x10FFFF {
        if let Some(c) = char::from_u32(n) {
            let expected = c.is_ascii_alphanumeric() || c == '+' || c == '-' || c == '.';
            assert_eq!(scheme_char(c), expected, "U+{:04X}", n);
        }
    }
}
