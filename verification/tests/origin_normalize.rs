use praxis::origin::normalize_origin;

#[test]
fn lowercase_scheme_and_host() {
    assert_eq!(
        normalize_origin("HTTPS://EXAMPLE.COM"),
        "https://example.com",
        "should lowercase scheme and host"
    );
}

#[test]
fn strip_default_https_port() {
    assert_eq!(
        normalize_origin("https://example.com:443"),
        "https://example.com",
        "should strip :443 from https"
    );
}

#[test]
fn strip_default_http_port() {
    assert_eq!(
        normalize_origin("http://example.com:80"),
        "http://example.com",
        "should strip :80 from http"
    );
}

#[test]
fn preserve_non_default_port() {
    assert_eq!(
        normalize_origin("https://example.com:8080"),
        "https://example.com:8080",
        "should preserve non-default ports"
    );
}

#[test]
fn map_wss_to_https() {
    assert_eq!(
        normalize_origin("wss://example.com"),
        "https://example.com",
        "should map wss to https"
    );
}

#[test]
fn map_ws_to_http() {
    assert_eq!(
        normalize_origin("ws://example.com"),
        "http://example.com",
        "should map ws to http"
    );
}

#[test]
fn combined_normalization() {
    assert_eq!(
        normalize_origin("WSS://EXAMPLE.COM:443"),
        "https://example.com",
        "should lowercase, map wss, and strip :443"
    );
}

#[test]
fn noop_for_already_normalized() {
    assert_eq!(
        normalize_origin("https://example.com"),
        "https://example.com",
        "already normalized should be unchanged"
    );
}

#[test]
fn http_default_port_is_not_stripped_from_https() {
    assert_eq!(normalize_origin("https://example.com:80"), "https://example.com:80");
    assert_eq!(normalize_origin("http://example.com:443"), "http://example.com:443");
}

#[test]
fn ws_default_port_is_stripped_after_mapping() {
    assert_eq!(normalize_origin("WS://Example.com:80"), "http://example.com");
}

#[test]
fn only_one_default_port_is_stripped() {
    assert_eq!(normalize_origin("https://a:443:443"), "https://a:443");
    assert_eq!(normalize_origin(&normalize_origin("https://a:443:443")), "https://a");
}

#[test]
fn non_ascii_letters_are_kept() {
    assert_eq!(normalize_origin("HTTPS://ÉXAMPLE.COM"), "https://Éxample.com");
}

#[test]
fn other_schemes_and_empty_input() {
    assert_eq!(normalize_origin(""), "");
    assert_eq!(normalize_origin("FTP://Host:21"), "ftp://host:21");
    assert_eq!(normalize_origin("https://:443"), "https://");
}

#[test]
fn default_port_forms_compare_equal() {
    assert_eq!(
        normalize_origin("https://Example.com:443"),
        normalize_origin("https://example.com")
    );
    assert_eq!(normalize_origin("ws://host:80"), normalize_origin("http://HOST"));
}
