use chrome_resolve::connection::extract_port_from_ws_url;

#[test]
fn extract_port_ws() {
    assert_eq!(
        extract_port_from_ws_url("ws://127.0.0.1:9222/devtools/browser/abc"),
        Some(9222)
    );
}

#[test]
fn extract_port_wss() {
    assert_eq!(
        extract_port_from_ws_url("wss://localhost:9333/devtools/browser/abc"),
        Some(9333)
    );
}

#[test]
fn extract_port_no_scheme() {
    assert_eq!(extract_port_from_ws_url("http://localhost:9222"), None);
}

#[test]
fn extract_port_no_colon() {
    assert_eq!(extract_port_from_ws_url("ws://h/x"), None);
}

#[test]
fn extract_port_numeric_host_without_colon_is_absent() {
    // A missing colon is a failure even when the whole authority is
    // digits: it is a host, not a port.
    assert_eq!(extract_port_from_ws_url("ws://9222/x"), None);
    assert_eq!(extract_port_from_ws_url("wss://9222"), None);
}

#[test]
fn extract_port_without_path() {
    assert_eq!(extract_port_from_ws_url("wss://localhost:9333"), Some(9333));
}

#[test]
fn extract_port_out_of_range() {
    assert_eq!(extract_port_from_ws_url("ws://h:65536/x"), None);
    assert_eq!(extract_port_from_ws_url("ws://h:65535/x"), Some(65535));
    assert_eq!(extract_port_from_ws_url("ws://h:0/x"), Some(0));
}

#[test]
fn extract_port_non_numeric() {
    assert_eq!(extract_port_from_ws_url("ws://h:port/x"), None);
    assert_eq!(extract_port_from_ws_url("ws://h:/x"), None);
}

#[test]
fn extract_port_colon_only_before_path() {
    // The port token comes from the part before the first slash; a
    // colon later in the path does not count.
    assert_eq!(extract_port_from_ws_url("ws://host/devtools:9222"), None);
}

#[test]
fn extract_port_ipv6_style_takes_last_colon() {
    assert_eq!(extract_port_from_ws_url("ws://0:0:0:1:9222/x"), Some(9222));
}

#[test]
fn extract_port_empty_and_scheme_only() {
    assert_eq!(extract_port_from_ws_url(""), None);
    assert_eq!(extract_port_from_ws_url("ws://"), None);
}
