use eoka::cdp::discover::{
    auto_connect, discover_browser_ws, discover_pages, invalid_pages, listed_argv,
    read_devtools_active_port, read_process_argv, read_singleton_lock, rewrite_ws_url_host,
    PageTarget,
};
use eoka::cdp::http::{find_double_crlf, http_get, request_text, HttpStep};
use eoka::Error;

fn transport_message(e: Error) -> String {
    match e {
        Error::Transport(m) => m,
        _ => panic!("not a transport error"),
    }
}

#[test]
fn replaces_portless_host_chrome_echoes_back() {
    let raw = "ws://localhost/devtools/browser/1a65aa96-763b-40ff-bbdf-925f53bc4a66";
    assert_eq!(
        rewrite_ws_url_host(raw, "127.0.0.1", 41015),
        "ws://127.0.0.1:41015/devtools/browser/1a65aa96-763b-40ff-bbdf-925f53bc4a66"
    );
}

#[test]
fn replaces_host_that_already_has_a_port() {
    let raw = "ws://127.0.0.1:9222/devtools/browser/GUID";
    assert_eq!(
        rewrite_ws_url_host(raw, "127.0.0.1", 9222),
        "ws://127.0.0.1:9222/devtools/browser/GUID"
    );
}

#[test]
fn handles_missing_path() {
    assert_eq!(
        rewrite_ws_url_host("ws://localhost", "127.0.0.1", 9222),
        "ws://127.0.0.1:9222"
    );
}

#[test]
fn rewriting_again_changes_nothing() {
    for raw in ["", "/x", "ws://h/a/b", "a://b://c/d", "ws://h:1?q=x://y/z"] {
        let once = rewrite_ws_url_host(raw, "localhost", 80);
        assert_eq!(rewrite_ws_url_host(&once, "localhost", 80), once, "{raw}");
    }
    assert_eq!(rewrite_ws_url_host("a/b", "h", 0), "ws://h:0/b");
}

#[test]
fn a_path_is_kept_whole() {
    assert_eq!(
        rewrite_ws_url_host("ws://localhost/x://y", "127.0.0.1", 9222),
        "ws://127.0.0.1:9222/x://y"
    );
    assert_eq!(
        rewrite_ws_url_host("wss://h:1/a/b?c=d://e#f", "::1", 80),
        "ws://::1:80/a/b?c=d://e#f"
    );
}

/// Feeds a reply byte by byte, never closing the connection.
fn fed_slowly(reply: &[u8]) -> HttpStep {
    for n in 0..=reply.len() {
        match http_get(&reply[..n].to_vec(), false, "/json/version", "127.0.0.1:9") {
            HttpStep::More => {}
            step => return step,
        }
    }
    HttpStep::More
}

#[test]
fn discover_browser_ws_does_not_hang_on_keep_alive_server() {
    let body = r#"{"webSocketDebuggerUrl":"ws://localhost/devtools/browser/regression-guid"}"#;
    let reply = format!(
        "HTTP/1.1 200 OK\r\nContent-Type: application/json\r\nContent-Length: {}\r\n\r\n{}",
        body.len(),
        body
    );
    let got = match fed_slowly(reply.as_bytes()) {
        HttpStep::Done(text) => text,
        _ => panic!("the reply is complete"),
    };
    assert_eq!(
        discover_browser_ws(&got, "127.0.0.1", 9222).ok().unwrap(),
        "ws://127.0.0.1:9222/devtools/browser/regression-guid"
    );
}

#[test]
fn discover_pages_does_not_hang_on_keep_alive_server() {
    let body = r#"[{"id":"1","type":"page","url":"about:blank","webSocketDebuggerUrl":"ws://localhost/devtools/page/regression-guid"}]"#;
    let reply = format!(
        "HTTP/1.1 200 OK\r\nContent-Type: application/json\r\nContent-Length: {}\r\n\r\n{}",
        body.len(),
        body
    );
    assert!(matches!(fed_slowly(reply.as_bytes()), HttpStep::Done(text) if text == body));

    let listed = vec![PageTarget {
        id: "1".to_string(),
        title: String::new(),
        kind: "page".to_string(),
        url: "about:blank".to_string(),
        web_socket_debugger_url: "ws://localhost/devtools/page/regression-guid".to_string(),
    }];
    let pages = discover_pages(listed, "127.0.0.1", 9222);
    assert_eq!(pages.len(), 1);
    assert_eq!(pages[0].id, "1");
    assert_eq!(pages[0].kind, "page");
    assert_eq!(
        pages[0].web_socket_debugger_url,
        "ws://127.0.0.1:9222/devtools/page/regression-guid"
    );
}

#[test]
fn replies_that_are_of_no_use() {
    let judged = |reply: &str, ended| match http_get(
        &reply.as_bytes().to_vec(),
        ended,
        "/json",
        "h:1",
    ) {
        HttpStep::More => "more".to_string(),
        HttpStep::Done(body) => format!("done {body}"),
        HttpStep::Failed(e) => transport_message(e),
    };
    assert_eq!(judged("HTTP/1.1 200 OK\r\n", false), "more");
    assert_eq!(
        judged("HTTP/1.1 200 OK\r\n", true),
        "Chrome closed the connection before headers"
    );
    assert_eq!(
        judged("HTTP/1.1 404 Not Found\r\nA: b\r\n\r\n", false),
        "HTTP /json from Chrome at h:1: HTTP/1.1 404 Not Found"
    );
    assert_eq!(judged("\r\n\r\n", false), "HTTP /json from Chrome at h:1: ");
    assert_eq!(judged("HTTP/1.0 200 OK\r\n\r\nbo", false), "more");
    assert_eq!(judged("HTTP/1.0 200 OK\r\n\r\nbo", true), "done bo");
    assert_eq!(
        judged("HTTP/1.1 200 OK\r\nCONTENT-length:  3 \r\n\r\nabcdef", false),
        "done abc"
    );
    assert_eq!(
        judged("HTTP/1.1 200 OK\r\nContent-Length: x\r\nContent-Length: 2\r\n\r\na", true),
        "Chrome closed the connection before sending the full response body"
    );
    assert_eq!(
        judged("HTTP/1.1 200 OK\r\nContent-Length: 18446744073709551615\r\n\r\na", false),
        "more"
    );
    match http_get(&b"HTTP/1.1 200\r\n\r\n\xff!".to_vec(), true, "/", "h") {
        HttpStep::Done(body) => assert_eq!(body, "\u{fffd}!"),
        _ => panic!("the reply is complete"),
    }
}

#[test]
fn requests_and_blank_lines() {
    assert_eq!(
        request_text("/json"),
        "GET /json HTTP/1.1\r\nHost: localhost\r\nAccept: application/json\r\nConnection: close\r\n\r\n"
    );
    assert_eq!(find_double_crlf(b"ab\r\n\r\r\n\r\n"), Some(5));
    assert_eq!(find_double_crlf(b"\r\n\r"), None);
}

#[test]
fn browser_replies_without_a_url() {
    let message = |body| transport_message(discover_browser_ws(body, "h", 1).err().unwrap());
    assert_eq!(message("{}"), "No webSocketDebuggerUrl in /json/version");
    assert_eq!(
        message(r#"{"webSocketDebuggerUrl":7}"#),
        "No webSocketDebuggerUrl in /json/version"
    );
    let cause = serde_json::from_str::<serde_json::Value>("{").err().unwrap();
    assert_eq!(
        message("{"),
        format!("Invalid JSON from /json/version: {cause}")
    );
    assert_eq!(
        transport_message(invalid_pages("bad")),
        "Invalid JSON from /json: bad"
    );
}

#[test]
fn the_first_port_that_answers_is_taken() {
    let probe = |port: u16| if port >= 9224 { Some(format!("ws://{port}")) } else { None };
    assert_eq!(
        auto_connect(9222, 9230, probe),
        Some((9224, "ws://9224".to_string()))
    );
    assert_eq!(auto_connect(9222, 9223, probe), None);
    assert_eq!(auto_connect(9230, 9222, probe), None);
    assert_eq!(
        auto_connect(65535, 65535, probe),
        Some((65535, "ws://65535".to_string()))
    );
}

#[test]
fn read_singleton_lock_parses_trailing_pid() {
    assert_eq!(read_singleton_lock("some-host-54321"), Some(54321));
    assert_eq!(read_singleton_lock("54321"), Some(54321));
    assert_eq!(read_singleton_lock("host-"), None);
    assert_eq!(read_singleton_lock("host-4294967296"), None);
    assert_eq!(read_singleton_lock("host-+7"), Some(7));
}

#[test]
fn read_devtools_active_port_parses_first_line() {
    assert_eq!(
        read_devtools_active_port(
            "37469\n/devtools/browser/00000000-0000-0000-0000-000000000000\n"
        ),
        Some(37469)
    );
    assert_eq!(read_devtools_active_port(" 80 \r\n"), Some(80));
    assert_eq!(read_devtools_active_port(""), None);
    assert_eq!(read_devtools_active_port("65536"), None);
    assert_eq!(read_devtools_active_port("\n80"), None);
}

#[test]
fn argument_lists_are_split() {
    assert_eq!(
        read_process_argv(&b"/bin/x\0--a=b c\0\0\xff\0".to_vec()),
        vec!["/bin/x", "--a=b c", "\u{fffd}"]
    );
    assert!(read_process_argv(&vec![0, 0]).is_empty());
    assert_eq!(
        listed_argv(&b"  /bin/x --a \t b\n".to_vec()),
        vec!["/bin/x", "--a", "b"]
    );
}
