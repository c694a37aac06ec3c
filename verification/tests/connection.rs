use std::cell::RefCell;

use eoka::cdp::command::Command;
use eoka::cdp::connection::{decode_screenshot, resolved_object, NavigationEntry};
use eoka::cdp::types::{
    FetchHeaderEntry, InputDispatchKeyEventFull, KeyEventType, MouseButton, MouseEventType,
    NetworkSetCookie, RequestPattern,
};
use eoka::cdp::transport::Outgoing;
use eoka::cdp::{Connection, Session, Transport};
use eoka::page::mouse::{click_at, hover_at};
use eoka::textmap::TextMap;
use eoka::Error;
use serde_json::Value;

fn session() -> Session {
    Connection::new(()).attached("T", "S")
}

/// The command's name and data, for the session `S`.
fn told(c: Command) -> (String, Value) {
    assert_eq!(c.session_id.as_deref(), Some("S"));
    let params = serde_json::from_str(&c.params_text().ok().unwrap()).unwrap();
    (c.method, params)
}

fn expect(c: Command, method: &str, params: &str) {
    let (name, data) = told(c);
    assert_eq!(name, method);
    let expected: Value = serde_json::from_str(params).unwrap();
    assert_eq!(data, expected, "{method}");
}

fn expect_browser(c: Command, method: &str, params: &str) {
    assert!(c.session_id.is_none());
    assert_eq!(c.method, method);
    let data: Value = serde_json::from_str(&c.params_text().ok().unwrap()).unwrap();
    let expected: Value = serde_json::from_str(params).unwrap();
    assert_eq!(data, expected, "{method}");
}

#[test]
fn commands_for_the_browser() {
    let c = Connection::new(Transport::<u8>::connect("ws://h/x", 9).ok().unwrap());
    expect_browser(c.version(), "Browser.getVersion", "{}");
    expect_browser(
        c.create_target("about:blank", None, Some(600)),
        "Target.createTarget",
        r#"{"url":"about:blank","height":600}"#,
    );
    expect_browser(
        c.attach_to_target("T"),
        "Target.attachToTarget",
        r#"{"targetId":"T","flatten":true}"#,
    );
    expect_browser(c.close_target("T"), "Target.closeTarget", r#"{"targetId":"T"}"#);
    expect_browser(c.get_targets(), "Target.getTargets", "{}");
    expect_browser(c.activate_target("T"), "Target.activateTarget", r#"{"targetId":"T"}"#);
    expect_browser(c.close(), "Browser.close", "{}");
}

#[test]
fn a_connection_keeps_its_transport() {
    let mut transport = Transport::<u8>::connect("ws://h/x", 9).ok().unwrap();
    assert!(matches!(transport.send("A.b", "{}", 7), Outgoing::Write { id: 1, .. }));
    let c = Connection::new(RefCell::new(transport));
    let next = c.transport().borrow_mut().send("A.b", "{}", 8);
    assert!(matches!(next, Outgoing::Write { id: 2, .. }));
}

#[test]
fn coordinates_are_written_as_they_were_given() {
    for x in ["31.245270191439438", "121.48791951161945", "-0.1", "1e300"] {
        let (down, _) = click_at(&session(), x, "100.78399658203125");
        let mut t = Transport::<u8>::connect("ws://h/x", 9).ok().unwrap();
        let data = match t.send_command(&down, 0) {
            Outgoing::Write { data, .. } => data,
            _ => panic!("not sent"),
        };
        let frame: Value = serde_json::from_str(&data).unwrap();
        let expected: f64 = x.parse().unwrap();
        assert_eq!(frame["params"]["x"].as_f64(), Some(expected));
        assert_eq!(frame["params"]["y"].as_f64(), Some(100.78399658203125));
    }
}

#[test]
fn data_is_sorted_by_its_keys() {
    let c = session().set_cookie("n", "v", Some("u"), Some("d"), Some("/"));
    assert_eq!(
        c.params_text().ok().unwrap(),
        r#"{"domain":"d","name":"n","path":"/","url":"u","value":"v"}"#
    );
    let mut headers = TextMap::new();
    headers.insert("b".to_string(), "1".to_string());
    headers.insert("a".to_string(), "2".to_string());
    let c = session().set_extra_headers(headers);
    assert_eq!(c.params_text().ok().unwrap(), r#"{"headers":{"a":"2","b":"1"}}"#);
}

#[test]
fn commands_for_a_page() {
    let s = session();
    expect(s.page_enable(), "Page.enable", "{}");
    expect(s.navigate("u", None), "Page.navigate", r#"{"url":"u"}"#);
    expect(
        s.navigate("u", Some("r")),
        "Page.navigate",
        r#"{"url":"u","referrer":"r"}"#,
    );
    expect(s.reload(false), "Page.reload", r#"{"ignoreCache":false}"#);
    expect(s.set_bypass_csp(true), "Page.setBypassCSP", r#"{"enabled":true}"#);
    expect(
        s.set_user_agent("ua", None),
        "Emulation.setUserAgentOverride",
        r#"{"userAgent":"ua"}"#,
    );
    expect(
        s.set_ignore_cert_errors(true),
        "Security.setIgnoreCertificateErrors",
        r#"{"ignore":true}"#,
    );
    expect(
        s.handle_dialog(true, Some("yes")),
        "Page.handleJavaScriptDialog",
        r#"{"accept":true,"promptText":"yes"}"#,
    );
    expect(
        s.add_script_to_evaluate_on_new_document("1"),
        "Page.addScriptToEvaluateOnNewDocument",
        r#"{"source":"1"}"#,
    );
    expect(s.get_frame_tree(), "Page.getFrameTree", "{}");
    expect(
        s.capture_screenshot(Some("jpeg"), Some(101)),
        "Page.captureScreenshot",
        r#"{"format":"jpeg","quality":100}"#,
    );
    expect(
        s.capture_screenshot(Some("png"), None),
        "Page.captureScreenshot",
        r#"{"format":"png"}"#,
    );
    expect(s.insert_text(""), "Input.insertText", r#"{"text":""}"#);
    expect(
        s.get_document(Some(0)),
        "DOM.getDocument",
        r#"{"depth":0,"pierce":true}"#,
    );
    expect(
        s.query_selector(1, "#a"),
        "DOM.querySelector",
        r##"{"nodeId":1,"selector":"#a"}"##,
    );
    expect(
        s.query_selector_all(1, "a"),
        "DOM.querySelectorAll",
        r#"{"nodeId":1,"selector":"a"}"#,
    );
    expect(s.get_box_model(3), "DOM.getBoxModel", r#"{"nodeId":3}"#);
    expect(s.get_outer_html(3), "DOM.getOuterHTML", r#"{"nodeId":3}"#);
    expect(
        s.resolve_node(3),
        "DOM.resolveNode",
        r#"{"nodeId":3,"objectGroup":"eoka"}"#,
    );
    expect(s.focus(3), "DOM.focus", r#"{"nodeId":3}"#);
    expect(s.request_node("o"), "DOM.requestNode", r#"{"objectId":"o"}"#);
    expect(
        s.set_file_input_files(3, vec!["/a".to_string()]),
        "DOM.setFileInputFiles",
        r#"{"files":["/a"],"nodeId":3}"#,
    );
}

#[test]
fn commands_that_evaluate() {
    let s = session();
    expect(
        s.evaluate("1"),
        "Runtime.evaluate",
        r#"{"expression":"1","returnByValue":true,"awaitPromise":true}"#,
    );
    expect(
        s.evaluate_sync("1"),
        "Runtime.evaluate",
        r#"{"expression":"1","returnByValue":true,"awaitPromise":false}"#,
    );
    expect(
        s.evaluate_for_remote_object("1"),
        "Runtime.evaluate",
        r#"{"expression":"1","objectGroup":"eoka","returnByValue":false,"awaitPromise":true}"#,
    );
    expect(
        s.call_function_on("o", "f"),
        "Runtime.callFunctionOn",
        r#"{"functionDeclaration":"f","objectId":"o","returnByValue":true,"awaitPromise":true}"#,
    );
    expect(
        s.get_properties("o"),
        "Runtime.getProperties",
        r#"{"objectId":"o","ownProperties":true}"#,
    );
}

#[test]
fn commands_about_the_network() {
    let s = session();
    expect(s.network_enable(), "Network.enable", r#"{"maxPostDataSize":65536}"#);
    expect(s.network_disable(), "Network.disable", "{}");
    expect(
        s.get_response_body("R"),
        "Network.getResponseBody",
        r#"{"requestId":"R"}"#,
    );
    expect(s.clear_all_cookies(), "Network.clearBrowserCookies", "{}");
    expect(s.get_cookies(None), "Network.getCookies", "{}");
    expect(
        s.get_cookies(Some(vec!["u".to_string()])),
        "Network.getCookies",
        r#"{"urls":["u"]}"#,
    );
    expect(
        s.set_cookie("n", "v", None, Some("d"), None),
        "Network.setCookie",
        r#"{"name":"n","value":"v","domain":"d"}"#,
    );
    expect(
        s.delete_cookies("n", Some("u"), None),
        "Network.deleteCookies",
        r#"{"name":"n","url":"u"}"#,
    );
    expect(
        s.set_cookies(&vec![NetworkSetCookie {
            name: "n".to_string(),
            value: "v".to_string(),
            url: None,
            domain: Some("d".to_string()),
            path: Some("/".to_string()),
            secure: Some(true),
            http_only: Some(false),
            same_site: Some("Lax".to_string()),
            expires: Some("1.5".to_string()),
        }]),
        "Network.setCookies",
        r#"{"cookies":[{"name":"n","value":"v","domain":"d","path":"/","secure":true,"httpOnly":false,"sameSite":"Lax","expires":1.5}]}"#,
    );
    let mut headers = TextMap::new();
    headers.insert("a".to_string(), "1".to_string());
    expect(
        s.set_extra_headers(headers),
        "Network.setExtraHTTPHeaders",
        r#"{"headers":{"a":"1"}}"#,
    );
    expect(
        s.clear_extra_headers(),
        "Network.setExtraHTTPHeaders",
        r#"{"headers":{}}"#,
    );
}

#[test]
fn commands_that_stop_requests() {
    let s = session();
    expect(
        s.fetch_enable(true),
        "Fetch.enable",
        r#"{"handleAuthRequests":true}"#,
    );
    expect(
        s.fetch_enable_interception(
            &vec![RequestPattern {
                url_pattern: Some("*".to_string()),
                resource_type: None,
                request_stage: Some("Request".to_string()),
            }],
            false,
        ),
        "Fetch.enable",
        r#"{"patterns":[{"urlPattern":"*","requestStage":"Request"}],"handleAuthRequests":false}"#,
    );
    expect(s.fetch_disable(), "Fetch.disable", "{}");
    expect(
        s.fetch_fail("R", "Aborted"),
        "Fetch.failRequest",
        r#"{"requestId":"R","errorReason":"Aborted"}"#,
    );
    let header = || {
        Some(vec![FetchHeaderEntry {
            name: "n".to_string(),
            value: "v".to_string(),
        }])
    };
    expect(
        s.fetch_continue("R", None, Some("POST"), header(), Some("d")),
        "Fetch.continueRequest",
        r#"{"requestId":"R","method":"POST","postData":"d","headers":[{"name":"n","value":"v"}]}"#,
    );
    expect(
        s.fetch_fulfill("R", 200, header(), Some("hello")),
        "Fetch.fulfillRequest",
        r#"{"requestId":"R","responseCode":200,"responseHeaders":[{"name":"n","value":"v"}],"body":"aGVsbG8="}"#,
    );
    expect(
        s.fetch_fulfill("R", 404, None, None),
        "Fetch.fulfillRequest",
        r#"{"requestId":"R","responseCode":404}"#,
    );
}

#[test]
fn commands_for_mouse_and_keys() {
    let s = session();
    expect(
        s.dispatch_mouse_event(MouseEventType::MouseMoved, "1.5", "2", None, None),
        "Input.dispatchMouseEvent",
        r#"{"type":"mouseMoved","x":1.5,"y":2}"#,
    );
    expect(
        s.dispatch_mouse_event(
            MouseEventType::MousePressed,
            "0",
            "0",
            Some(MouseButton::Right),
            Some(2),
        ),
        "Input.dispatchMouseEvent",
        r#"{"type":"mousePressed","x":0,"y":0,"button":"right","clickCount":2}"#,
    );
    expect(
        s.dispatch_mouse_wheel("1", "2", "0.0", "-120.5"),
        "Input.dispatchMouseEvent",
        r#"{"type":"mouseWheel","x":1,"y":2,"deltaX":0.0,"deltaY":-120.5}"#,
    );
    let (down, up) = click_at(&s, "3", "4");
    expect(
        down,
        "Input.dispatchMouseEvent",
        r#"{"type":"mousePressed","x":3,"y":4,"button":"left","clickCount":1}"#,
    );
    expect(
        up,
        "Input.dispatchMouseEvent",
        r#"{"type":"mouseReleased","x":3,"y":4,"button":"left","clickCount":1}"#,
    );
    expect(
        hover_at(&s, "3", "4"),
        "Input.dispatchMouseEvent",
        r#"{"type":"mouseMoved","x":3,"y":4}"#,
    );
    expect(
        s.dispatch_key_event(KeyEventType::Char, Some("a"), Some("a"), None),
        "Input.dispatchKeyEvent",
        r#"{"type":"char","text":"a","key":"a"}"#,
    );
    expect(
        s.dispatch_key_event_full(&InputDispatchKeyEventFull {
            event_type: KeyEventType::RawKeyDown,
            modifiers: Some(2),
            text: None,
            key: Some("a".to_string()),
            code: Some("KeyA".to_string()),
            windows_virtual_key_code: Some(65),
            native_virtual_key_code: None,
        }),
        "Input.dispatchKeyEvent",
        r#"{"type":"rawKeyDown","modifiers":2,"key":"a","code":"KeyA","windowsVirtualKeyCode":65}"#,
    );
}

#[test]
fn history_goes_back_and_forward() {
    let s = session();
    let entries: Vec<NavigationEntry> = [10, 20, 30]
        .into_iter()
        .map(|id| NavigationEntry { id })
        .collect();
    expect(s.get_navigation_history(), "Page.getNavigationHistory", "{}");
    expect(
        s.go_back(1, &entries).unwrap(),
        "Page.navigateToHistoryEntry",
        r#"{"entryId":10}"#,
    );
    expect(
        s.go_forward(1, &entries).unwrap(),
        "Page.navigateToHistoryEntry",
        r#"{"entryId":30}"#,
    );
    assert!(s.go_back(0, &entries).is_none());
    assert!(s.go_forward(2, &entries).is_none());
    assert!(s.navigate_history(i32::MAX, &entries, i32::MAX).is_none());
    assert!(s.navigate_history(i32::MIN, &entries, i32::MIN).is_none());
}

#[test]
fn answers_are_decoded() {
    assert_eq!(decode_screenshot("AAH/").ok().unwrap(), vec![0, 1, 255]);
    match decode_screenshot("*") {
        Err(Error::Decode(m)) => assert!(!m.is_empty()),
        _ => panic!("not base64"),
    }
    assert_eq!(resolved_object(Some("o".to_string())).ok().unwrap(), "o");
    match resolved_object(None) {
        Err(Error::Cdp {
            method,
            code,
            message,
        }) => assert_eq!(
            (method.as_str(), code, message.as_str()),
            ("DOM.resolveNode", -1, "No object_id returned")
        ),
        _ => panic!("no object"),
    }
}
