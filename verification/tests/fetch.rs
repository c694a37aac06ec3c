use eoka::fetch::{fetch_many_script, fetch_script, request_to_json};
use eoka::BrowserFetchRequest;
use serde_json::Value;

#[test]
fn fetch_script_embeds_request_as_json() {
    let mut request = BrowserFetchRequest::get("https://example.com/?q='x'");
    request.headers.insert("x-test".to_string(), "1".to_string());
    request.max_body_chars = Some(10);
    let script = fetch_script(&request).ok().unwrap();
    assert!(script.contains(r#""url":"https://example.com/?q='x'""#));
    assert!(script.contains("maxBodyChars"));
    assert!(script.contains("response.text()"));
}

#[test]
fn fetch_many_script_uses_promise_all() {
    let script = fetch_many_script(&vec![BrowserFetchRequest::get("https://example.com")])
        .ok()
        .unwrap();
    assert!(script.contains("Promise.all"));
    assert!(script.contains("catch (error)"));
}

#[test]
fn what_is_not_given_is_left_out() {
    let plain = BrowserFetchRequest::get("u");
    assert_eq!(request_to_json(&plain), r#"{"url":"u"}"#);

    let mut full = BrowserFetchRequest::get("u\"\n");
    full.method = Some("POST".to_string());
    full.headers.insert("a".to_string(), "1".to_string());
    full.headers.insert("a".to_string(), "2".to_string());
    full.body = Some("b".to_string());
    full.credentials = Some("include".to_string());
    full.redirect = Some("manual".to_string());
    full.max_body_chars = Some(7);
    let text = request_to_json(&full);
    assert_eq!(
        text,
        r#"{"url":"u\"\n","method":"POST","headers":{"a":"2"},"body":"b","credentials":"include","redirect":"manual","maxBodyChars":7}"#
    );
    let script = fetch_many_script(&vec![full, BrowserFetchRequest::get("v")]).ok().unwrap();
    assert!(script.contains(&format!(r#"const requests = [{text},{{"url":"v"}}];"#)));
    let read: Value = serde_json::from_str(&text).unwrap();
    let expected: Value = serde_json::from_str(
        r#"{"url":"u\"\n","method":"POST","headers":{"a":"2"},"body":"b","credentials":"include","redirect":"manual","maxBodyChars":7}"#,
    )
    .unwrap();
    assert_eq!(read, expected);
}

#[test]
fn scripts_hold_the_requests_where_they_are_read() {
    let request = BrowserFetchRequest::get("u");
    let script = fetch_script(&request).ok().unwrap();
    assert!(script.starts_with("(async () => {\n  const request = {\"url\":\"u\"};\n"));
    assert!(script.ends_with("    truncated\n  };\n})()"));
    let script = fetch_many_script(&vec![request, BrowserFetchRequest::get("v")])
        .ok()
        .unwrap();
    assert!(
        script.starts_with("(async () => {\n  const requests = [{\"url\":\"u\"},{\"url\":\"v\"}];\n")
    );
    assert!(script.ends_with("  return Promise.all(requests.map(run));\n})()"));
    let none = fetch_many_script(&Vec::new()).ok().unwrap();
    assert!(none.contains("const requests = [];"));
}
