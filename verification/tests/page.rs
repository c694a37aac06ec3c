use eoka::cdp::types::KeyEventType;
use eoka::json::read;
use eoka::page::answer::{
    array_objects, attribute_value, check_cookie_set, check_first_load, check_js_result,
    check_nav_result, cookie_url, debug_filename, element_value, evaluated, found_node,
    find_any, found_nodes, is_element_cdp_error, not_visible, response_body, text_search_node,
    text_search_object, try_click, try_outcome, unknown_state, value_flag, value_text, visibility,
    JsException, PropertyDescriptor, ResponseBody, TryClick,
};
use eoka::page::frames::{frames, FrameInfo, FrameTree};
use eoka::page::keys::{press_key, shortcut};
use eoka::page::script::{
    attribute_expression, css_expression, element_function, evaluate_in_frame_script,
    find_all_by_text_script, find_by_text_script, focus_script, select_by_text_script,
    select_multiple_script, select_script, TextMatch, PAGE_STATE, PENDING_REQUESTS,
};
use eoka::page::wait::{
    none_found_text, not_found_text, not_visible_text, poll_until, still_visible_text,
    text_not_found_text, url_changed, url_contains, url_text, url_unchanged_text, IdleStep,
    IdleWait, PollStep, Retry, RetryStep,
};
use eoka::Error;

fn text_of(e: Error) -> String {
    match e {
        Error::Navigation(m) => format!("navigation {m}"),
        Error::ElementNotFound(m) => format!("not found {m}"),
        Error::ElementNotVisible { selector } => format!("not visible {selector}"),
        Error::CdpSimple(m) => format!("simple {m}"),
        Error::Timeout(m) => format!("timeout {m}"),
        Error::Decode(_) => "decode".to_string(),
        Error::RetryExhausted {
            attempts,
            last_error,
        } => format!("exhausted {attempts} {last_error}"),
        Error::Cdp { message, .. } => format!("cdp {message}"),
        Error::Transport(m) => format!("transport {m}"),
        _ => panic!("another error"),
    }
}

fn cdp(message: &str) -> Error {
    Error::cdp("M", -32000, message)
}

#[test]
fn page_loads_are_judged() {
    assert!(check_nav_result(&None).is_ok());
    assert!(check_nav_result(&Some("net::ERR_HTTP_RESPONSE_CODE_FAILURE".to_string())).is_ok());
    let failed = check_nav_result(&Some("net::ERR_FAILED".to_string()));
    assert_eq!(text_of(failed.err().unwrap()), "navigation net::ERR_FAILED");
    assert!(check_first_load(None).is_ok());
    let failed = check_first_load(Some("net::ERR_HTTP_RESPONSE_CODE_FAILURE".to_string()));
    assert_eq!(
        text_of(failed.err().unwrap()),
        "navigation net::ERR_HTTP_RESPONSE_CODE_FAILURE"
    );
    assert_eq!(cookie_url("about:blank".to_string()), None);
    assert_eq!(cookie_url("https://x".to_string()).as_deref(), Some("https://x"));
    assert!(check_cookie_set(true).is_ok());
    assert_eq!(
        text_of(check_cookie_set(false).err().unwrap()),
        "simple Failed to set cookie"
    );
}

#[test]
fn script_results_are_judged() {
    let thrown = Some(JsException {
        text: "Uncaught".to_string(),
        line_number: 3,
        column_number: -1,
    });
    assert!(check_js_result(&None).is_ok());
    let said = "simple JavaScript error: Uncaught at 3:-1";
    assert_eq!(text_of(check_js_result(&thrown).err().unwrap()), said);
    assert_eq!(text_of(evaluated(&thrown, Some("1".to_string())).err().unwrap()), said);
    assert_eq!(evaluated(&None, Some("1".to_string())).ok().unwrap(), "1");
    assert_eq!(
        text_of(evaluated(&None, None).err().unwrap()),
        "simple No value returned from evaluate"
    );
    let object = |subtype, id: Option<&str>| {
        text_search_object(&None, subtype, id.map(String::from), "Buy")
            .map_err(text_of)
    };
    assert_eq!(object(Some("node"), Some("o")), Ok("o".to_string()));
    assert_eq!(object(None, Some("o")), Ok("o".to_string()));
    assert_eq!(object(Some("null"), Some("o")), Err("not found text: Buy".to_string()));
    assert_eq!(object(None, None), Err("not found text: Buy".to_string()));
    assert_eq!(
        text_of(text_search_object(&thrown, None, None, "Buy").err().unwrap()),
        said
    );
    assert_eq!(text_search_node(5, "Buy").ok(), Some(5));
    assert_eq!(
        text_of(text_search_node(0, "Buy").err().unwrap()),
        "not found text: Buy"
    );
}

#[test]
fn elements_are_picked_out() {
    assert_eq!(found_node(4, "#a").ok(), Some(4));
    assert_eq!(text_of(found_node(0, "#a").err().unwrap()), "not found #a");
    assert_eq!(found_nodes(&vec![0, 3, 0, -1, 3]), vec![3, -1, 3]);
    let property = |name: &str, id: Option<&str>| PropertyDescriptor {
        name: name.to_string(),
        object_id: id.map(String::from),
    };
    assert_eq!(
        array_objects(&vec![
            property("0", Some("a")),
            property("length", Some("x")),
            property("1", None),
            property("10", Some("b")),
            property("-1", Some("x")),
            property("99999999999999999999", Some("x")),
        ]),
        vec!["a", "b"]
    );
    assert_eq!(text_of(not_visible(-7)), "not visible node -7");
    assert_eq!(find_any(&vec!["#a", "b"], 0).ok(), Some(0));
    assert_eq!(find_any(&vec!["#a", "b"], 1).ok(), Some(1));
    assert_eq!(
        text_of(find_any(&vec!["#a", "b\"c\n"], 2).err().unwrap()),
        r##"not found None of selectors found: ["#a", "b\"c\n"]"##
    );
}

#[test]
fn missing_elements_are_no_errors_when_trying() {
    for message in [
        "Could not compute box model.",
        "Could not find node with given id",
        "No node with given id found",
        "Node is not an element",
    ] {
        assert!(is_element_cdp_error(&cdp(message)));
        assert_eq!(try_outcome(Err(cdp(message))).ok(), Some(false));
    }
    assert!(is_element_cdp_error(&Error::ElementNotFound("x".to_string())));
    assert!(is_element_cdp_error(&not_visible(1)));
    assert!(!is_element_cdp_error(&cdp("Target closed")));
    assert!(!is_element_cdp_error(&Error::transport("box model")));
    assert_eq!(try_outcome(Ok(())).ok(), Some(true));
    assert_eq!(
        text_of(try_outcome(Err(cdp("Target closed"))).err().unwrap()),
        "cdp Target closed"
    );
    assert!(matches!(try_click(Ok(())), TryClick::Click));
    assert!(matches!(
        try_click(Err(Error::ElementNotFound("x".to_string()))),
        TryClick::Done(Ok(false))
    ));
    assert!(matches!(
        try_click(Err(cdp("Target closed"))),
        TryClick::Done(Err(_))
    ));
    assert_eq!(visibility(Ok(())).ok(), Some(true));
    assert_eq!(visibility(Err(cdp("no box model"))).ok(), Some(false));
    assert!(visibility(Err(cdp("No node with given id"))).is_err());
    assert!(visibility(Err(Error::transport("box model"))).is_err());
}

#[test]
fn element_values_have_defaults() {
    let value = |text: &str| read(text).ok();
    assert_eq!(value_text(&element_value(value(r#""aé""#))), "aé");
    assert_eq!(value_text(&element_value(value("1"))), "");
    assert_eq!(value_text(&element_value(None)), "");
    assert!(value_flag(&element_value(value("true")), false));
    assert!(!value_flag(&element_value(value("false")), true));
    assert!(value_flag(&element_value(value("\"no\"")), true));
    assert_eq!(attribute_value(&element_value(value("\"x\""))).as_deref(), Some("x"));
    assert_eq!(attribute_value(&element_value(value("null"))), None);
    assert_eq!(attribute_value(&element_value(value("3"))), None);
}

#[test]
fn bodies_are_text_or_bytes() {
    let text = response_body("aGk=".to_string(), false).ok().unwrap();
    assert_eq!(text.as_text(), Some("aGk="));
    assert_eq!(text.as_bytes(), b"aGk=");
    let binary = response_body("aGk=".to_string(), true).ok().unwrap();
    assert_eq!(binary.as_bytes(), b"hi");
    assert!(matches!(binary, ResponseBody::Binary(_)));
    assert_eq!(
        text_of(response_body("?".to_string(), true).err().unwrap()),
        "decode"
    );
}

#[test]
fn searches_compare_as_asked() {
    let holds = |kind, condition: &str| {
        let script = find_by_text_script("Bu'Y", kind);
        assert_eq!(script.matches(&format!("if ({condition}) return el;")).count(), 2);
    };
    holds(TextMatch::Exact, r"t.trim() === 'Bu\'Y'");
    holds(TextMatch::Contains, r"t.toLowerCase().includes('bu\'y')");
    holds(TextMatch::StartsWith, r"t.toLowerCase().startsWith('bu\'y')");
    holds(TextMatch::EndsWith, r"t.toLowerCase().endsWith('bu\'y')");
    assert_eq!(TextMatch::default(), TextMatch::Contains);
    assert!(find_all_by_text_script("Bu'Y").contains(r"if (t.includes('bu\'y')) {"));
    assert!(PENDING_REQUESTS.contains("return window.__eoka_pending_requests;"));
    assert!(PAGE_STATE.starts_with("({"));
}

#[test]
fn scripts_escape_what_they_are_given() {
    assert_eq!(
        focus_script("#a'"),
        r"(() => { const el = document.querySelector('#a\''); if (el) { el.focus(); el.select(); } })()"
    );
    assert_eq!(
        select_script("s'", "v'"),
        r"(()=>{const el=document.querySelector('s\'');if(!el)throw new Error('Select not found');const opt=[...el.options].find(o=>o.value==='v\'');if(!opt)throw new Error('Option not found: v\'');el.value='v\'';el.dispatchEvent(new Event('change',{bubbles:true}))})()"
    );
    assert_eq!(
        select_by_text_script("s", "t'"),
        r"(()=>{const el=document.querySelector('s');if(!el)throw new Error('Select not found');const opt=[...el.options].find(o=>o.text.trim()==='t\'');if(!opt)throw new Error('Option not found: t\'');el.value=opt.value;el.dispatchEvent(new Event('change',{bubbles:true}))})()"
    );
    assert_eq!(
        select_multiple_script("s", &vec!["a\"", "b"]),
        r#"(()=>{const el=document.querySelector('s');if(!el)throw new Error('Select not found');const v=["a\"","b"];for(const o of el.options)o.selected=v.includes(o.value);el.dispatchEvent(new Event('change',{bubbles:true}))})()"#
    );
    let framed = evaluate_in_frame_script("#f'", "a['b']");
    assert!(framed.contains(r"document.querySelector('#f\'');"));
    assert!(framed.contains(r"new Error('Frame not found: #f\'');"));
    assert!(framed.contains(r"Function('return (' + 'a[\'b\']' + ')');"));
    assert_eq!(element_function("this.x"), "function() { return this.x; }");
    assert_eq!(attribute_expression("a'"), r"this.getAttribute('a\'')");
    assert_eq!(
        css_expression("color"),
        "getComputedStyle(this).getPropertyValue('color')"
    );
}

#[test]
fn keys_go_down_and_come_up() {
    let (down, up) = press_key("Ctrl+Shift+a");
    assert_eq!(down.event_type, KeyEventType::KeyDown);
    assert_eq!(up.event_type, KeyEventType::KeyUp);
    for e in [&down, &up] {
        assert_eq!(e.modifiers, Some(10));
        assert_eq!(e.key.as_deref(), Some("a"));
        assert_eq!(e.code.as_deref(), Some("KeyA"));
        assert_eq!(e.windows_virtual_key_code, Some(65));
        assert_eq!(e.native_virtual_key_code, Some(65));
    }
    let (down, _) = press_key("?");
    assert_eq!(down.modifiers, None);
    assert_eq!(down.key.as_deref(), Some("?"));
    assert_eq!(down.windows_virtual_key_code, None);
    assert_eq!(shortcut(true, "A"), "Cmd+A");
    assert_eq!(shortcut(false, "V"), "Ctrl+V");
}

#[test]
fn frames_are_listed_from_the_outside_in() {
    let frame = |id: &str, children| FrameTree {
        frame: FrameInfo {
            id: id.to_string(),
            url: format!("u{id}"),
            name: if id == "2" { Some("n".to_string()) } else { None },
        },
        child_frames: children,
    };
    let tree = frame(
        "0",
        vec![
            frame("1", vec![frame("2", vec![]), frame("3", vec![])]),
            frame("4", vec![]),
        ],
    );
    let all = frames(&tree);
    let ids: Vec<&str> = all.iter().map(|f| f.id.as_str()).collect();
    assert_eq!(ids, vec!["0", "1", "2", "3", "4"]);
    assert_eq!(all[2].name.as_deref(), Some("n"));
    assert_eq!(all[4].url, "u4");
}

#[test]
fn waits_end_in_time() {
    let ms = 1_000_000u128;
    let look = |found, elapsed| poll_until(found, elapsed, 10, "slow".to_string());
    assert!(matches!(look(Some(7), 99 * ms), PollStep::Done(7)));
    assert!(matches!(look(None, 10 * ms), PollStep::Sleep(100)));
    match look(None, 10 * ms + 1) {
        PollStep::GiveUp(e) => assert_eq!(text_of(e), "timeout slow"),
        _ => panic!("too late"),
    }
    assert_eq!(not_found_text("#a", 5), "Element '#a' not found within 5ms");
    assert_eq!(not_visible_text("#a", 5), "Element '#a' not visible within 5ms");
    assert_eq!(still_visible_text("#a", 5), "Element '#a' still visible after 5ms");
    assert_eq!(
        text_not_found_text("Buy", 5),
        "Element with text 'Buy' not found within 5ms"
    );
    assert_eq!(url_text("x", 5), "URL did not contain 'x' within 5ms");
    assert_eq!(url_unchanged_text("x", 5), "URL did not change from 'x' within 5ms");
    assert_eq!(
        none_found_text(&vec!["a", "b"], 5),
        r#"None of selectors found within 5ms: ["a", "b"]"#
    );
    assert!(url_contains(Some("https://x/login"), "log").is_some());
    assert!(url_contains(Some("https://x"), "log").is_none());
    assert!(url_contains(None, "").is_none());
    assert_eq!(url_changed(Some("b".to_string()), "a").as_deref(), Some("b"));
    assert_eq!(url_changed(Some("a".to_string()), "a"), None);
    assert_eq!(url_changed(None, "a"), None);
}

#[test]
fn a_page_is_idle_after_a_while() {
    let ms = 1_000_000u128;
    let mut w = IdleWait::new(500, 2000);
    assert!(matches!(w.wait_for_network_idle(2, 0), IdleStep::Sleep(50)));
    assert!(matches!(w.wait_for_network_idle(0, 100 * ms), IdleStep::Sleep(50)));
    assert!(matches!(w.wait_for_network_idle(0, 599 * ms), IdleStep::Sleep(50)));
    assert!(matches!(w.wait_for_network_idle(1, 599 * ms), IdleStep::Sleep(50)));
    assert!(matches!(w.wait_for_network_idle(0, 600 * ms), IdleStep::Sleep(50)));
    assert!(matches!(w.wait_for_network_idle(0, 1100 * ms), IdleStep::Idle));
    let mut w = IdleWait::new(500, 2000);
    match w.wait_for_network_idle(-3, 2000 * ms + 1) {
        IdleStep::GiveUp(e) => assert_eq!(
            text_of(e),
            "timeout Network not idle after 2000ms (-3 pending requests)"
        ),
        _ => panic!("too late"),
    }
    let mut w = IdleWait::new(0, 2000);
    assert!(matches!(w.wait_for_network_idle(0, 0), IdleStep::Sleep(50)));
    assert!(matches!(w.wait_for_network_idle(0, 0), IdleStep::Idle));
}

#[test]
fn attempts_are_counted() {
    let mut r = Retry::new(2, 30);
    assert!(matches!(r.begin(), RetryStep::Try));
    assert!(matches!(r.failed("a".to_string()), RetryStep::SleepThenTry(30)));
    match r.failed("b".to_string()) {
        RetryStep::GiveUp(e) => assert_eq!(text_of(e), "exhausted 2 b"),
        _ => panic!("no attempt is left"),
    }
    match Retry::new(0, 30).begin() {
        RetryStep::GiveUp(e) => assert_eq!(text_of(e), "exhausted 0 "),
        _ => panic!("no attempt is left"),
    }
}

#[test]
fn debugging_names_its_files() {
    assert_eq!(debug_filename(Some("d"), "p", 12), "d/p_12.png");
    assert_eq!(debug_filename(None, "p", 12), "p_12.png");
    let s = unknown_state();
    assert_eq!((s.url.as_str(), s.title.as_str()), ("unknown", "unknown"));
    assert_eq!(s.input_count + s.button_count + s.link_count + s.form_count, 0);
}
