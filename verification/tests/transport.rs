use eoka::cdp::command::{Command, Param, Params, Scalar};
use eoka::cdp::launch::{
    child_taken, devtools_url, no_stderr, no_url, spawn_failed, stop_child, with_any_port,
    ChildReport, StopStep, Stopping,
};
use eoka::cdp::transport::{
    auth_reply, channel_closed, connect_failed, is_blocked, is_risky, pong_failed, reply_failed,
    CdpMessage, ErrorFields, Incoming, Message, Outgoing, ReaderStep, Transport, AUTH_ID_BASE,
};
use eoka::Error;
use serde_json::Value;

const URL: &str = "ws://127.0.0.1:9222/devtools/browser/x";

fn message(e: &Error) -> String {
    match e {
        Error::Transport(m) | Error::Launch(m) | Error::Json(m) => m.clone(),
        Error::Cdp {
            method,
            code,
            message,
        } => format!("{method} {code} {message}"),
        _ => panic!("another error"),
    }
}

fn written(out: Outgoing) -> (u64, Value) {
    match out {
        Outgoing::Write { id, data } => (id, serde_json::from_str(&data).unwrap()),
        Outgoing::Answered(text) => panic!("answered {text}"),
        Outgoing::Refused(e) => panic!("refused {}", message(&e)),
    }
}

fn parsed(text: &str) -> Value {
    serde_json::from_str(text).unwrap()
}

fn transport() -> Transport<&'static str> {
    Transport::new(URL).ok().unwrap()
}

#[test]
fn commands_are_numbered_and_framed() {
    let mut t = transport();
    let (id, frame) = written(t.send("Browser.getVersion", "{}", "a"));
    assert_eq!(id, 1);
    assert_eq!(
        frame,
        parsed(r#"{"id":1,"method":"Browser.getVersion","params":{}}"#)
    );
    let (id, frame) = written(t.send_to_session("S", "Page.navigate", r#"{"url":"a\"b"}"#, "b"));
    assert_eq!(id, 2);
    assert_eq!(
        frame,
        parsed(r#"{"id":2,"method":"Page.navigate","params":{"url":"a\"b"},"sessionId":"S"}"#)
    );
}

#[test]
fn numbers_never_repeat() {
    let mut t = transport();
    let mut last = 0;
    for i in 0..20 {
        match i % 4 {
            0 => drop(t.send("Runtime.enable", "{}", "a")),
            1 => drop(t.send("A.b", "no json", "a")),
            2 => drop(t.fail_pending("gone")),
            _ => drop(t.write_failed(last, "gone")),
        }
        let answer = format!(r#"{{"id":{last},"result":{{}}}}"#);
        drop(t.receive(Incoming::Text(answer)));
        let (id, _) = written(t.send("A.b", "{}", "a"));
        assert!(id > last);
        last = id;
    }
}

#[test]
fn data_nested_deep_is_sent_as_it_is() {
    let deep = format!("{}1{}", "[".repeat(500), "]".repeat(500));
    let mut t = transport();
    match t.send_to_session("S", "A.b", &deep, "a") {
        Outgoing::Write { id: 1, data } => assert_eq!(
            data,
            format!(r#"{{"id":1,"method":"A.b","params":{deep},"sessionId":"S"}}"#)
        ),
        _ => panic!("not sent"),
    }
    match t.send("A.b", &deep, "a") {
        Outgoing::Write { id: 2, data } => {
            assert_eq!(data, format!(r#"{{"id":2,"method":"A.b","params":{deep}}}"#))
        }
        _ => panic!("not sent"),
    }
    let open = &deep[..deep.len() - 1];
    assert!(matches!(t.send("A.b", open, "a"), Outgoing::Refused(Error::Json(_))));
}

#[test]
fn credentials_can_change() {
    let challenge = r#"{"method":"Fetch.authRequired","params":{"requestId":"R"}}"#;
    let mut t = transport();
    let step = t.receive(Incoming::Text(challenge.to_string()));
    assert!(matches!(step, ReaderStep::Publish(_)));
    t.set_proxy_auth(Some(("u".to_string(), "p".to_string())));
    for incoming in [
        Incoming::Text(challenge.to_string()),
        Incoming::Binary(challenge.as_bytes().to_vec()),
    ] {
        match t.receive(incoming) {
            ReaderStep::Reply(text) => {
                let answer = &parsed(&text)["params"]["authChallengeResponse"];
                assert_eq!((&answer["username"], &answer["password"]), (&"u".into(), &"p".into()));
            }
            _ => panic!("no reply"),
        }
    }
    t.set_proxy_auth(None);
    let step = t.receive(Incoming::Text(challenge.to_string()));
    assert!(matches!(step, ReaderStep::Publish(_)));
}

#[test]
fn detectable_commands_are_held_back() {
    for method in [
        "Runtime.enable",
        "Runtime.disable",
        "HeapProfiler.enable",
        "HeapProfiler.disable",
        "Profiler.enable",
        "Profiler.disable",
        "Debugger.enable",
        "Debugger.disable",
        "Console.enable",
        "Console.disable",
    ] {
        assert!(is_blocked(method));
        let mut t = transport();
        match t.send(method, "{}", "x") {
            Outgoing::Answered(text) => assert_eq!(text, "{}"),
            _ => panic!("{method} must not be written"),
        }
        assert!(t.close().is_empty());

        let mut open = Transport::connect_with_options(URL, 5, false).ok().unwrap();
        assert_eq!(written(open.send(method, "{}", "x")).0, 1);
    }
    assert!(!is_blocked("Runtime.evaluate"));
    assert!(is_risky("Page.setBypassCSP"));
    assert!(is_risky("Emulation.setUserAgentOverride"));
    assert!(is_risky("Emulation.setTimezoneOverride"));
    assert!(is_risky("Emulation.setDeviceMetricsOverride"));
    assert!(!is_risky("Page.enable"));
}

#[test]
fn data_that_is_no_json_uses_up_a_number() {
    let mut t = transport();
    match t.send("Page.enable", "{", "x") {
        Outgoing::Refused(Error::Json(m)) => assert_eq!(
            m,
            serde_json::from_str::<Value>("{").err().unwrap().to_string()
        ),
        _ => panic!("not JSON"),
    }
    assert_eq!(written(t.send("Page.enable", "{}", "y")).0, 2);
    assert_eq!(t.close().len(), 1);
}

#[test]
fn answers_reach_their_senders_once() {
    let mut t = transport();
    t.send("A.a", "{}", "first");
    t.send("B.b", "{}", "second");
    let answer = || Incoming::Text(r#"{"id":2,"result":{"x":[1,2]}}"#.to_string());
    match t.receive(answer()) {
        ReaderStep::Deliver { slot, result } => {
            assert_eq!(slot, "second");
            assert_eq!(parsed(&result.ok().unwrap()), parsed(r#"{"x":[1,2]}"#));
        }
        _ => panic!("somebody waits"),
    }
    assert!(matches!(t.receive(answer()), ReaderStep::Skip));
    match t.receive(Incoming::Text(r#"{"id":1}"#.to_string())) {
        ReaderStep::Deliver { slot, result } => {
            assert_eq!(slot, "first");
            assert_eq!(result.ok().unwrap(), "{}");
        }
        _ => panic!("somebody waits"),
    }
}

#[test]
fn error_answers_carry_what_the_browser_says() {
    let errors = [
        (
            r#"{"id":1,"method":"M","error":{"code":-32000,"message":"No box model"}}"#,
            "M -32000 No box model",
        ),
        (r#"{"id":1,"error":{}}"#, "unknown -1 unknown"),
        (r#"{"id":1,"error":7,"result":{}}"#, "unknown -1 unknown"),
        (
            r#"{"id":1,"error":{"code":1.5,"message":3}}"#,
            "unknown -1 unknown",
        ),
    ];
    for (text, expected) in errors {
        let mut t = transport();
        t.send("A.a", "{}", "x");
        match t.receive(Incoming::Text(text.to_string())) {
            ReaderStep::Deliver { result, .. } => {
                assert_eq!(message(&result.err().unwrap()), expected)
            }
            _ => panic!("somebody waits"),
        }
    }
}

#[test]
fn events_are_published() {
    let mut t = transport();
    let step = t.receive(Incoming::Binary(
        br#"{"method":"Page.loadEventFired","params":{"timestamp":1.5},"sessionId":"S"}"#.to_vec(),
    ));
    match step {
        ReaderStep::Publish(CdpMessage::Event {
            method,
            params,
            session_id,
        }) => {
            assert_eq!(method, "Page.loadEventFired");
            assert_eq!(parsed(&params), parsed(r#"{"timestamp":1.5}"#));
            assert_eq!(session_id.as_deref(), Some("S"));
        }
        _ => panic!("an event"),
    }
    match t.receive(Incoming::Text(r#"{"method":"X.y","sessionId":4}"#.to_string())) {
        ReaderStep::Publish(CdpMessage::Event {
            params, session_id, ..
        }) => {
            assert_eq!(params, "{}");
            assert!(session_id.is_none());
        }
        _ => panic!("an event"),
    }
}

#[test]
fn what_is_no_message_is_skipped() {
    let mut t = transport();
    t.send("A.a", "{}", "x");
    for text in ["", "[1]", "{}", r#"{"id":-1}"#, r#"{"id":"1"}"#, r#"{"method":4}"#, "nul"] {
        assert!(matches!(
            t.receive(Incoming::Text(text.to_string())),
            ReaderStep::Skip
        ));
    }
    assert!(matches!(
        t.receive(Incoming::Binary(vec![0xff, 0xfe])),
        ReaderStep::Skip
    ));
    assert!(matches!(t.receive(Incoming::Pong), ReaderStep::Skip));
    assert!(matches!(t.receive(Incoming::Raw), ReaderStep::Skip));
    assert!(matches!(
        t.receive(Incoming::Ping(vec![1, 2])),
        ReaderStep::Pong(p) if p == vec![1, 2]
    ));
    let stop = |step| match step {
        ReaderStep::Stop(reason) => reason,
        _ => panic!("reading stops"),
    };
    assert_eq!(stop(t.receive(Incoming::Close)), "WebSocket closed by server");
    assert_eq!(
        stop(t.receive(Incoming::Failed("reset".to_string()))),
        "WebSocket read error: reset"
    );
    assert_eq!(stop(t.receive(Incoming::Ended)), "WebSocket stream ended");
}

#[test]
fn proxy_challenges_are_answered() {
    let pair = Some(("user".to_string(), "p\"w".to_string()));
    let mut t: Transport<u8> = Transport::new_with_options(URL, pair, 30).ok().unwrap();
    let challenge = r#"{"method":"Fetch.authRequired","params":{"requestId":"R"},"sessionId":"S"}"#;
    assert!(t.can_answer_challenge());
    match t.receive(Incoming::Text(challenge.to_string())) {
        ReaderStep::Reply(text) => {
            let expected = format!(
                r#"{{"id":{},"method":"Fetch.continueWithAuth","params":{{"authChallengeResponse":{{"password":"p\"w","response":"ProvideCredentials","username":"user"}},"requestId":"R"}},"sessionId":"S"}}"#,
                AUTH_ID_BASE + 1
            );
            assert_eq!(parsed(&text), parsed(&expected));
        }
        _ => panic!("a challenge is answered"),
    }
    match t.receive(Incoming::Text(challenge.replace("\"S\"", "null"))) {
        ReaderStep::Reply(text) => {
            let v = parsed(&text);
            assert_eq!(v["id"], Value::from(AUTH_ID_BASE + 2));
            assert!(v.get("sessionId").is_none());
        }
        _ => panic!("a challenge is answered"),
    }
    // Without a request there is nothing to answer.
    assert!(matches!(
        t.receive(Incoming::Text(
            r#"{"method":"Fetch.authRequired","params":{}}"#.to_string()
        )),
        ReaderStep::Publish(_)
    ));
    // Without a password it is an event like any other.
    assert!(matches!(
        transport().receive(Incoming::Text(challenge.to_string())),
        ReaderStep::Publish(_)
    ));
    assert_eq!(AUTH_ID_BASE, u64::MAX / 2);
    let text = auth_reply(7, None, "r", "u", "p");
    assert_eq!(parsed(&text)["id"], Value::from(7));
}

#[test]
fn messages_are_dispatched_by_their_parts() {
    let mut t = transport();
    t.send("A.a", "{}", "x");
    let m = Message {
        id: Some(1),
        method: Some("A.a".to_string()),
        error: Some(ErrorFields {
            code: Some(3),
            message: None,
        }),
        result: None,
        params: None,
        session_id: None,
        request_id: None,
    };
    match t.dispatch(m) {
        ReaderStep::Deliver { slot, result } => {
            assert_eq!(slot, "x");
            assert_eq!(message(&result.err().unwrap()), "A.a 3 unknown");
        }
        _ => panic!("somebody waits"),
    }
}

#[test]
fn the_end_is_told_to_everybody() {
    let mut t = transport();
    t.send("A.a", "{}", "first");
    t.send("B.b", "{}", "second");
    let mut failures = t.exit("WebSocket stream ended");
    failures.sort_by_key(|f| f.id);
    let told: Vec<_> = failures
        .iter()
        .map(|f| (f.id, f.slot, message(&f.error)))
        .collect();
    let context = "WebSocket connection lost: WebSocket stream ended".to_string();
    assert_eq!(
        told,
        vec![(1, "first", context.clone()), (2, "second", context)]
    );
    match t.send("C.c", "{}", "third") {
        Outgoing::Refused(e) => assert_eq!(
            message(&e),
            "CDP reader task has exited — WebSocket connection is dead"
        ),
        _ => panic!("nothing can be sent"),
    }
    // What is held back is answered all the same.
    assert!(matches!(
        t.send("Runtime.enable", "{}", "x"),
        Outgoing::Answered(_)
    ));
    let mut t = transport();
    t.send("A.a", "{}", "x");
    assert_eq!(message(&t.close()[0].error), "CDP transport closed");
    let mut t = transport();
    t.send("A.a", "{}", "x");
    assert_eq!(message(&t.abandon()[0].error), "CDP transport dropped");
}

#[test]
fn commands_that_are_given_up() {
    let mut t = Transport::connect(URL, 30).ok().unwrap();
    t.send("Page.navigate", "{}", "x");
    assert_eq!(
        message(&t.timed_out(1, "Page.navigate", "deadline has elapsed")),
        "CDP command 'Page.navigate' timed out after 30s (id=1): deadline has elapsed"
    );
    assert!(matches!(
        t.receive(Incoming::Text(r#"{"id":1}"#.to_string())),
        ReaderStep::Skip
    ));
    t.send("Page.navigate", "{}", "x");
    assert_eq!(
        message(&t.write_failed(2, "broken pipe")),
        "WebSocket write failed: broken pipe"
    );
    assert!(t.close().is_empty());
    assert_eq!(message(&channel_closed("x")), "Response channel closed: x");
    assert_eq!(message(&connect_failed("x")), "WebSocket connect failed: x");
    assert_eq!(pong_failed("x"), "WebSocket pong write failed: x");
    assert_eq!(reply_failed("x"), "Proxy auth write failed: x");
}

#[test]
fn only_plain_websocket_urls_are_accepted() {
    for url in ["", "wss://h/", "http://h/", " ws://h/"] {
        let r: Result<Transport<u8>, Error> = Transport::connect(url, 1);
        assert_eq!(
            message(&r.err().unwrap()),
            format!("Invalid WebSocket URL (expected ws://...): {url}")
        );
    }
}

#[test]
fn typed_commands_become_json() {
    let mut params = Params::new();
    params.text("a", "x\ny");
    params.flag("b", true);
    params.whole("c", -5);
    params.whole("d", 5);
    params.number("e", "1.25");
    params.opt_text("f", None);
    params.add("g", Param::Texts(vec!["p".to_string(), "q".to_string()]));
    params.add(
        "h",
        Param::Records(vec![
            vec![("n".to_string(), Scalar::Text("v".to_string()))],
            vec![("m".to_string(), Scalar::Number("0.5".to_string()))],
        ]),
    );
    let command = Command {
        session_id: Some("S".to_string()),
        method: "X.y".to_string(),
        params,
    };
    let expected = r#"{"a":"x\ny","b":true,"c":-5,"d":5,"e":1.25,"g":["p","q"],"h":[{"n":"v"},{"m":0.5}]}"#;
    assert_eq!(parsed(&command.params_text().ok().unwrap()), parsed(expected));
    let mut t = transport();
    let (_, frame) = written(t.send_command(&command, "x"));
    assert_eq!(frame["params"], parsed(expected));
    assert_eq!(frame["sessionId"], Value::from("S"));

    let mut params = Params::new();
    params.number("e", "one");
    let broken = Command {
        session_id: None,
        method: "X.y".to_string(),
        params,
    };
    assert!(broken.params_text().is_err());
    assert!(matches!(
        t.send_command(&broken, "x"),
        Outgoing::Refused(Error::Json(_))
    ));
    assert_eq!(written(t.send("A.a", "{}", "x")).0, 3);
}

#[test]
fn the_browser_announces_its_url() {
    assert_eq!(
        devtools_url("DevTools listening on ws://127.0.0.1:1/devtools/browser/g \r").as_deref(),
        Some("ws://127.0.0.1:1/devtools/browser/g")
    );
    assert_eq!(devtools_url("listening on ws://x"), None);
    assert_eq!(devtools_url("DevTools listening on nothing"), None);
    assert_eq!(
        with_any_port(&vec!["--a".to_string()]),
        vec!["--a", "--remote-debugging-port=0"]
    );
    assert_eq!(message(&spawn_failed("x")), "Failed to launch Chrome: x");
    assert_eq!(message(&no_stderr()), "No stderr from Chrome");
    assert_eq!(
        message(&no_url("timed out")),
        "Failed waiting for Chrome DevTools URL: timed out"
    );
    assert_eq!(
        message(&child_taken()),
        "Chrome child ownership was already transferred"
    );
}

#[test]
fn a_process_is_stopped_step_by_step() {
    assert!(matches!(
        stop_child(Stopping::Asked, ChildReport::<u8>::Done),
        StopStep::Stopped
    ));
    assert!(matches!(
        stop_child(Stopping::Asked, ChildReport::<u8>::Running),
        StopStep::Kill
    ));
    assert!(matches!(
        stop_child(Stopping::Asked, ChildReport::Failed(1u8)),
        StopStep::GiveUp(1)
    ));
    assert!(matches!(
        stop_child(Stopping::Killed, ChildReport::<u8>::Done),
        StopStep::Wait
    ));
    assert!(matches!(
        stop_child(Stopping::Killed, ChildReport::Failed(2u8)),
        StopStep::AskAgain(2)
    ));
    assert!(matches!(
        stop_child(Stopping::AskedAgain(2u8), ChildReport::Running),
        StopStep::GiveUp(2)
    ));
    assert!(matches!(
        stop_child(Stopping::AskedAgain(2u8), ChildReport::Done),
        StopStep::Stopped
    ));
    assert!(matches!(
        stop_child(Stopping::AskedAgain(2u8), ChildReport::Failed(3)),
        StopStep::GiveUp(3)
    ));
    assert!(matches!(
        stop_child(Stopping::Waited, ChildReport::<u8>::Done),
        StopStep::Stopped
    ));
    assert!(matches!(
        stop_child(Stopping::Waited, ChildReport::Failed(4u8)),
        StopStep::GiveUp(4)
    ));
}
