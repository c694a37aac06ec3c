//! The protocol's transport: numbering commands, framing them, filtering the
//! detectable ones, and sorting what the browser sends back.
//!
//! Nothing here touches a socket. The caller hands over what it read, and
//! carries out the step that it gets back.

use vstd::prelude::*;

use crate::cdp::command::{
    distinct_params, holds_params, params_json, plain_params, Command, CommandView,
};
use crate::cdp::pending::Pending;
use crate::decimal::{decimal, digits};
use crate::error::{Error, ErrorView};
use crate::json::{
    add_json, add_number, add_text, check_json, depth_limit, distinct_keys, has_key, json_fault,
    json_value, member_text, member_value, member_views, number, number_text, object, object_text,
    parse_json, quote, quoted, shallow_text, sound, text_of_json, written_view, Json, JsonView,
};
use crate::text::{concat, concat3, opt_str_view, opt_view, same, starts_with};
use crate::unicode::utf8_text;

verus! {

/// Numbers above this one are for answers to proxy challenges. Commands are
/// numbered from one.
pub const AUTH_ID_BASE: u64 = 0x7fff_ffff_ffff_ffff;

/// Commands that pages can detect easily.
pub open spec fn blocked(method: Seq<char>) -> bool {
    ||| method == "Runtime.enable"@
    ||| method == "Runtime.disable"@
    ||| method == "HeapProfiler.enable"@
    ||| method == "HeapProfiler.disable"@
    ||| method == "Profiler.enable"@
    ||| method == "Profiler.disable"@
    ||| method == "Debugger.enable"@
    ||| method == "Debugger.disable"@
    ||| method == "Console.enable"@
    ||| method == "Console.disable"@
}

/// Commands that pages might detect.
pub open spec fn risky(method: Seq<char>) -> bool {
    ||| method == "Emulation.setUserAgentOverride"@
    ||| method == "Emulation.setTimezoneOverride"@
    ||| method == "Emulation.setDeviceMetricsOverride"@
    ||| method == "Page.setBypassCSP"@
}

/// Whether a command should be held back (pages can detect it easily).
pub fn is_blocked(method: &str) -> (r: bool)
    ensures
        r == blocked(method@),
{
    same(method, "Runtime.enable") || same(method, "Runtime.disable") || same(
        method,
        "HeapProfiler.enable",
    ) || same(method, "HeapProfiler.disable") || same(method, "Profiler.enable") || same(
        method,
        "Profiler.disable",
    ) || same(method, "Debugger.enable") || same(method, "Debugger.disable") || same(
        method,
        "Console.enable",
    ) || same(method, "Console.disable")
}

/// Whether a command is risky (pages might detect it).
pub fn is_risky(method: &str) -> (r: bool)
    ensures
        r == risky(method@),
{
    same(method, "Emulation.setUserAgentOverride") || same(
        method,
        "Emulation.setTimezoneOverride",
    ) || same(method, "Emulation.setDeviceMetricsOverride") || same(method, "Page.setBypassCSP")
}

/// A message from the browser.
#[derive(Debug)]
pub enum CdpMessage {
    /// The answer to a command.
    Response {
        /// The command's number.
        id: u64,
        /// The result as JSON text, or the error that the browser gave.
        result: Result<String, Error>,
    },
    /// Something that happened in the browser.
    Event {
        /// The event's name, such as `Network.requestWillBeSent`.
        method: String,
        /// The event's data as JSON text.
        params: String,
        /// The session that it happened in, if any.
        session_id: Option<String>,
    },
}

/// The value behind a `CdpMessage`.
pub enum CdpMessageView {
    Response { id: u64, result: Result<Seq<char>, ErrorView> },
    Event { method: Seq<char>, params: Seq<char>, session_id: Option<Seq<char>> },
}

/// The view of a command's result.
pub open spec fn result_view(r: Result<String, Error>) -> Result<Seq<char>, ErrorView> {
    match r {
        Ok(text) => Ok(text@),
        Err(e) => Err(e@),
    }
}

impl View for CdpMessage {
    type V = CdpMessageView;

    open spec fn view(&self) -> CdpMessageView {
        match self {
            CdpMessage::Response { id, result } => CdpMessageView::Response {
                id: *id,
                result: result_view(*result),
            },
            CdpMessage::Event { method, params, session_id } => CdpMessageView::Event {
                method: method@,
                params: params@,
                session_id: opt_view(*session_id),
            },
        }
    }
}

/// What the error member of a message holds.
pub struct ErrorFields {
    /// The code, where it is a whole number.
    pub code: Option<i64>,
    /// The message, where it is a string.
    pub message: Option<String>,
}

/// The parts of a message that decide what becomes of it.
pub struct Message {
    /// The number of the command that it answers.
    pub id: Option<u64>,
    /// The event's name.
    pub method: Option<String>,
    /// The error, where there is one.
    pub error: Option<ErrorFields>,
    /// The result as JSON text.
    pub result: Option<String>,
    /// The event's data as JSON text.
    pub params: Option<String>,
    /// The session.
    pub session_id: Option<String>,
    /// The request that the event's data names.
    pub request_id: Option<String>,
}

/// The value behind a `Message`.
pub struct MessageView {
    pub id: Option<u64>,
    pub method: Option<Seq<char>>,
    pub error: Option<(Option<i64>, Option<Seq<char>>)>,
    pub result: Option<Seq<char>>,
    pub params: Option<Seq<char>>,
    pub session_id: Option<Seq<char>>,
    pub request_id: Option<Seq<char>>,
}

impl View for Message {
    type V = MessageView;

    open spec fn view(&self) -> MessageView {
        MessageView {
            id: self.id,
            method: opt_view(self.method),
            error: match self.error {
                Some(e) => Some((e.code, opt_view(e.message))),
                None => None,
            },
            result: opt_view(self.result),
            params: opt_view(self.params),
            session_id: opt_view(self.session_id),
            request_id: opt_view(self.request_id),
        }
    }
}

/// The message that a JSON value stands for.
pub open spec fn message_of(json: JsonView) -> MessageView {
    MessageView {
        id: match member_value(json, "id"@) {
            Some(v) => v.as_u64(),
            None => None,
        },
        method: member_text(json, "method"@),
        error: match json.member("error"@) {
            Some(text) => match json_value(text) {
                Some(e) => Some(
                    (
                        match member_value(e, "code"@) {
                            Some(v) => v.as_i64(),
                            None => None,
                        },
                        member_text(e, "message"@),
                    ),
                ),
                None => Some((None, None)),
            },
            None => None,
        },
        result: json.member("result"@),
        params: json.member("params"@),
        session_id: member_text(json, "sessionId"@),
        request_id: match member_value(json, "params"@) {
            Some(v) => member_text(v, "requestId"@),
            None => None,
        },
    }
}

/// A copy of an optional text behind a reference.
fn cloned(text: Option<&String>) -> (r: Option<String>)
    ensures
        match text {
            Some(t) => opt_view(r) == Some(t@),
            None => r is None,
        },
{
    match text {
        Some(t) => Some(t.clone()),
        None => None,
    }
}

/// The parts of the message that `json` stands for.
pub fn read_message(json: &Json) -> (m: Message)
    ensures
        m@ == message_of(json@),
{
    let id = match json.member_json("id") {
        Some(v) => v.as_u64(),
        None => None,
    };
    let error = match json.member("error") {
        Some(text) => match parse_json(text.as_str()) {
            Ok(e) => {
                let code = match e.member_json("code") {
                    Some(v) => v.as_i64(),
                    None => None,
                };
                Some(ErrorFields { code, message: e.member_string("message") })
            },
            Err(_) => Some(ErrorFields { code: None, message: None }),
        },
        None => None,
    };
    let request_id = match json.member_json("params") {
        Some(v) => v.member_string("requestId"),
        None => None,
    };
    Message {
        id,
        method: json.member_string("method"),
        error,
        result: cloned(json.member("result")),
        params: cloned(json.member("params")),
        session_id: json.member_string("sessionId"),
        request_id,
    }
}

/// The text behind an option, or the given one.
pub open spec fn or_text(text: Option<Seq<char>>, other: Seq<char>) -> Seq<char> {
    match text {
        Some(t) => t,
        None => other,
    }
}

/// What the command that `m` answers came to.
pub open spec fn outcome_of(m: MessageView) -> Result<Seq<char>, ErrorView> {
    match m.error {
        Some((code, message)) => Err(
            ErrorView::Cdp {
                method: or_text(m.method, "unknown"@),
                code: match code {
                    Some(c) => c,
                    None => -1i64,
                },
                message: or_text(message, "unknown"@),
            },
        ),
        None => Ok(or_text(m.result, "{}"@)),
    }
}

fn text_or(text: Option<String>, other: &str) -> (r: String)
    ensures
        r@ == or_text(opt_view(text), other@),
{
    match text {
        Some(t) => t,
        None => other.to_string(),
    }
}

/// What the command that `m` answers came to.
fn outcome(m: Message) -> (r: Result<String, Error>)
    ensures
        result_view(r) == outcome_of(m@),
{
    match m.error {
        Some(e) => {
            let method = text_or(m.method, "unknown");
            let code: i64 = match e.code {
                Some(c) => c,
                None => -1,
            };
            let message = text_or(e.message, "unknown");
            Err(Error::cdp(method.as_str(), code, message.as_str()))
        },
        None => Ok(text_or(m.result, "{}")),
    }
}

/// The JSON value of a command.
pub open spec fn frame_json(
    id: u64,
    session_id: Option<Seq<char>>,
    method: Seq<char>,
    params: Seq<char>,
) -> JsonView {
    let head = seq![("id"@, number_text(id)), ("method"@, quoted(method)), ("params"@, params)];
    JsonView::Object(
        match session_id {
            Some(sid) => head.push(("sessionId"@, quoted(sid))),
            None => head,
        },
    )
}

/// The text of a command around data that stands in it as it was given.
pub open spec fn verbatim_frame(
    id: u64,
    session_id: Option<Seq<char>>,
    method: Seq<char>,
    params: Seq<char>,
) -> Seq<char> {
    "{\"id\":"@ + number_text(id) + ",\"method\":"@ + quoted(method) + ",\"params\":"@ + params + (
    match session_id {
        Some(sid) => ",\"sessionId\":"@ + quoted(sid),
        None => Seq::empty(),
    }) + "}"@
}

/// The text of a command, or what is wrong with its data. Data that is nested too
/// deep to be read, but is JSON, stands in the text as it was given.
pub open spec fn framed(
    id: u64,
    session_id: Option<Seq<char>>,
    method: Seq<char>,
    params: Seq<char>,
) -> Result<Seq<char>, Seq<char>> {
    match text_of_json(frame_json(id, session_id, method, params)) {
        Ok(text) => Ok(text),
        Err(_) => match json_fault(params) {
            None => Ok(verbatim_frame(id, session_id, method, params)),
            Some(fault) => Err(fault),
        },
    }
}

/// `params` is JSON, however deep.
pub open spec fn sendable(params: Seq<char>) -> bool {
    json_value(params) is Some || json_fault(params) is None
}

/// `params` is JSON, nested a few levels deep.
pub open spec fn readable(params: Seq<char>) -> bool {
    exists|depth: nat| depth < depth_limit() && #[trigger] shallow_text(params, depth)
}

/// Where the data can be read, and `text` reads back as JSON, it holds the command's
/// number, method and session. It does read back, and holds the same data, where
/// the data is nested a few levels deep.
pub open spec fn carries(
    text: Seq<char>,
    id: u64,
    session_id: Option<Seq<char>>,
    method: Seq<char>,
    params: Seq<char>,
) -> bool {
    &&& json_value(params) is Some ==> (json_value(text) matches Some(back) ==> {
        &&& message_of(back).id == Some(id)
        &&& message_of(back).method == Some(method)
        &&& message_of(back).session_id == session_id
        &&& readable(params) ==> member_value(back, "params"@) == json_value(params)
    })
    &&& readable(params) ==> json_value(text) is Some
}

/// The keys of a command are distinct, and one without a session names none.
pub proof fn lemma_frame_keys(
    id: u64,
    session_id: Option<Seq<char>>,
    method: Seq<char>,
    params: Seq<char>,
)
    ensures
        distinct_keys(frame_json(id, session_id, method, params)->Object_0),
        session_id is None ==> !has_key(
            frame_json(id, session_id, method, params)->Object_0,
            "sessionId"@,
        ),
{
    reveal_strlit("id");
    reveal_strlit("method");
    reveal_strlit("params");
    reveal_strlit("sessionId");
    assert("id"@.len() == 2);
    assert("method"@.len() == 6);
    assert("params"@.len() == 6);
    assert("sessionId"@.len() == 9);
    assert("method"@[0] != "params"@[0]);
}

/// The text of a command.
pub fn frame(id: u64, session_id: Option<&str>, method: &str, params: &str) -> (r: Result<
    String,
    String,
>)
    ensures
        written_view(r) == framed(id, opt_str_view(session_id), method@, params@),
        r is Ok <==> sendable(params@),
        r matches Ok(text) ==> carries(text@, id, opt_str_view(session_id), method@, params@),
        forall|depth: nat|
            depth < depth_limit() && #[trigger] shallow_text(params@, depth) ==> (r matches Ok(text)
                && shallow_text(text@, depth + 1)),
{
    let ghost all = frame_json(id, opt_str_view(session_id), method@, params@)->Object_0;
    let mut members: Vec<(String, String)> = Vec::new();
    add_number(&mut members, "id", id);
    add_text(&mut members, "method", method);
    add_json(&mut members, "params", params.to_string());
    match session_id {
        Some(sid) => add_text(&mut members, "sessionId", sid),
        None => {},
    }
    assert(member_views(members@) =~= all);
    let r = object(members);
    proof {
        lemma_frame_keys(id, opt_str_view(session_id), method@, params@);
        assert(all[0] == ("id"@, number_text(id)));
        assert(all[1] == ("method"@, quoted(method@)));
        assert(all[2] == ("params"@, params@));
        if session_id is Some {
            assert(all[3] == ("sessionId"@, quoted(session_id->0@)));
        }
        assert forall|depth: nat|
            depth < depth_limit() && #[trigger] shallow_text(params@, depth) implies (r matches Ok(
            text,
        ) && shallow_text(text@, depth + 1)) by {
            assert(sound(all, depth));
        }
    }
    match r {
        Ok(text) => Ok(text),
        Err(_) => match check_json(params) {
            None => Ok(frame_verbatim(id, session_id, method, params)),
            Some(fault) => Err(fault),
        },
    }
}

fn frame_verbatim(id: u64, session_id: Option<&str>, method: &str, params: &str) -> (out: String)
    ensures
        out@ == verbatim_frame(id, opt_str_view(session_id), method@, params@),
{
    let mut out = concat3("{\"id\":", number(id).as_str(), ",\"method\":");
    out.append(quote(method).as_str());
    out.append(",\"params\":");
    out.append(params);
    match session_id {
        Some(sid) => {
            out.append(",\"sessionId\":");
            out.append(quote(sid).as_str());
        },
        None => {},
    }
    out.append("}");
    assert(out@ =~= verbatim_frame(id, opt_str_view(session_id), method@, params@));
    out
}

/// The data of an answer to a proxy challenge.
pub open spec fn credentials_text(
    request_id: Seq<char>,
    username: Seq<char>,
    password: Seq<char>,
) -> Seq<char> {
    object_text(
        seq![
            (
                "authChallengeResponse"@,
                object_text(
                    seq![
                        ("password"@, quoted(password)),
                        ("response"@, quoted("ProvideCredentials"@)),
                        ("username"@, quoted(username)),
                    ],
                ),
            ),
            ("requestId"@, quoted(request_id)),
        ],
    )
}

/// `value` is data that answers the given request with a user name and a password.
pub open spec fn holds_credentials(
    value: Option<JsonView>,
    request_id: Seq<char>,
    username: Seq<char>,
    password: Seq<char>,
) -> bool {
    &&& value matches Some(params)
    &&& member_text(params, "requestId"@) == Some(request_id)
    &&& member_value(params, "authChallengeResponse"@) matches Some(answer)
    &&& member_text(answer, "response"@) == Some("ProvideCredentials"@)
    &&& member_text(answer, "username"@) == Some(username)
    &&& member_text(answer, "password"@) == Some(password)
}

/// The data of an answer to a proxy challenge.
fn credentials(request_id: &str, username: &str, password: &str) -> (out: String)
    ensures
        out@ == credentials_text(request_id@, username@, password@),
        shallow_text(out@, 2),
        holds_credentials(json_value(out@), request_id@, username@, password@),
{
    proof {
        reveal_strlit("response");
        reveal_strlit("username");
        reveal_strlit("password");
        reveal_strlit("requestId");
        reveal_strlit("authChallengeResponse");
        assert("response"@[0] == 'r' && "username"@[0] == 'u' && "password"@[0] == 'p');
        assert("requestId"@[0] == 'r' && "authChallengeResponse"@[0] == 'a');
    }
    let mut answer: Vec<(String, String)> = Vec::new();
    assert(sound(member_views(answer@), 0));
    add_text(&mut answer, "password", password);
    add_text(&mut answer, "response", "ProvideCredentials");
    add_text(&mut answer, "username", username);
    assert(member_views(answer@) =~= seq![
        ("password"@, quoted(password@)),
        ("response"@, quoted("ProvideCredentials"@)),
        ("username"@, quoted(username@)),
    ]);
    let ghost inner = member_views(answer@);
    assert(inner[0].0 == "password"@ && inner[1].0 == "response"@ && inner[2].0 == "username"@);
    assert(distinct_keys(inner));
    let answer_text = match object(answer) {
        Ok(text) => text,
        Err(message) => message,
    };
    let mut members: Vec<(String, String)> = Vec::new();
    assert(sound(member_views(members@), 1));
    add_json(&mut members, "authChallengeResponse", answer_text);
    add_text(&mut members, "requestId", request_id);
    assert(member_views(members@) =~= seq![
        ("authChallengeResponse"@, answer_text@),
        ("requestId"@, quoted(request_id@)),
    ]);
    let ghost outer = member_views(members@);
    assert(outer[0] == ("authChallengeResponse"@, answer_text@) && outer[1].0 == "requestId"@);
    assert(distinct_keys(outer));
    assert(shallow_text(answer_text@, 1));
    match object(members) {
        Ok(text) => text,
        Err(message) => message,
    }
}

/// The text of an answer to a proxy challenge.
pub open spec fn auth_reply_text(
    id: u64,
    session_id: Option<Seq<char>>,
    request_id: Seq<char>,
    username: Seq<char>,
    password: Seq<char>,
) -> Seq<char> {
    framed(
        id,
        session_id,
        "Fetch.continueWithAuth"@,
        credentials_text(request_id, username, password),
    )->Ok_0
}

/// The text of an answer to a proxy challenge.
pub fn auth_reply(
    id: u64,
    session_id: Option<&str>,
    request_id: &str,
    username: &str,
    password: &str,
) -> (out: String)
    ensures
        out@ == auth_reply_text(
            id,
            opt_str_view(session_id),
            request_id@,
            username@,
            password@,
        ),
        shallow_text(out@, 3),
        json_value(credentials_text(request_id@, username@, password@)) is Some,
        carries(
            out@,
            id,
            opt_str_view(session_id),
            "Fetch.continueWithAuth"@,
            credentials_text(request_id@, username@, password@),
        ),
        json_value(out@) matches Some(back) && holds_credentials(
            member_value(back, "params"@),
            request_id@,
            username@,
            password@,
        ),
{
    let params = credentials(request_id, username, password);
    assert(shallow_text(params@, 2));
    match frame(id, session_id, "Fetch.continueWithAuth", params.as_str()) {
        Ok(text) => text,
        Err(message) => message,
    }
}

/// What the socket yielded.
pub enum Incoming {
    /// A text frame.
    Text(String),
    /// A binary frame.
    Binary(Vec<u8>),
    /// A ping with its payload.
    Ping(Vec<u8>),
    /// A pong.
    Pong,
    /// A frame that was not assembled.
    Raw,
    /// The server's goodbye.
    Close,
    /// Reading failed, with the failure's text.
    Failed(String),
    /// There is nothing more to read.
    Ended,
}

/// What is to be done about something read from the socket.
pub enum ReaderStep<T> {
    /// Nothing.
    Skip,
    /// Write a pong with this payload.
    Pong(Vec<u8>),
    /// Hand the result to whoever waits in the slot.
    Deliver {
        /// Where the sender waits.
        slot: T,
        /// What the command came to.
        result: Result<String, Error>,
    },
    /// Write this text.
    Reply(String),
    /// Hand the event to every subscriber.
    Publish(CdpMessage),
    /// Stop reading, for this reason.
    Stop(String),
}

/// The value behind a `ReaderStep`.
pub enum ReaderStepView<T> {
    Skip,
    Pong(Seq<u8>),
    Deliver { slot: T, result: Result<Seq<char>, ErrorView> },
    Reply(Seq<char>),
    Publish(CdpMessageView),
    Stop(Seq<char>),
}

impl<T> View for ReaderStep<T> {
    type V = ReaderStepView<T>;

    open spec fn view(&self) -> ReaderStepView<T> {
        match self {
            ReaderStep::Skip => ReaderStepView::Skip,
            ReaderStep::Pong(payload) => ReaderStepView::Pong(payload@),
            ReaderStep::Deliver { slot, result } => ReaderStepView::Deliver {
                slot: *slot,
                result: result_view(*result),
            },
            ReaderStep::Reply(text) => ReaderStepView::Reply(text@),
            ReaderStep::Publish(message) => ReaderStepView::Publish(message@),
            ReaderStep::Stop(reason) => ReaderStepView::Stop(reason@),
        }
    }
}

/// What is to be done to send a command.
pub enum Outgoing {
    /// Nothing: the command was held back, and this is its result.
    Answered(String),
    /// Nothing: the command cannot be sent.
    Refused(Error),
    /// Write the text and wait for the answer.
    Write {
        /// The command's number.
        id: u64,
        /// The text to write.
        data: String,
    },
}

/// The value behind an `Outgoing`.
pub enum OutgoingView {
    Answered(Seq<char>),
    Refused(ErrorView),
    Write { id: u64, data: Seq<char> },
}

impl View for Outgoing {
    type V = OutgoingView;

    open spec fn view(&self) -> OutgoingView {
        match self {
            Outgoing::Answered(text) => OutgoingView::Answered(text@),
            Outgoing::Refused(e) => OutgoingView::Refused(e@),
            Outgoing::Write { id, data } => OutgoingView::Write { id: *id, data: data@ },
        }
    }
}

/// The protocol's side of a connection: numbering, framing, and who waits for
/// which answer. `T` is where a sender waits.
pub struct Transport<T> {
    next_id: u64,
    auth_id: u64,
    pending: Pending<T>,
    filter_cdp: bool,
    timeout_secs: u64,
    proxy_auth: Option<(String, String)>,
    exited: bool,
}

/// The value behind a `Transport`.
pub struct TransportView<T> {
    /// The number of the next command.
    pub next_id: u64,
    /// The number of the last answer to a proxy challenge.
    pub auth_id: u64,
    /// Who waits for which answer.
    pub pending: Map<u64, T>,
    /// Whether detectable commands are held back.
    pub filter_cdp: bool,
    /// How many seconds a command may take.
    pub timeout_secs: u64,
    /// The user name and password for a proxy.
    pub proxy_auth: Option<(Seq<char>, Seq<char>)>,
    /// Whether reading has stopped.
    pub exited: bool,
}

/// The view of a user name and password.
pub open spec fn pair_view(pair: Option<(String, String)>) -> Option<(Seq<char>, Seq<char>)> {
    match pair {
        Some(p) => Some((p.0@, p.1@)),
        None => None,
    }
}

impl<T> View for Transport<T> {
    type V = TransportView<T>;

    closed spec fn view(&self) -> TransportView<T> {
        TransportView {
            next_id: self.next_id,
            auth_id: self.auth_id,
            pending: self.pending@,
            filter_cdp: self.filter_cdp,
            timeout_secs: self.timeout_secs,
            proxy_auth: pair_view(self.proxy_auth),
            exited: self.exited,
        }
    }
}

/// The number after `n`, around the end of the range.
pub open spec fn after(n: u64) -> u64 {
    if n == u64::MAX {
        0
    } else {
        (n + 1) as u64
    }
}

/// What sending a command does: the state that it leads to, and what is to be done.
pub open spec fn sending<T>(
    s: TransportView<T>,
    session_id: Option<Seq<char>>,
    method: Seq<char>,
    params: Seq<char>,
    slot: T,
) -> (TransportView<T>, OutgoingView) {
    match unframed(s, method) {
        Some(out) => (s, out),
        None => enqueuing(s, framed(s.next_id, session_id, method, params), slot),
    }
}

/// What becomes of a command that is not even framed: one that is held back, or that
/// comes when the connection is gone.
pub open spec fn unframed<T>(s: TransportView<T>, method: Seq<char>) -> Option<OutgoingView> {
    if s.filter_cdp && blocked(method) {
        Some(OutgoingView::Answered("{}"@))
    } else if s.exited {
        Some(OutgoingView::Refused(ErrorView::Transport(reader_gone())))
    } else {
        None
    }
}

/// What a command that was framed, or could not be, does: it uses up a number, and
/// its sender waits where there is something to write.
pub open spec fn enqueuing<T>(
    s: TransportView<T>,
    framed: Result<Seq<char>, Seq<char>>,
    slot: T,
) -> (TransportView<T>, OutgoingView) {
    let numbered = TransportView { next_id: after(s.next_id), ..s };
    match framed {
        Ok(data) => (
            TransportView { pending: s.pending.insert(s.next_id, slot), ..numbered },
            OutgoingView::Write { id: s.next_id, data },
        ),
        Err(message) => (numbered, OutgoingView::Refused(ErrorView::Json(message))),
    }
}

/// What sending a command does, where its data is still to be turned into JSON.
pub open spec fn commanding<T>(s: TransportView<T>, c: CommandView, slot: T) -> (
    TransportView<T>,
    OutgoingView,
) {
    match params_json(c.params) {
        Ok(params) => sending(s, c.session_id, c.method, params, slot),
        Err(message) => match unframed(s, c.method) {
            Some(out) => (s, out),
            None => enqueuing(s, Err(message), slot),
        },
    }
}

/// What is said of a command on a connection that is gone.
pub open spec fn reader_gone() -> Seq<char> {
    "CDP reader task has exited — WebSocket connection is dead"@
}

/// What a message does: the state that it leads to, and what is to be done.
pub open spec fn dispatching<T>(s: TransportView<T>, m: MessageView) -> (
    TransportView<T>,
    ReaderStepView<T>,
) {
    match (m.id, m.method) {
        (Some(id), _) => if s.pending.contains_key(id) {
            (
                TransportView { pending: s.pending.remove(id), ..s },
                ReaderStepView::Deliver { slot: s.pending[id], result: outcome_of(m) },
            )
        } else {
            (s, ReaderStepView::Skip)
        },
        (None, Some(method)) => match (s.proxy_auth, m.request_id) {
            (Some((username, password)), Some(request_id)) if method == "Fetch.authRequired"@ => {
                let id = (s.auth_id + 1) as u64;
                (
                    TransportView { auth_id: id, ..s },
                    ReaderStepView::Reply(
                        auth_reply_text(id, m.session_id, request_id, username, password),
                    ),
                )
            },
            _ => (
                s,
                ReaderStepView::Publish(
                    CdpMessageView::Event {
                        method,
                        params: or_text(m.params, "{}"@),
                        session_id: m.session_id,
                    },
                ),
            ),
        },
        (None, None) => (s, ReaderStepView::Skip),
    }
}

/// `text` is a command with the last number for such answers that answers the
/// challenge `m`, in its session, with the user name and password of `s`.
pub open spec fn answers_challenge<T>(
    text: Seq<char>,
    s: TransportView<T>,
    m: MessageView,
) -> bool {
    &&& json_value(text) matches Some(back)
    &&& message_of(back).id == Some(s.auth_id)
    &&& message_of(back).method == Some("Fetch.continueWithAuth"@)
    &&& message_of(back).session_id == m.session_id
    &&& s.proxy_auth matches Some((username, password))
    &&& m.request_id matches Some(request_id)
    &&& holds_credentials(member_value(back, "params"@), request_id, username, password)
}

/// What a text from the browser does.
pub open spec fn reading_text<T>(s: TransportView<T>, text: Seq<char>) -> (
    TransportView<T>,
    ReaderStepView<T>,
) {
    match json_value(text) {
        Some(json) => dispatching(s, message_of(json)),
        None => (s, ReaderStepView::Skip),
    }
}

/// The text of a frame, where it has one.
pub open spec fn read_text(incoming: Incoming) -> Option<Seq<char>> {
    match incoming {
        Incoming::Text(text) => Some(text@),
        Incoming::Binary(bytes) => if vstd::utf8::valid_utf8(bytes@) {
            Some(vstd::utf8::decode_utf8(bytes@))
        } else {
            None
        },
        _ => None,
    }
}

/// What something read from the socket does.
pub open spec fn reading<T>(s: TransportView<T>, incoming: Incoming) -> (
    TransportView<T>,
    ReaderStepView<T>,
) {
    match incoming {
        Incoming::Text(_) | Incoming::Binary(_) => match read_text(incoming) {
            Some(text) => reading_text(s, text),
            None => (s, ReaderStepView::Skip),
        },
        Incoming::Ping(payload) => (s, ReaderStepView::Pong(payload@)),
        Incoming::Pong | Incoming::Raw => (s, ReaderStepView::Skip),
        Incoming::Close => (s, ReaderStepView::Stop("WebSocket closed by server"@)),
        Incoming::Failed(cause) => (
            s,
            ReaderStepView::Stop("WebSocket read error: "@ + cause@),
        ),
        Incoming::Ended => (s, ReaderStepView::Stop("WebSocket stream ended"@)),
    }
}

/// The end of a command that was waiting when the connection went.
pub struct Failure<T> {
    /// The command's number.
    pub id: u64,
    /// Where its sender waits.
    pub slot: T,
    /// What the sender is told.
    pub error: Error,
}

/// Each of `pending`, and nobody else, is told once that `context`.
pub open spec fn all_told<T>(
    failures: Seq<Failure<T>>,
    pending: Map<u64, T>,
    context: Seq<char>,
) -> bool {
    &&& forall|i: int| #![trigger failures[i]]
        0 <= i < failures.len() ==> {
            &&& pending.contains_key(failures[i].id)
            &&& failures[i].slot == pending[failures[i].id]
            &&& failures[i].error@ == ErrorView::Transport(context)
        }
    &&& forall|i: int, j: int|
        0 <= i < j < failures.len() ==> #[trigger] failures[i].id != #[trigger] failures[j].id
    &&& forall|id: u64| #[trigger]
        pending.contains_key(id) ==> exists|i: int|
            0 <= i < failures.len() && (#[trigger] failures[i]).id == id
}

/// The state of a transport before its first command.
pub open spec fn fresh<T>(
    proxy_auth: Option<(Seq<char>, Seq<char>)>,
    timeout_secs: u64,
    filter_cdp: bool,
) -> TransportView<T> {
    TransportView {
        next_id: 1,
        auth_id: AUTH_ID_BASE,
        pending: Map::empty(),
        filter_cdp,
        timeout_secs,
        proxy_auth,
        exited: false,
    }
}

/// Where `ws_url` is a plain WebSocket URL, a transport in state `s`; otherwise
/// an error that names the URL.
pub open spec fn connected<T>(
    r: Result<Transport<T>, Error>,
    ws_url: Seq<char>,
    s: TransportView<T>,
) -> bool {
    if "ws://"@.is_prefix_of(ws_url) {
        r matches Ok(t) && t@ == s
    } else {
        r matches Err(e) && e@ == ErrorView::Transport(
            "Invalid WebSocket URL (expected ws://...): "@ + ws_url,
        )
    }
}

/// Whether `ws_url` is a plain WebSocket URL.
pub fn check_ws_url(ws_url: &str) -> (r: Result<(), Error>)
    ensures
        match r {
            Ok(_) => "ws://"@.is_prefix_of(ws_url@),
            Err(e) => !"ws://"@.is_prefix_of(ws_url@) && e@ == ErrorView::Transport(
                "Invalid WebSocket URL (expected ws://...): "@ + ws_url@,
            ),
        },
{
    if starts_with(ws_url, "ws://") {
        Ok(())
    } else {
        Err(Error::Transport(concat("Invalid WebSocket URL (expected ws://...): ", ws_url)))
    }
}

/// The state once reading has stopped.
pub open spec fn ended<T>(s: TransportView<T>) -> TransportView<T> {
    TransportView { pending: Map::empty(), exited: true, ..s }
}

impl<T> Transport<T> {
    fn build(
        proxy_auth: Option<(String, String)>,
        timeout_secs: u64,
        filter_cdp: bool,
    ) -> (t: Transport<T>)
        ensures
            t@ == fresh::<T>(pair_view(proxy_auth), timeout_secs, filter_cdp),
    {
        Transport {
            next_id: 1,
            auth_id: AUTH_ID_BASE,
            pending: Pending::new(),
            filter_cdp,
            timeout_secs,
            proxy_auth,
            exited: false,
        }
    }

    /// A transport for a browser that was started for it.
    pub fn new(ws_url: &str) -> (r: Result<Transport<T>, Error>)
        ensures
            connected(r, ws_url@, fresh(None, 30, true)),
    {
        Transport::new_with_options(ws_url, None, 30)
    }

    /// A transport for a browser that was started for it, with a proxy's user
    /// name and password and a time limit for commands.
    pub fn new_with_options(
        ws_url: &str,
        proxy_auth: Option<(String, String)>,
        cdp_timeout_secs: u64,
    ) -> (r: Result<Transport<T>, Error>)
        ensures
            connected(r, ws_url@, fresh(pair_view(proxy_auth), cdp_timeout_secs, true)),
    {
        check_ws_url(ws_url)?;
        Ok(Transport::build(proxy_auth, cdp_timeout_secs, true))
    }

    /// A transport for a browser that is already running.
    pub fn connect(ws_url: &str, cdp_timeout_secs: u64) -> (r: Result<Transport<T>, Error>)
        ensures
            connected(r, ws_url@, fresh(None, cdp_timeout_secs, true)),
    {
        Transport::connect_with_options(ws_url, cdp_timeout_secs, true)
    }

    /// A transport for a browser that is already running. Detectable commands
    /// are let through where `filter_cdp` is false.
    pub fn connect_with_options(ws_url: &str, cdp_timeout_secs: u64, filter_cdp: bool) -> (r: Result<
        Transport<T>,
        Error,
    >)
        ensures
            connected(r, ws_url@, fresh(None, cdp_timeout_secs, filter_cdp)),
    {
        check_ws_url(ws_url)?;
        Ok(Transport::build(None, cdp_timeout_secs, filter_cdp))
    }

    /// Answers proxy challenges with the given user name and password from now on, or
    /// leaves them to the subscribers.
    pub fn set_proxy_auth(&mut self, proxy_auth: Option<(String, String)>)
        ensures
            final(self)@ == (TransportView { proxy_auth: pair_view(proxy_auth), ..old(self)@ }),
    {
        self.proxy_auth = proxy_auth;
    }

    /// Whether another proxy challenge can be numbered.
    pub fn can_answer_challenge(&self) -> (r: bool)
        ensures
            r == (self@.auth_id < u64::MAX),
    {
        self.auth_id < u64::MAX
    }

    /// Numbers and frames a command, and lets its sender wait in `slot`; or says
    /// why it is not sent. `params` is the command's data as JSON text.
    pub fn send(&mut self, method: &str, params: &str, slot: T) -> (r: Outgoing)
        ensures
            (final(self)@, r@) == sending(old(self)@, None, method@, params@, slot),
            sendable(params@) && !old(self)@.exited && !(old(self)@.filter_cdp && blocked(
                method@,
            )) ==> r is Write,
            r matches Outgoing::Write { id, data } ==> carries(data@, id, None, method@, params@),
    {
        self.send_impl(None, method, params, slot)
    }

    /// Like `send`, for the session with the given id.
    pub fn send_to_session(&mut self, session_id: &str, method: &str, params: &str, slot: T) -> (r:
        Outgoing)
        ensures
            (final(self)@, r@) == sending(
                old(self)@,
                Some(session_id@),
                method@,
                params@,
                slot,
            ),
            sendable(params@) && !old(self)@.exited && !(old(self)@.filter_cdp && blocked(
                method@,
            )) ==> r is Write,
            r matches Outgoing::Write { id, data } ==> carries(
                data@,
                id,
                Some(session_id@),
                method@,
                params@,
            ),
    {
        self.send_impl(Some(session_id), method, params, slot)
    }

    fn send_impl(&mut self, session_id: Option<&str>, method: &str, params: &str, slot: T) -> (r:
        Outgoing)
        ensures
            (final(self)@, r@) == sending(
                old(self)@,
                opt_str_view(session_id),
                method@,
                params@,
                slot,
            ),
            sendable(params@) && !old(self)@.exited && !(old(self)@.filter_cdp && blocked(
                method@,
            )) ==> r is Write,
            r matches Outgoing::Write { id, data } ==> carries(
                data@,
                id,
                opt_str_view(session_id),
                method@,
                params@,
            ),
    {
        match self.held_back(method) {
            Some(out) => out,
            None => {
                let text = frame(self.next_id, session_id, method, params);
                self.enqueue(text, slot)
            },
        }
    }

    /// What becomes of a command that is not even framed.
    fn held_back(&self, method: &str) -> (r: Option<Outgoing>)
        ensures
            match r {
                Some(out) => unframed(self@, method@) == Some(out@),
                None => unframed(self@, method@) is None,
            },
    {
        if self.filter_cdp && is_blocked(method) {
            return Some(Outgoing::Answered("{}".to_string()));
        }
        if self.exited {
            return Some(
                Outgoing::Refused(
                    Error::transport("CDP reader task has exited — WebSocket connection is dead"),
                ),
            );
        }
        None
    }

    /// Uses up a number for a command that was framed with it, or could not be.
    pub fn enqueue(&mut self, framed: Result<String, String>, slot: T) -> (r: Outgoing)
        ensures
            (final(self)@, r@) == enqueuing(old(self)@, written_view(framed), slot),
    {
        let id = self.next_id;
        self.next_id = if id == u64::MAX {
            0
        } else {
            id + 1
        };
        match framed {
            Ok(data) => {
                self.pending.insert(id, slot);
                Outgoing::Write { id, data }
            },
            Err(message) => Outgoing::Refused(Error::Json(message)),
        }
    }

    /// Like `send`, for a command that is not JSON yet.
    pub fn send_command(&mut self, c: &Command, slot: T) -> (r: Outgoing)
        ensures
            (final(self)@, r@) == commanding(old(self)@, c@, slot),
            plain_params(c@.params) && !old(self)@.exited && !(old(self)@.filter_cdp && blocked(
                c@.method,
            )) ==> r is Write,
            r matches Outgoing::Write { id, data } ==> carries(
                data@,
                id,
                c@.session_id,
                c@.method,
                params_json(c@.params)->Ok_0,
            ),
            plain_params(c@.params) && distinct_params(c@.params) ==> (r matches Outgoing::Write {
                data,
                ..
            } ==> (json_value(data@) matches Some(back) && holds_params(
                member_value(back, "params"@),
                c@.params,
            ))),
    {
        let session: Option<&str> = match &c.session_id {
            Some(sid) => Some(sid.as_str()),
            None => None,
        };
        match c.params_text() {
            Ok(params) => {
                proof {
                    if plain_params(c@.params) {
                        assert(shallow_text(params@, 3));
                    }
                }
                self.send_impl(session, c.method.as_str(), params.as_str(), slot)
            },
            Err(message) => match self.held_back(c.method.as_str()) {
                Some(out) => out,
                None => self.enqueue(Err(message), slot),
            },
        }
    }

    /// What is to be done about a message.
    pub fn dispatch(&mut self, m: Message) -> (step: ReaderStep<T>)
        requires
            old(self)@.auth_id < u64::MAX,
        ensures
            (final(self)@, step@) == dispatching(old(self)@, m@),
            step matches ReaderStep::Reply(text) ==> answers_challenge(
                text@,
                final(self)@,
                m@,
            ),
    {
        if let Some(id) = m.id {
            return match self.pending.remove(id) {
                Some(slot) => ReaderStep::Deliver { slot, result: outcome(m) },
                None => {
                    assert(self@.pending =~= old(self)@.pending);
                    ReaderStep::Skip
                },
            };
        }
        match m.method {
            Some(method) => {
                if same(method.as_str(), "Fetch.authRequired") {
                    if let Some(pair) = &self.proxy_auth {
                        if let Some(request_id) = &m.request_id {
                            let id = self.auth_id + 1;
                            let session: Option<&str> = match &m.session_id {
                                Some(sid) => Some(sid.as_str()),
                                None => None,
                            };
                            let reply = auth_reply(
                                id,
                                session,
                                request_id.as_str(),
                                pair.0.as_str(),
                                pair.1.as_str(),
                            );
                            self.auth_id = id;
                            return ReaderStep::Reply(reply);
                        }
                    }
                }
                ReaderStep::Publish(
                    CdpMessage::Event {
                        method,
                        params: text_or(m.params, "{}"),
                        session_id: m.session_id,
                    },
                )
            },
            None => ReaderStep::Skip,
        }
    }

    fn receive_text(&mut self, text: &str) -> (step: ReaderStep<T>)
        requires
            old(self)@.auth_id < u64::MAX,
        ensures
            (final(self)@, step@) == reading_text(old(self)@, text@),
            step matches ReaderStep::Reply(reply) ==> (json_value(text@) matches Some(json)
                && answers_challenge(reply@, final(self)@, message_of(json))),
    {
        match parse_json(text) {
            Ok(json) => self.dispatch(read_message(&json)),
            Err(_) => ReaderStep::Skip,
        }
    }

    /// What is to be done about something read from the socket.
    pub fn receive(&mut self, incoming: Incoming) -> (step: ReaderStep<T>)
        requires
            old(self)@.auth_id < u64::MAX,
        ensures
            (final(self)@, step@) == reading(old(self)@, incoming),
            step matches ReaderStep::Reply(reply) ==> (read_text(incoming) matches Some(text) && (
            json_value(text) matches Some(json) && answers_challenge(
                reply@,
                final(self)@,
                message_of(json),
            ))),
    {
        match incoming {
            Incoming::Text(text) => self.receive_text(text.as_str()),
            Incoming::Binary(bytes) => match utf8_text(bytes) {
                Some(text) => self.receive_text(text.as_str()),
                None => ReaderStep::Skip,
            },
            Incoming::Ping(payload) => ReaderStep::Pong(payload),
            Incoming::Pong | Incoming::Raw => ReaderStep::Skip,
            Incoming::Close => ReaderStep::Stop("WebSocket closed by server".to_string()),
            Incoming::Failed(cause) => ReaderStep::Stop(
                concat("WebSocket read error: ", cause.as_str()),
            ),
            Incoming::Ended => ReaderStep::Stop("WebSocket stream ended".to_string()),
        }
    }

    /// Tells everybody who waits that `context`.
    pub fn fail_pending(&mut self, context: &str) -> (failures: Vec<Failure<T>>)
        ensures
            final(self)@ == (TransportView {
                pending: Map::<u64, T>::empty(),
                ..old(self)@
            }),
            all_told(failures@, old(self)@.pending, context@),
    {
        let ghost before = self@.pending;
        let mut failures: Vec<Failure<T>> = Vec::new();
        loop
            invariant_except_break
                self@ == (TransportView { pending: self@.pending, ..old(self)@ }),
                before == old(self)@.pending,
                self@.pending.submap_of(before),
                forall|i: int| #![trigger failures@[i]]
                    0 <= i < failures@.len() ==> {
                        &&& before.contains_key(failures@[i].id)
                        &&& !self@.pending.contains_key(failures@[i].id)
                        &&& failures@[i].slot == before[failures@[i].id]
                        &&& failures@[i].error@ == ErrorView::Transport(context@)
                    },
                forall|i: int, j: int|
                    0 <= i < j < failures@.len() ==> #[trigger] failures@[i].id
                        != #[trigger] failures@[j].id,
                forall|id: u64| #[trigger]
                    before.contains_key(id) && !self@.pending.contains_key(id) ==> exists|i: int|
                        0 <= i < failures@.len() && (#[trigger] failures@[i]).id == id,
            ensures
                self@ == (TransportView { pending: Map::<u64, T>::empty(), ..old(self)@ }),
                all_told(failures@, before, context@),
                before == old(self)@.pending,
            decreases self.pending.size(),
        {
            let ghost told = failures@;
            let ghost left = self@.pending;
            match self.pending.take() {
                Some(entry) => {
                    let failure = Failure {
                        id: entry.0,
                        slot: entry.1,
                        error: Error::transport(context),
                    };
                    failures.push(failure);
                    proof {
                        assert forall|id: u64| #[trigger]
                            before.contains_key(id) && !self@.pending.contains_key(
                                id,
                            ) implies exists|i: int|
                            0 <= i < failures@.len() && (#[trigger] failures@[i]).id == id by {
                            if id == entry.0 {
                                assert(failures@[told.len() as int].id == id);
                            } else {
                                assert(!left.contains_key(id));
                                let i = choose|i: int|
                                    0 <= i < told.len() && (#[trigger] told[i]).id == id;
                                assert(failures@[i].id == id);
                            }
                        }
                    }
                },
                None => {
                    break;
                },
            }
        }
        failures
    }

    fn forget(&mut self, id: u64)
        ensures
            final(self)@ == (TransportView {
                pending: old(self)@.pending.remove(id),
                ..old(self)@
            }),
    {
        let _slot = self.pending.remove(id);
    }

    /// The error of a command whose text could not be written. Nobody waits for
    /// its answer any more.
    pub fn write_failed(&mut self, id: u64, cause: &str) -> (e: Error)
        ensures
            final(self)@ == (TransportView {
                pending: old(self)@.pending.remove(id),
                ..old(self)@
            }),
            e@ == ErrorView::Transport("WebSocket write failed: "@ + cause@),
    {
        self.forget(id);
        Error::Transport(concat("WebSocket write failed: ", cause))
    }

    /// The error of a command whose answer did not come in time. Nobody waits
    /// for it any more.
    pub fn timed_out(&mut self, id: u64, method: &str, elapsed: &str) -> (e: Error)
        ensures
            final(self)@ == (TransportView {
                pending: old(self)@.pending.remove(id),
                ..old(self)@
            }),
            e@ == ErrorView::Transport(
                "CDP command '"@ + method@ + "' timed out after "@ + digits(
                    old(self)@.timeout_secs as nat,
                ) + "s (id="@ + digits(id as nat) + "): "@ + elapsed@,
            ),
    {
        self.forget(id);
        let mut message = concat3("CDP command '", method, "' timed out after ");
        message.append(decimal(self.timeout_secs).as_str());
        message.append("s (id=");
        message.append(decimal(id).as_str());
        message.append("): ");
        message.append(elapsed);
        Error::Transport(message)
    }

    /// Stops reading, for the given reason, and tells everybody who waits.
    pub fn exit(&mut self, reason: &str) -> (failures: Vec<Failure<T>>)
        ensures
            final(self)@ == ended(old(self)@),
            all_told(
                failures@,
                old(self)@.pending,
                "WebSocket connection lost: "@ + reason@,
            ),
    {
        self.exited = true;
        let context = concat("WebSocket connection lost: ", reason);
        self.fail_pending(context.as_str())
    }

    /// Closes the connection, and tells everybody who waits.
    pub fn close(&mut self) -> (failures: Vec<Failure<T>>)
        ensures
            final(self)@ == ended(old(self)@),
            all_told(failures@, old(self)@.pending, "CDP transport closed"@),
    {
        self.exited = true;
        self.fail_pending("CDP transport closed")
    }

    /// Gives the connection up, and tells everybody who waits.
    pub fn abandon(&mut self) -> (failures: Vec<Failure<T>>)
        ensures
            final(self)@ == ended(old(self)@),
            all_told(failures@, old(self)@.pending, "CDP transport dropped"@),
    {
        self.exited = true;
        self.fail_pending("CDP transport dropped")
    }
}

/// The reason to stop reading where a pong could not be written.
pub fn pong_failed(cause: &str) -> (reason: String)
    ensures
        reason@ == "WebSocket pong write failed: "@ + cause@,
{
    concat("WebSocket pong write failed: ", cause)
}

/// The reason to stop reading where an answer to a proxy challenge could not be
/// written.
pub fn reply_failed(cause: &str) -> (reason: String)
    ensures
        reason@ == "Proxy auth write failed: "@ + cause@,
{
    concat("Proxy auth write failed: ", cause)
}

/// The error of a command whose slot went away without an answer.
pub fn channel_closed(cause: &str) -> (e: Error)
    ensures
        e@ == ErrorView::Transport("Response channel closed: "@ + cause@),
{
    Error::Transport(concat("Response channel closed: ", cause))
}

/// The error of a connection that could not be made.
pub fn connect_failed(cause: &str) -> (e: Error)
    ensures
        e@ == ErrorView::Transport("WebSocket connect failed: "@ + cause@),
{
    Error::Transport(concat("WebSocket connect failed: ", cause))
}

/// A held-back command changes nothing and is answered with an empty object.
pub proof fn law_blocked_never_sent<T>(
    s: TransportView<T>,
    session_id: Option<Seq<char>>,
    method: Seq<char>,
    params: Seq<char>,
    slot: T,
)
    requires
        s.filter_cdp,
        blocked(method),
    ensures
        sending(s, session_id, method, params, slot) == (s, OutgoingView::Answered("{}"@)),
{
}

/// Without filtering no command is held back.
pub proof fn law_unfiltered_never_held_back<T>(
    s: TransportView<T>,
    session_id: Option<Seq<char>>,
    method: Seq<char>,
    params: Seq<char>,
    slot: T,
)
    requires
        !s.filter_cdp,
    ensures
        !(sending(s, session_id, method, params, slot).1 is Answered),
{
}

/// The answer to a command that was sent goes to its sender, whatever else was
/// waiting, and leaves the others waiting.
pub proof fn law_answer_reaches_sender<T>(
    s: TransportView<T>,
    session_id: Option<Seq<char>>,
    method: Seq<char>,
    params: Seq<char>,
    slot: T,
    m: MessageView,
)
    requires
        sending(s, session_id, method, params, slot).1 is Write,
        m.id == Some(sending(s, session_id, method, params, slot).1->id),
    ensures
        ({
            let sent = sending(s, session_id, method, params, slot).0;
            let (heard, step) = dispatching(sent, m);
            &&& step == (ReaderStepView::Deliver { slot, result: outcome_of(m) })
            &&& heard.pending == s.pending.remove(m.id->0)
        }),
{
    let sent = sending(s, session_id, method, params, slot).0;
    assert(sent.pending.remove(m.id->0) =~= s.pending.remove(m.id->0));
}

/// A command is answered once: the same answer again goes to nobody.
pub proof fn law_answered_once<T>(s: TransportView<T>, m: MessageView)
    requires
        m.id is Some,
    ensures
        dispatching(dispatching(s, m).0, m) == (dispatching(s, m).0, ReaderStepView::<T>::Skip),
{
}

/// A message changes what waits for at most the command that it answers.
pub proof fn law_answer_leaves_others<T>(s: TransportView<T>, m: MessageView, id: u64)
    requires
        m.id != Some(id),
    ensures
        dispatching(s, m).0.pending.contains_key(id) == s.pending.contains_key(id),
        s.pending.contains_key(id) ==> dispatching(s, m).0.pending[id] == s.pending[id],
{
}

/// Commands are numbered in the lower half of the numbers, answers to proxy
/// challenges in the upper one, and whoever waits has a number already given out.
pub open spec fn numbered_apart<T>(s: TransportView<T>) -> bool {
    &&& s.next_id <= AUTH_ID_BASE <= s.auth_id
    &&& forall|id: u64| #[trigger] s.pending.contains_key(id) ==> id < s.next_id
}

/// A transport that numbers apart goes on to do so when it sent or read something,
/// until the commands' half of the numbers is used up. A new command's number
/// is then neither that of an answer to a challenge nor one that somebody waits
/// under.
pub proof fn law_numbered_apart<T>(
    s: TransportView<T>,
    session_id: Option<Seq<char>>,
    method: Seq<char>,
    params: Seq<char>,
    slot: T,
    m: MessageView,
)
    requires
        numbered_apart(s),
        s.next_id < AUTH_ID_BASE,
        s.auth_id < u64::MAX,
    ensures
        numbered_apart(sending(s, session_id, method, params, slot).0),
        numbered_apart(dispatching(s, m).0),
        numbered_apart(ended(s)),
        sending(s, session_id, method, params, slot).1 matches OutgoingView::Write { id, .. } ==> id
            < AUTH_ID_BASE && !s.pending.contains_key(id),
        dispatching(s, m).1 is Reply ==> dispatching(s, m).0.auth_id > AUTH_ID_BASE,
{
}

/// A new transport numbers apart.
pub proof fn law_fresh_numbered_apart<T>(
    proxy_auth: Option<(Seq<char>, Seq<char>)>,
    timeout_secs: u64,
    filter_cdp: bool,
)
    ensures
        numbered_apart(fresh::<T>(proxy_auth, timeout_secs, filter_cdp)),
{
}

/// A command that is not written leaves nobody waiting for it.
pub proof fn law_nothing_waits_unwritten<T>(
    s: TransportView<T>,
    session_id: Option<Seq<char>>,
    method: Seq<char>,
    params: Seq<char>,
    slot: T,
)
    requires
        !(sending(s, session_id, method, params, slot).1 is Write),
    ensures
        sending(s, session_id, method, params, slot).0.pending == s.pending,
{
}

/// Where a command was written off, because writing failed or the answer took too
/// long, those who waited before still wait, and a late answer goes to nobody.
pub proof fn law_late_answer_goes_to_nobody<T>(
    s: TransportView<T>,
    session_id: Option<Seq<char>>,
    method: Seq<char>,
    params: Seq<char>,
    slot: T,
    m: MessageView,
)
    requires
        sending(s, session_id, method, params, slot).1 is Write,
        !s.pending.contains_key(s.next_id),
        m.id == Some(s.next_id),
    ensures
        ({
            let sent = sending(s, session_id, method, params, slot).0;
            let off = TransportView { pending: sent.pending.remove(s.next_id), ..sent };
            &&& off.pending == s.pending
            &&& dispatching(off, m) == (off, ReaderStepView::<T>::Skip)
        }),
{
    let sent = sending(s, session_id, method, params, slot).0;
    assert(sent.pending.remove(s.next_id) =~= s.pending);
}

/// Something that is done with a transport.
pub enum Operation<T> {
    /// A command is sent, its data being JSON.
    Send { session_id: Option<Seq<char>>, method: Seq<char>, params: Seq<char>, slot: T },
    /// A command is sent.
    SendCommand { command: CommandView, slot: T },
    /// A command that was framed, or could not be, is sent.
    Enqueue { framed: Result<Seq<char>, Seq<char>>, slot: T },
    /// Something was read.
    Receive(Incoming),
    /// A message came.
    Dispatch(MessageView),
    /// A command could not be written, or was not answered in time.
    Forget(u64),
    /// Everybody who waits is told that there will be no answer.
    FailPending,
    /// The user name and password for a proxy change.
    SetProxyAuth(Option<(Seq<char>, Seq<char>)>),
    /// Reading stops.
    End,
}

/// The number of the command that is to be written, where one is.
pub open spec fn number_of(out: OutgoingView) -> Option<u64> {
    match out {
        OutgoingView::Write { id, .. } => Some(id),
        _ => None,
    }
}

/// The state that an operation leads to, and the number that it gives to a command.
pub open spec fn operated<T>(s: TransportView<T>, op: Operation<T>) -> (
    TransportView<T>,
    Option<u64>,
) {
    match op {
        Operation::Send { session_id, method, params, slot } => {
            let (after, out) = sending(s, session_id, method, params, slot);
            (after, number_of(out))
        },
        Operation::SendCommand { command, slot } => {
            let (after, out) = commanding(s, command, slot);
            (after, number_of(out))
        },
        Operation::Enqueue { framed, slot } => {
            let (after, out) = enqueuing(s, framed, slot);
            (after, number_of(out))
        },
        Operation::Receive(incoming) => (reading(s, incoming).0, None),
        Operation::Dispatch(m) => (dispatching(s, m).0, None),
        Operation::Forget(id) => (
            TransportView { pending: s.pending.remove(id), ..s },
            None,
        ),
        Operation::FailPending => (TransportView { pending: Map::empty(), ..s }, None),
        Operation::SetProxyAuth(proxy_auth) => (TransportView { proxy_auth, ..s }, None),
        Operation::End => (ended(s), None),
    }
}

/// The state that several operations lead to, one after the other, and the numbers
/// that they give to commands, in order.
pub open spec fn operated_all<T>(s: TransportView<T>, ops: Seq<Operation<T>>) -> (
    TransportView<T>,
    Seq<u64>,
)
    decreases ops.len(),
{
    if ops.len() == 0 {
        (s, Seq::empty())
    } else {
        let (before, numbers) = operated_all(s, ops.drop_last());
        let (after, number) = operated(before, ops.last());
        match number {
            Some(n) => (after, numbers.push(n)),
            None => (after, numbers),
        }
    }
}

/// Whatever is done with a transport, each command has a greater number than all
/// before it, so that no two ever share one, and the next one's is greater still;
/// as long as the numbers last.
pub proof fn law_numbers_never_repeat<T>(s: TransportView<T>, ops: Seq<Operation<T>>)
    requires
        s.next_id + ops.len() <= u64::MAX,
    ensures
        forall|i: int, j: int|
            0 <= i < j < operated_all(s, ops).1.len() ==> #[trigger] operated_all(s, ops).1[i]
                < #[trigger] operated_all(s, ops).1[j],
        forall|i: int|
            0 <= i < operated_all(s, ops).1.len() ==> s.next_id
                <= #[trigger] operated_all(s, ops).1[i] < operated_all(s, ops).0.next_id,
        s.next_id <= operated_all(s, ops).0.next_id <= s.next_id + ops.len(),
    decreases ops.len(),
{
    if ops.len() > 0 {
        law_numbers_never_repeat(s, ops.drop_last());
        let before = operated_all(s, ops.drop_last()).0;
        let (after, number) = operated(before, ops.last());
        assert(match number {
            Some(n) => n == before.next_id && after.next_id == n + 1,
            None => before.next_id <= after.next_id <= before.next_id + 1,
        });
    }
}

/// Once reading has stopped nothing is written any more, and nobody waits.
pub proof fn law_ended_sends_nothing<T>(
    s: TransportView<T>,
    session_id: Option<Seq<char>>,
    method: Seq<char>,
    params: Seq<char>,
    slot: T,
)
    ensures
        !(sending(ended(s), session_id, method, params, slot).1 is Write),
        sending(ended(s), session_id, method, params, slot).0 == ended(s),
        ended(s).pending == Map::<u64, T>::empty(),
{
}

/// What is held back is to switch on or off one of the five domains whose events
/// pages can notice, and nothing else.
pub proof fn law_held_back_commands(method: Seq<char>)
    ensures
        blocked(method) <==> exists|domain: Seq<char>|
            #![trigger domain + ".enable"@]
            (domain == "Runtime"@ || domain == "HeapProfiler"@ || domain == "Profiler"@ || domain
                == "Debugger"@ || domain == "Console"@) && (method == domain + ".enable"@ || method
                == domain + ".disable"@),
{
    reveal_strlit(".enable");
    reveal_strlit(".disable");
    reveal_strlit("Runtime");
    reveal_strlit("Runtime.enable");
    reveal_strlit("Runtime.disable");
    reveal_strlit("HeapProfiler");
    reveal_strlit("HeapProfiler.enable");
    reveal_strlit("HeapProfiler.disable");
    reveal_strlit("Profiler");
    reveal_strlit("Profiler.enable");
    reveal_strlit("Profiler.disable");
    reveal_strlit("Debugger");
    reveal_strlit("Debugger.enable");
    reveal_strlit("Debugger.disable");
    reveal_strlit("Console");
    reveal_strlit("Console.enable");
    reveal_strlit("Console.disable");
    assert("Runtime.enable"@ =~= "Runtime"@ + ".enable"@);
    assert("Runtime.disable"@ =~= "Runtime"@ + ".disable"@);
    assert("HeapProfiler.enable"@ =~= "HeapProfiler"@ + ".enable"@);
    assert("HeapProfiler.disable"@ =~= "HeapProfiler"@ + ".disable"@);
    assert("Profiler.enable"@ =~= "Profiler"@ + ".enable"@);
    assert("Profiler.disable"@ =~= "Profiler"@ + ".disable"@);
    assert("Debugger.enable"@ =~= "Debugger"@ + ".enable"@);
    assert("Debugger.disable"@ =~= "Debugger"@ + ".disable"@);
    assert("Console.enable"@ =~= "Console"@ + ".enable"@);
    assert("Console.disable"@ =~= "Console"@ + ".disable"@);
}

/// The commands that are flagged are about the user agent, the time zone, the screen
/// and the content security policy.
pub proof fn law_flagged_commands(method: Seq<char>)
    ensures
        risky(method) <==> (method == "Emulation.setUserAgentOverride"@ || method
            == "Emulation.setTimezoneOverride"@ || method == "Emulation.setDeviceMetricsOverride"@
            || method == "Page.setBypassCSP"@),
{
}

/// The parts of a message are its members of these names.
pub proof fn law_message_parts(json: JsonView)
    ensures
        message_of(json).method == member_text(json, "method"@),
        message_of(json).session_id == member_text(json, "sessionId"@),
        message_of(json).result == json.member("result"@),
        message_of(json).params == json.member("params"@),
        member_value(json, "id"@) matches Some(v) ==> message_of(json).id == v.as_u64(),
        member_value(json, "id"@) is None ==> message_of(json).id is None,
        message_of(json).error is Some <==> json.member("error"@) is Some,
        member_value(json, "error"@) matches Some(e) ==> (message_of(json).error matches Some(
            (code, message),
        ) && message == member_text(e, "message"@) && (member_value(e, "code"@) matches Some(c)
            ==> code == c.as_i64())),
        member_value(json, "params"@) matches Some(p) ==> message_of(json).request_id
            == member_text(p, "requestId"@),
{
}

/// A command that failed is told the browser's code and message, and the name that
/// the answer gives; what the answer does not say is minus one or unknown.
pub proof fn law_error_is_told(
    m: MessageView,
    told_code: Option<i64>,
    told_message: Option<Seq<char>>,
)
    requires
        m.error == Some((told_code, told_message)),
    ensures
        outcome_of(m) matches Err(ErrorView::Cdp { method, code, message }) && {
            &&& m.method matches Some(t) ==> method == t
            &&& m.method is None ==> method == "unknown"@
            &&& told_code matches Some(c) ==> code == c
            &&& told_code is None ==> code == -1
            &&& told_message matches Some(t) ==> message == t
            &&& told_message is None ==> message == "unknown"@
        },
{
}

/// A command that succeeded is told its result, or an empty one.
pub proof fn law_result_is_told(m: MessageView)
    requires
        m.error is None,
    ensures
        m.result matches Some(text) ==> outcome_of(m) == Ok::<Seq<char>, ErrorView>(text),
        m.result is None ==> outcome_of(m) == Ok::<Seq<char>, ErrorView>("{}"@),
{
}

/// An event goes to the subscribers as it came, in its session, and changes nothing,
/// unless it is a challenge that can be answered.
pub proof fn law_event_is_published<T>(s: TransportView<T>, m: MessageView)
    requires
        m.id is None,
        m.method is Some,
        m.method->0 != "Fetch.authRequired"@ || s.proxy_auth is None || m.request_id is None,
    ensures
        dispatching(s, m).0 == s,
        dispatching(s, m).1 matches ReaderStepView::Publish(
            CdpMessageView::Event { method, params, session_id },
        ) && {
            &&& method == m.method->0
            &&& m.params matches Some(text) ==> params == text
            &&& m.params is None ==> params == "{}"@
            &&& session_id == m.session_id
        },
{
}

/// A challenge that can be answered is, under the next number for such answers; it
/// goes to no subscriber, and leaves those who wait alone.
pub proof fn law_challenge_is_answered<T>(s: TransportView<T>, m: MessageView)
    requires
        m.id is None,
        m.method == Some("Fetch.authRequired"@),
        s.proxy_auth is Some,
        m.request_id is Some,
        s.auth_id < u64::MAX,
    ensures
        dispatching(s, m).1 is Reply,
        dispatching(s, m).0.auth_id == s.auth_id + 1,
        dispatching(s, m).0.pending == s.pending,
        dispatching(s, m).0.next_id == s.next_id,
        dispatching(s, m).0.exited == s.exited,
{
}

/// A ping is answered with its own payload; what is no message changes nothing; and
/// the end of the connection is the end of reading.
pub proof fn law_frames_that_are_no_messages<T>(s: TransportView<T>, incoming: Incoming)
    ensures
        incoming matches Incoming::Ping(payload) ==> reading(s, incoming) == (
            s,
            ReaderStepView::<T>::Pong(payload@),
        ),
        incoming is Pong || incoming is Raw ==> reading(s, incoming) == (
            s,
            ReaderStepView::<T>::Skip,
        ),
        incoming matches Incoming::Binary(bytes) ==> (!vstd::utf8::valid_utf8(bytes@) ==> reading(
            s,
            incoming,
        ) == (s, ReaderStepView::<T>::Skip)),
        incoming is Close || incoming is Ended || incoming is Failed ==> reading(s, incoming).0
            == s && reading(s, incoming).1 is Stop,
{
}

/// A binary frame is read as the text that its bytes encode.
pub proof fn law_binary_frame_is_text<T>(s: TransportView<T>, bytes: Vec<u8>, text: String)
    requires
        vstd::utf8::valid_utf8(bytes@),
        vstd::utf8::decode_utf8(bytes@) == text@,
    ensures
        reading(s, Incoming::Binary(bytes)) == reading(s, Incoming::Text(text)),
{
}

/// When everybody is told that the connection is gone, each who waits is told so in
/// their own slot, by a transport error with that text, and nobody else is told.
pub proof fn law_everybody_is_told<T>(
    failures: Seq<Failure<T>>,
    pending: Map<u64, T>,
    context: Seq<char>,
    id: u64,
)
    requires
        all_told(failures, pending, context),
    ensures
        pending.contains_key(id) ==> exists|i: int|
            0 <= i < failures.len() && (#[trigger] failures[i]).id == id && failures[i].slot
                == pending[id] && failures[i].error@ == ErrorView::Transport(context),
        !pending.contains_key(id) ==> forall|i: int|
            0 <= i < failures.len() ==> (#[trigger] failures[i]).id != id,
        forall|i: int, j: int|
            0 <= i < failures.len() && 0 <= j < failures.len() && (#[trigger] failures[i]).id == id
                && (#[trigger] failures[j]).id == id ==> i == j,
{
    assert forall|i: int, j: int|
        0 <= i < failures.len() && 0 <= j < failures.len() && (#[trigger] failures[i]).id == id && (
        #[trigger] failures[j]).id == id implies i == j by {
        if i < j {
            assert(failures[i].id != failures[j].id);
        } else if j < i {
            assert(failures[j].id != failures[i].id);
        }
    }
}

/// A new transport numbers commands from one and answers to challenges from the middle
/// of the range on, nobody waits, and it reads.
pub proof fn law_new_transport<T>(
    proxy_auth: Option<(Seq<char>, Seq<char>)>,
    timeout_secs: u64,
    filter_cdp: bool,
)
    ensures
        ({
            let s = fresh::<T>(proxy_auth, timeout_secs, filter_cdp);
            &&& s.next_id == 1
            &&& s.auth_id == u64::MAX / 2
            &&& s.pending == Map::<u64, T>::empty()
            &&& s.proxy_auth == proxy_auth
            &&& s.timeout_secs == timeout_secs
            &&& s.filter_cdp == filter_cdp
            &&& !s.exited
        }),
{
}

/// What the browser reads of an answer to a challenge: its number, the challenge's own
/// session and request, and the proxy's user name and password, each in its place.
pub proof fn law_credentials_are_told<T>(
    text: Seq<char>,
    s: TransportView<T>,
    m: MessageView,
    username: Seq<char>,
    password: Seq<char>,
)
    requires
        answers_challenge(text, s, m),
        s.proxy_auth == Some((username, password)),
    ensures
        json_value(text) matches Some(back) && {
            &&& message_of(back).id == Some(s.auth_id)
            &&& member_text(back, "method"@) == Some("Fetch.continueWithAuth"@)
            &&& member_text(back, "sessionId"@) == m.session_id
            &&& member_value(back, "params"@) matches Some(params) && {
                &&& member_text(params, "requestId"@) == m.request_id
                &&& member_value(params, "authChallengeResponse"@) matches Some(answer) && {
                    &&& member_text(answer, "response"@) == Some("ProvideCredentials"@)
                    &&& member_text(answer, "username"@) == Some(username)
                    &&& member_text(answer, "password"@) == Some(password)
                }
            }
        },
{
}

/// A transport is made for a plain WebSocket URL, and for no other.
pub proof fn law_only_ws_is_connected<T>(
    r: Result<Transport<T>, Error>,
    ws_url: Seq<char>,
    s: TransportView<T>,
)
    requires
        connected(r, ws_url, s),
    ensures
        r is Ok <==> "ws://"@.is_prefix_of(ws_url),
        r matches Ok(t) ==> t@ == s,
        r matches Err(e) ==> e@ == ErrorView::Transport(
            "Invalid WebSocket URL (expected ws://...): "@ + ws_url,
        ),
{
}

/// Data that stands in a command as it was given stands there whole, as the value of
/// `params`; the number comes first and the session last.
pub proof fn law_data_stands_verbatim(
    id: u64,
    session_id: Option<Seq<char>>,
    method: Seq<char>,
    params: Seq<char>,
)
    ensures
        ({
            let text = verbatim_frame(id, session_id, method, params);
            &&& ("{\"id\":"@ + number_text(id) + ",\"method\":"@ + quoted(method)
                + ",\"params\":"@ + params).is_prefix_of(text)
            &&& session_id matches Some(sid) ==> (",\"sessionId\":"@ + quoted(sid)
                + "}"@).is_suffix_of(text)
            &&& session_id is None ==> (params + "}"@).is_suffix_of(text)
        }),
{
    let text = verbatim_frame(id, session_id, method, params);
    let start = "{\"id\":"@ + number_text(id) + ",\"method\":"@ + quoted(method)
        + ",\"params\":"@ + params;
    assert(text.subrange(0, start.len() as int) =~= start);
    match session_id {
        Some(sid) => {
            let end = ",\"sessionId\":"@ + quoted(sid) + "}"@;
            assert(text.subrange(text.len() - end.len(), text.len() as int) =~= end);
        },
        None => {
            let end = params + "}"@;
            assert(text.subrange(text.len() - end.len(), text.len() as int) =~= end);
        },
    }
}

} // verus!
