//! Commands to the browser and to its pages, and what the answers mean.

use vstd::prelude::*;

use crate::cdp::command::{
    field_views, flag_param, given, holds_param, holds_params, holds_record, int_param, lemma_given,
    lemma_params_told, maybe, named, names_param, opt_int_param, opt_number_param, opt_text_param,
    pieces_apart, record_views, text_param, Command, CommandView, Param, ParamView, Params, Scalar,
    ScalarView,
};
use crate::cdp::types::{
    law_cookie_is_told, law_header_is_told, law_pattern_is_told,
    FetchHeaderEntry, InputDispatchKeyEventFull, InputDispatchMouseEvent, KeyEventType,
    MouseButton, MouseEventType, NetworkSetCookie, RequestPattern,
};
use crate::json::{
    holds_flag, holds_json, holds_number, holds_text, json_value, member_text, member_value,
    JsonView,
};
use crate::encoding::{base64_bytes, base64_text, decode_base64, decodes_to, encode_base64};
use crate::error::{Error, ErrorView};
use crate::page::answer::decoded_or_error;
use crate::text::{opt_str_view, opt_view, string_views};
use crate::textmap::TextMap;

verus! {

/// A command for a session or the browser.
pub open spec fn command(
    session_id: Option<Seq<char>>,
    method: Seq<char>,
    params: Seq<(Seq<char>, ParamView)>,
) -> CommandView {
    CommandView { session_id, method, params }
}

/// A number in a wider type, where there is one.
pub open spec fn wide_u32_spec(n: Option<u32>) -> Option<i64> {
    match n {
        Some(n) => Some(n as i64),
        None => None,
    }
}

fn wide_u32(n: Option<u32>) -> (r: Option<i64>)
    ensures
        r == wide_u32_spec(n),
{
    match n {
        Some(n) => Some(n as i64),
        None => None,
    }
}

/// A number in a wider type, where there is one.
pub open spec fn wide_i32_spec(n: Option<i32>) -> Option<i64> {
    match n {
        Some(n) => Some(n as i64),
        None => None,
    }
}

fn wide_i32(n: Option<i32>) -> (r: Option<i64>)
    ensures
        r == wide_i32_spec(n),
{
    match n {
        Some(n) => Some(n as i64),
        None => None,
    }
}

/// The browser itself, as a receiver of commands. `T` is the transport that they go
/// through, or a handle on it.
pub struct Connection<T> {
    transport: T,
}

impl<T> View for Connection<T> {
    type V = T;

    closed spec fn view(&self) -> T {
        self.transport
    }
}

impl<T> Connection<T> {
    /// The browser at the other end of a transport.
    pub fn new(transport: T) -> (c: Connection<T>)
        ensures
            c@ == transport,
    {
        Connection { transport }
    }

    /// The transport.
    pub fn transport(&self) -> (r: &T)
        ensures
            *r == self@,
    {
        &self.transport
    }

    fn command(&self, method: &str, params: Params) -> (c: Command)
        ensures
            c@ == command(None, method@, params@),
    {
        Command { session_id: None, method: method.to_string(), params }
    }

    /// The session with a target that the browser gave the id of.
    pub fn attached(&self, target_id: &str, session_id: &str) -> (s: Session)
        ensures
            s@ == (SessionView { session_id: session_id@, target_id: target_id@ }),
    {
        Session { session_id: session_id.to_string(), target_id: target_id.to_string() }
    }

    /// Asks for the browser's version.
    pub fn version(&self) -> (c: Command)
        ensures
            c@ == command(
                None,
                "Browser.getVersion"@,
                Seq::empty(),
            ),
    {
        self.command("Browser.getVersion", Params::new())
    }

    /// Opens a tab.
    pub fn create_target(&self, url: &str, width: Option<u32>, height: Option<u32>) -> (c: Command)
        ensures
            c@ == command(
                None,
                "Target.createTarget"@,
                seq![("url"@, text_param(url@))]
                    + opt_int_param("width"@, wide_u32_spec(width))
                    + opt_int_param("height"@, wide_u32_spec(height)),
            ),
    {
        let mut p = Params::new();
        p.text("url", url);
        p.opt_whole("width", wide_u32(width));
        p.opt_whole("height", wide_u32(height));
        assert(
            p@ =~= seq![("url"@, text_param(url@))]
                + opt_int_param("width"@, wide_u32_spec(width))
                + opt_int_param("height"@, wide_u32_spec(height))
        );
        self.command("Target.createTarget", p)
    }

    /// Asks for a session with a target.
    pub fn attach_to_target(&self, target_id: &str) -> (c: Command)
        ensures
            c@ == command(
                None,
                "Target.attachToTarget"@,
                seq![
                    ("targetId"@, text_param(target_id@)),
                    ("flatten"@, flag_param(true)),
                ],
            ),
    {
        let mut p = Params::new();
        p.text("targetId", target_id);
        p.flag("flatten", true);
        assert(
            p@ =~= seq![
                ("targetId"@, text_param(target_id@)),
                ("flatten"@, flag_param(true)),
            ]
        );
        self.command("Target.attachToTarget", p)
    }

    /// Closes a target.
    pub fn close_target(&self, target_id: &str) -> (c: Command)
        ensures
            c@ == command(
                None,
                "Target.closeTarget"@,
                seq![("targetId"@, text_param(target_id@))],
            ),
    {
        let mut p = Params::new();
        p.text("targetId", target_id);
        assert(p@ =~= seq![("targetId"@, text_param(target_id@))]);
        self.command("Target.closeTarget", p)
    }

    /// Lists the targets.
    pub fn get_targets(&self) -> (c: Command)
        ensures
            c@ == command(
                None,
                "Target.getTargets"@,
                Seq::empty(),
            ),
    {
        self.command("Target.getTargets", Params::new())
    }

    /// Brings a target to the front.
    pub fn activate_target(&self, target_id: &str) -> (c: Command)
        ensures
            c@ == command(
                None,
                "Target.activateTarget"@,
                seq![("targetId"@, text_param(target_id@))],
            ),
    {
        let mut p = Params::new();
        p.text("targetId", target_id);
        assert(p@ =~= seq![("targetId"@, text_param(target_id@))]);
        self.command("Target.activateTarget", p)
    }

    /// Closes the browser.
    pub fn close(&self) -> (c: Command)
        ensures
            c@ == command(
                None,
                "Browser.close"@,
                Seq::empty(),
            ),
    {
        self.command("Browser.close", Params::new())
    }
}

/// A page, as a receiver of commands.
pub struct Session {
    session_id: String,
    target_id: String,
}

/// The value behind a `Session`.
pub struct SessionView {
    pub session_id: Seq<char>,
    pub target_id: Seq<char>,
}

impl View for Session {
    type V = SessionView;

    closed spec fn view(&self) -> SessionView {
        SessionView { session_id: self.session_id@, target_id: self.target_id@ }
    }
}

/// An entry of a page's history.
pub struct NavigationEntry {
    /// Its id.
    pub id: i32,
}

/// The entry at `offset` from the current one, where there is one.
pub open spec fn history_target(
    current_index: int,
    entries: Seq<NavigationEntry>,
    offset: int,
) -> Option<i32> {
    let at = current_index + offset;
    if 0 <= at < entries.len() {
        Some(entries[at].id)
    } else {
        None
    }
}

/// The records for headers.
pub open spec fn header_records(headers: Seq<FetchHeaderEntry>) -> Seq<
    Seq<(Seq<char>, ScalarView)>,
> {
    headers.map_values(|h: FetchHeaderEntry| h.record())
}

/// The records for patterns.
pub open spec fn pattern_records(patterns: Seq<RequestPattern>) -> Seq<
    Seq<(Seq<char>, ScalarView)>,
> {
    patterns.map_values(|p: RequestPattern| p.record())
}

/// What the browser reads says that the requests to stop are those that match one of
/// the patterns, each read as it was given, or all where there is no pattern.
pub open spec fn stops_what_is_asked(
    back: JsonView,
    patterns: Seq<RequestPattern>,
    handle_auth: bool,
) -> bool {
    &&& holds_flag(back, "handleAuthRequests"@, Some(handle_auth))
    &&& patterns.len() == 0 ==> back.member("patterns"@) is None
    &&& patterns.len() > 0 ==> (member_value(back, "patterns"@) matches Some(
        JsonView::Array(items),
    ) && items.len() == patterns.len() && forall|i: int|
        0 <= i < items.len() ==> (json_value(#[trigger] items[i]) matches Some(p) && holds_text(
            p,
            "urlPattern"@,
            opt_view(patterns[i].url_pattern),
        ) && holds_text(p, "resourceType"@, opt_view(patterns[i].resource_type)) && holds_text(
            p,
            "requestStage"@,
            opt_view(patterns[i].request_stage),
        )))
}

proof fn lemma_interception(
    value: Option<JsonView>,
    patterns: Seq<RequestPattern>,
    handle_auth: bool,
)
    requires
        holds_params(
            value,
            (if patterns.len() > 0 {
                seq![("patterns"@, ParamView::Records(pattern_records(patterns)))]
            } else {
                Seq::empty()
            }).push(("handleAuthRequests"@, flag_param(handle_auth))),
        ),
    ensures
        stops_what_is_asked(value->0, patterns, handle_auth),
{
    reveal_strlit("patterns");
    reveal_strlit("handleAuthRequests");
    assert("patterns"@.len() == 8 && "handleAuthRequests"@.len() == 18);
    let params = (if patterns.len() > 0 {
        seq![("patterns"@, ParamView::Records(pattern_records(patterns)))]
    } else {
        Seq::empty()
    }).push(("handleAuthRequests"@, flag_param(handle_auth)));
    let back = value->0;
    assert(params.last() == ("handleAuthRequests"@, flag_param(handle_auth)));
    assert(params[params.len() - 1].0 == "handleAuthRequests"@);
    if patterns.len() > 0 {
        assert(params[0] == ("patterns"@, ParamView::Records(pattern_records(patterns))));
        law_patterns_are_told(member_value(back, "patterns"@), patterns);
    } else if back.member("patterns"@) is Some {
        assert(names_param(params, "patterns"@));
    }
}

/// The records for cookies.
pub open spec fn cookie_records(cookies: Seq<NetworkSetCookie>) -> Seq<
    Seq<(Seq<char>, ScalarView)>,
> {
    cookies.map_values(|c: NetworkSetCookie| c.record())
}

/// The part for headers that may be missing.
pub open spec fn opt_headers_param(key: Seq<char>, headers: Option<Vec<FetchHeaderEntry>>) -> Seq<
    (Seq<char>, ParamView),
> {
    match headers {
        Some(hs) => seq![(key, ParamView::Records(header_records(hs@)))],
        None => Seq::empty(),
    }
}

fn headers_param(headers: &Vec<FetchHeaderEntry>) -> (p: Param)
    ensures
        p@ == ParamView::Records(header_records(headers@)),
{
    let mut records: Vec<Vec<(String, Scalar)>> = Vec::new();
    while records.len() < headers.len()
        invariant
            records.len() <= headers.len(),
            forall|j: int|
                0 <= j < records.len() ==> field_views(
                    (#[trigger] records@[j])@,
                ) == headers@[j].record(),
        decreases headers.len() - records.len(),
    {
        let record = headers[records.len()].fields();
        records.push(record);
    }
    assert(record_views(records@) =~= header_records(headers@));
    Param::Records(records)
}

fn add_headers(p: &mut Params, key: &str, headers: &Option<Vec<FetchHeaderEntry>>)
    ensures
        final(p)@ == old(p)@ + opt_headers_param(key@, *headers),
{
    match headers {
        Some(hs) => p.add(key, headers_param(hs)),
        None => {},
    }
}

fn patterns_param(patterns: &Vec<RequestPattern>) -> (p: Param)
    ensures
        p@ == ParamView::Records(pattern_records(patterns@)),
{
    let mut records: Vec<Vec<(String, Scalar)>> = Vec::new();
    while records.len() < patterns.len()
        invariant
            records.len() <= patterns.len(),
            forall|j: int|
                0 <= j < records.len() ==> field_views(
                    (#[trigger] records@[j])@,
                ) == patterns@[j].record(),
        decreases patterns.len() - records.len(),
    {
        let record = patterns[records.len()].fields();
        records.push(record);
    }
    assert(record_views(records@) =~= pattern_records(patterns@));
    Param::Records(records)
}

fn cookies_param(cookies: &Vec<NetworkSetCookie>) -> (p: Param)
    ensures
        p@ == ParamView::Records(cookie_records(cookies@)),
{
    let mut records: Vec<Vec<(String, Scalar)>> = Vec::new();
    while records.len() < cookies.len()
        invariant
            records.len() <= cookies.len(),
            forall|j: int|
                0 <= j < records.len() ==> field_views(
                    (#[trigger] records@[j])@,
                ) == cookies@[j].record(),
        decreases cookies.len() - records.len(),
    {
        let record = cookies[records.len()].fields();
        records.push(record);
    }
    assert(record_views(records@) =~= cookie_records(cookies@));
    Param::Records(records)
}

/// The base64 text of a body that may be missing.
pub open spec fn encoded_body(body: Option<Seq<char>>) -> Option<Seq<char>> {
    match body {
        Some(text) => Some(base64_text(vstd::utf8::encode_utf8(text))),
        None => None,
    }
}

/// The data of something that the mouse does.
pub open spec fn mouse_params(
    event_type: MouseEventType,
    place: (Seq<char>, Seq<char>),
    button: Option<MouseButton>,
    click_count: Option<i32>,
    delta: (Option<Seq<char>>, Option<Seq<char>>),
) -> Seq<(Seq<char>, ParamView)> {
    seq![
        ("type"@, text_param(event_type.word())),
        ("x"@, ParamView::One(ScalarView::Number(place.0))),
        ("y"@, ParamView::One(ScalarView::Number(place.1))),
    ] + opt_text_param(
        "button"@,
        match button {
            Some(b) => Some(b.word()),
            None => None,
        },
    ) + opt_int_param("clickCount"@, wide_i32_spec(click_count)) + opt_number_param(
        "deltaX"@,
        delta.0,
    ) + opt_number_param("deltaY"@, delta.1)
}

/// The data of something that a key does.
pub open spec fn key_params(e: InputDispatchKeyEventFull) -> Seq<(Seq<char>, ParamView)> {
    seq![("type"@, text_param(e.event_type.word()))] + opt_int_param(
        "modifiers"@,
        wide_i32_spec(e.modifiers),
    ) + opt_text_param("text"@, opt_view(e.text)) + opt_text_param("key"@, opt_view(e.key))
        + opt_text_param("code"@, opt_view(e.code)) + opt_int_param(
        "windowsVirtualKeyCode"@,
        wide_i32_spec(e.windows_virtual_key_code),
    ) + opt_int_param("nativeVirtualKeyCode"@, wide_i32_spec(e.native_virtual_key_code))
}

fn borrowed<'a>(text: &'a Option<String>) -> (r: Option<&'a str>)
    ensures
        opt_str_view(r) == opt_view(*text),
{
    match text {
        Some(t) => Some(t.as_str()),
        None => None,
    }
}

impl Session {
    /// The session's id.
    pub fn session_id(&self) -> (r: &str)
        ensures
            r@ == self@.session_id,
    {
        self.session_id.as_str()
    }

    /// The target's id.
    pub fn target_id(&self) -> (r: &str)
        ensures
            r@ == self@.target_id,
    {
        self.target_id.as_str()
    }

    fn command(&self, method: &str, params: Params) -> (c: Command)
        ensures
            c@ == command(Some(self@.session_id), method@, params@),
    {
        Command { session_id: Some(self.session_id.clone()), method: method.to_string(), params }
    }

    /// Asks for the page's events.
    pub fn page_enable(&self) -> (c: Command)
        ensures
            c@ == command(
                Some(self@.session_id),
                "Page.enable"@,
                Seq::empty(),
            ),
    {
        self.command("Page.enable", Params::new())
    }

    /// Loads a URL, on referral where one is given.
    pub fn navigate(&self, url: &str, referrer: Option<&str>) -> (c: Command)
        ensures
            c@ == command(
                Some(self@.session_id),
                "Page.navigate"@,
                seq![("url"@, text_param(url@))]
                    + opt_text_param("referrer"@, opt_str_view(referrer)),
            ),
    {
        let mut p = Params::new();
        p.text("url", url);
        p.opt_text("referrer", referrer);
        assert(
            p@ =~= seq![("url"@, text_param(url@))] + opt_text_param("referrer"@, opt_str_view(referrer))
        );
        self.command("Page.navigate", p)
    }

    /// Deletes all cookies.
    pub fn clear_all_cookies(&self) -> (c: Command)
        ensures
            c@ == command(
                Some(self@.session_id),
                "Network.clearBrowserCookies"@,
                Seq::empty(),
            ),
    {
        self.command("Network.clearBrowserCookies", Params::new())
    }

    /// Lifts the page's content security policy, or lets it be.
    pub fn set_bypass_csp(&self, enabled: bool) -> (c: Command)
        ensures
            c@ == command(
                Some(self@.session_id),
                "Page.setBypassCSP"@,
                seq![("enabled"@, flag_param(enabled))],
            ),
    {
        let mut p = Params::new();
        p.flag("enabled", enabled);
        assert(p@ =~= seq![("enabled"@, flag_param(enabled))]);
        self.command("Page.setBypassCSP", p)
    }

    /// Claims another user agent.
    pub fn set_user_agent(&self, user_agent: &str, accept_language: Option<&str>) -> (c: Command)
        ensures
            c@ == command(
                Some(self@.session_id),
                "Emulation.setUserAgentOverride"@,
                seq![("userAgent"@, text_param(user_agent@))]
                    + opt_text_param("acceptLanguage"@, opt_str_view(accept_language)),
            ),
    {
        let mut p = Params::new();
        p.text("userAgent", user_agent);
        p.opt_text("acceptLanguage", accept_language);
        assert(
            p@ =~= seq![("userAgent"@, text_param(user_agent@))]
                + opt_text_param("acceptLanguage"@, opt_str_view(accept_language))
        );
        self.command("Emulation.setUserAgentOverride", p)
    }

    /// Puts up with bad certificates, or does not.
    pub fn set_ignore_cert_errors(&self, ignore: bool) -> (c: Command)
        ensures
            c@ == command(
                Some(self@.session_id),
                "Security.setIgnoreCertificateErrors"@,
                seq![("ignore"@, flag_param(ignore))],
            ),
    {
        let mut p = Params::new();
        p.flag("ignore", ignore);
        assert(p@ =~= seq![("ignore"@, flag_param(ignore))]);
        self.command("Security.setIgnoreCertificateErrors", p)
    }

    /// Accepts or dismisses a dialog.
    pub fn handle_dialog(&self, accept: bool, prompt_text: Option<&str>) -> (c: Command)
        ensures
            c@ == command(
                Some(self@.session_id),
                "Page.handleJavaScriptDialog"@,
                seq![("accept"@, flag_param(accept))]
                    + opt_text_param("promptText"@, opt_str_view(prompt_text)),
            ),
    {
        let mut p = Params::new();
        p.flag("accept", accept);
        p.opt_text("promptText", prompt_text);
        assert(
            p@ =~= seq![("accept"@, flag_param(accept))]
                + opt_text_param("promptText"@, opt_str_view(prompt_text))
        );
        self.command("Page.handleJavaScriptDialog", p)
    }

    /// Stops no more requests.
    pub fn fetch_disable(&self) -> (c: Command)
        ensures
            c@ == command(
                Some(self@.session_id),
                "Fetch.disable"@,
                Seq::empty(),
            ),
    {
        self.command("Fetch.disable", Params::new())
    }

    /// Lets a stopped request fail.
    pub fn fetch_fail(&self, request_id: &str, error_reason: &str) -> (c: Command)
        ensures
            c@ == command(
                Some(self@.session_id),
                "Fetch.failRequest"@,
                seq![
                    ("requestId"@, text_param(request_id@)),
                    ("errorReason"@, text_param(error_reason@)),
                ],
            ),
    {
        let mut p = Params::new();
        p.text("requestId", request_id);
        p.text("errorReason", error_reason);
        assert(
            p@ =~= seq![
                ("requestId"@, text_param(request_id@)),
                ("errorReason"@, text_param(error_reason@)),
            ]
        );
        self.command("Fetch.failRequest", p)
    }

    /// Loads the page again.
    pub fn reload(&self, ignore_cache: bool) -> (c: Command)
        ensures
            c@ == command(
                Some(self@.session_id),
                "Page.reload"@,
                seq![("ignoreCache"@, flag_param(ignore_cache))],
            ),
    {
        let mut p = Params::new();
        p.flag("ignoreCache", ignore_cache);
        assert(p@ =~= seq![("ignoreCache"@, flag_param(ignore_cache))]);
        self.command("Page.reload", p)
    }

    /// Asks for the page's history.
    pub fn get_navigation_history(&self) -> (c: Command)
        ensures
            c@ == command(
                Some(self@.session_id),
                "Page.getNavigationHistory"@,
                Seq::empty(),
            ),
    {
        self.command("Page.getNavigationHistory", Params::new())
    }

    /// Goes to an entry of the page's history.
    pub fn navigate_to_history_entry(&self, entry_id: i32) -> (c: Command)
        ensures
            c@ == command(
                Some(self@.session_id),
                "Page.navigateToHistoryEntry"@,
                seq![("entryId"@, int_param(entry_id as i64))],
            ),
    {
        let mut p = Params::new();
        p.whole("entryId", entry_id as i64);
        assert(p@ =~= seq![("entryId"@, int_param(entry_id as i64))]);
        self.command("Page.navigateToHistoryEntry", p)
    }

    /// Runs a script in every new document.
    pub fn add_script_to_evaluate_on_new_document(&self, source: &str) -> (c: Command)
        ensures
            c@ == command(
                Some(self@.session_id),
                "Page.addScriptToEvaluateOnNewDocument"@,
                seq![("source"@, text_param(source@))],
            ),
    {
        let mut p = Params::new();
        p.text("source", source);
        assert(p@ =~= seq![("source"@, text_param(source@))]);
        self.command("Page.addScriptToEvaluateOnNewDocument", p)
    }

    /// Asks for the page's frames.
    pub fn get_frame_tree(&self) -> (c: Command)
        ensures
            c@ == command(
                Some(self@.session_id),
                "Page.getFrameTree"@,
                Seq::empty(),
            ),
    {
        self.command("Page.getFrameTree", Params::new())
    }

    /// Lets a key do something.
    pub fn dispatch_key_event(
        &self,
        event_type: KeyEventType,
        key: Option<&str>,
        text: Option<&str>,
        code: Option<&str>,
    ) -> (c: Command)
        ensures
            c@ == command(
                Some(self@.session_id),
                "Input.dispatchKeyEvent"@,
                seq![("type"@, text_param(event_type.word()))]
                    + opt_text_param("text"@, opt_str_view(text))
                    + opt_text_param("code"@, opt_str_view(code))
                    + opt_text_param("key"@, opt_str_view(key)),
            ),
    {
        let mut p = Params::new();
        p.text("type", event_type.name());
        p.opt_text("text", text);
        p.opt_text("code", code);
        p.opt_text("key", key);
        assert(
            p@ =~= seq![("type"@, text_param(event_type.word()))]
                + opt_text_param("text"@, opt_str_view(text))
                + opt_text_param("code"@, opt_str_view(code))
                + opt_text_param("key"@, opt_str_view(key))
        );
        self.command("Input.dispatchKeyEvent", p)
    }

    /// Enters text where the cursor is.
    pub fn insert_text(&self, text: &str) -> (c: Command)
        ensures
            c@ == command(
                Some(self@.session_id),
                "Input.insertText"@,
                seq![("text"@, text_param(text@))],
            ),
    {
        let mut p = Params::new();
        p.text("text", text);
        assert(p@ =~= seq![("text"@, text_param(text@))]);
        self.command("Input.insertText", p)
    }

    /// Asks for the document.
    pub fn get_document(&self, depth: Option<i32>) -> (c: Command)
        ensures
            c@ == command(
                Some(self@.session_id),
                "DOM.getDocument"@,
                opt_int_param("depth"@, wide_i32_spec(depth))
                    + seq![("pierce"@, flag_param(true))],
            ),
    {
        let mut p = Params::new();
        p.opt_whole("depth", wide_i32(depth));
        p.flag("pierce", true);
        assert(
            p@ =~= opt_int_param("depth"@, wide_i32_spec(depth)) + seq![("pierce"@, flag_param(true))]
        );
        self.command("DOM.getDocument", p)
    }

    /// Looks for the first match of a selector.
    pub fn query_selector(&self, node_id: i32, selector: &str) -> (c: Command)
        ensures
            c@ == command(
                Some(self@.session_id),
                "DOM.querySelector"@,
                seq![
                    ("nodeId"@, int_param(node_id as i64)),
                    ("selector"@, text_param(selector@)),
                ],
            ),
    {
        let mut p = Params::new();
        p.whole("nodeId", node_id as i64);
        p.text("selector", selector);
        assert(
            p@ =~= seq![
                ("nodeId"@, int_param(node_id as i64)),
                ("selector"@, text_param(selector@)),
            ]
        );
        self.command("DOM.querySelector", p)
    }

    /// Looks for all matches of a selector.
    pub fn query_selector_all(&self, node_id: i32, selector: &str) -> (c: Command)
        ensures
            c@ == command(
                Some(self@.session_id),
                "DOM.querySelectorAll"@,
                seq![
                    ("nodeId"@, int_param(node_id as i64)),
                    ("selector"@, text_param(selector@)),
                ],
            ),
    {
        let mut p = Params::new();
        p.whole("nodeId", node_id as i64);
        p.text("selector", selector);
        assert(
            p@ =~= seq![
                ("nodeId"@, int_param(node_id as i64)),
                ("selector"@, text_param(selector@)),
            ]
        );
        self.command("DOM.querySelectorAll", p)
    }

    /// Asks where an element is.
    pub fn get_box_model(&self, node_id: i32) -> (c: Command)
        ensures
            c@ == command(
                Some(self@.session_id),
                "DOM.getBoxModel"@,
                seq![("nodeId"@, int_param(node_id as i64))],
            ),
    {
        let mut p = Params::new();
        p.whole("nodeId", node_id as i64);
        assert(p@ =~= seq![("nodeId"@, int_param(node_id as i64))]);
        self.command("DOM.getBoxModel", p)
    }

    /// Asks for an element's HTML.
    pub fn get_outer_html(&self, node_id: i32) -> (c: Command)
        ensures
            c@ == command(
                Some(self@.session_id),
                "DOM.getOuterHTML"@,
                seq![("nodeId"@, int_param(node_id as i64))],
            ),
    {
        let mut p = Params::new();
        p.whole("nodeId", node_id as i64);
        assert(p@ =~= seq![("nodeId"@, int_param(node_id as i64))]);
        self.command("DOM.getOuterHTML", p)
    }

    /// Asks for the object behind an element.
    pub fn resolve_node(&self, node_id: i32) -> (c: Command)
        ensures
            c@ == command(
                Some(self@.session_id),
                "DOM.resolveNode"@,
                seq![
                    ("nodeId"@, int_param(node_id as i64)),
                    ("objectGroup"@, text_param("eoka"@)),
                ],
            ),
    {
        let mut p = Params::new();
        p.whole("nodeId", node_id as i64);
        p.text("objectGroup", "eoka");
        assert(
            p@ =~= seq![
                ("nodeId"@, int_param(node_id as i64)),
                ("objectGroup"@, text_param("eoka"@)),
            ]
        );
        self.command("DOM.resolveNode", p)
    }

    /// Calls a function on an object, and asks for the result's value.
    pub fn call_function_on(&self, object_id: &str, function_declaration: &str) -> (c: Command)
        ensures
            c@ == command(
                Some(self@.session_id),
                "Runtime.callFunctionOn"@,
                seq![
                    ("functionDeclaration"@, text_param(function_declaration@)),
                    ("objectId"@, text_param(object_id@)),
                    ("returnByValue"@, flag_param(true)),
                    ("awaitPromise"@, flag_param(true)),
                ],
            ),
    {
        let mut p = Params::new();
        p.text("functionDeclaration", function_declaration);
        p.text("objectId", object_id);
        p.flag("returnByValue", true);
        p.flag("awaitPromise", true);
        assert(
            p@ =~= seq![
                ("functionDeclaration"@, text_param(function_declaration@)),
                ("objectId"@, text_param(object_id@)),
                ("returnByValue"@, flag_param(true)),
                ("awaitPromise"@, flag_param(true)),
            ]
        );
        self.command("Runtime.callFunctionOn", p)
    }

    /// Puts the cursor into an element.
    pub fn focus(&self, node_id: i32) -> (c: Command)
        ensures
            c@ == command(
                Some(self@.session_id),
                "DOM.focus"@,
                seq![("nodeId"@, int_param(node_id as i64))],
            ),
    {
        let mut p = Params::new();
        p.whole("nodeId", node_id as i64);
        assert(p@ =~= seq![("nodeId"@, int_param(node_id as i64))]);
        self.command("DOM.focus", p)
    }

    /// Sets a cookie.
    pub fn set_cookie(
        &self,
        name: &str,
        value: &str,
        url: Option<&str>,
        domain: Option<&str>,
        path: Option<&str>,
    ) -> (c: Command)
        ensures
            c@ == command(
                Some(self@.session_id),
                "Network.setCookie"@,
                seq![("name"@, text_param(name@)), ("value"@, text_param(value@))]
                    + opt_text_param("url"@, opt_str_view(url))
                    + opt_text_param("domain"@, opt_str_view(domain))
                    + opt_text_param("path"@, opt_str_view(path)),
            ),
    {
        let mut p = Params::new();
        p.text("name", name);
        p.text("value", value);
        p.opt_text("url", url);
        p.opt_text("domain", domain);
        p.opt_text("path", path);
        assert(
            p@ =~= seq![("name"@, text_param(name@)), ("value"@, text_param(value@))]
                + opt_text_param("url"@, opt_str_view(url))
                + opt_text_param("domain"@, opt_str_view(domain))
                + opt_text_param("path"@, opt_str_view(path))
        );
        self.command("Network.setCookie", p)
    }

    /// Deletes cookies.
    pub fn delete_cookies(
        &self,
        name: &str,
        url: Option<&str>,
        domain: Option<&str>,
    ) -> (c: Command)
        ensures
            c@ == command(
                Some(self@.session_id),
                "Network.deleteCookies"@,
                seq![("name"@, text_param(name@))]
                    + opt_text_param("url"@, opt_str_view(url))
                    + opt_text_param("domain"@, opt_str_view(domain)),
            ),
    {
        let mut p = Params::new();
        p.text("name", name);
        p.opt_text("url", url);
        p.opt_text("domain", domain);
        assert(
            p@ =~= seq![("name"@, text_param(name@))]
                + opt_text_param("url"@, opt_str_view(url))
                + opt_text_param("domain"@, opt_str_view(domain))
        );
        self.command("Network.deleteCookies", p)
    }

    /// Asks for the network's events, with sent data up to 64 kilobytes.
    pub fn network_enable(&self) -> (c: Command)
        ensures
            c@ == command(
                Some(self@.session_id),
                "Network.enable"@,
                seq![("maxPostDataSize"@, int_param(65536))],
            ),
    {
        let mut p = Params::new();
        p.whole("maxPostDataSize", 65536);
        assert(p@ =~= seq![("maxPostDataSize"@, int_param(65536))]);
        self.command("Network.enable", p)
    }

    /// Asks for no more of the network's events.
    pub fn network_disable(&self) -> (c: Command)
        ensures
            c@ == command(
                Some(self@.session_id),
                "Network.disable"@,
                Seq::empty(),
            ),
    {
        self.command("Network.disable", Params::new())
    }

    /// Asks for a response's body.
    pub fn get_response_body(&self, request_id: &str) -> (c: Command)
        ensures
            c@ == command(
                Some(self@.session_id),
                "Network.getResponseBody"@,
                seq![("requestId"@, text_param(request_id@))],
            ),
    {
        let mut p = Params::new();
        p.text("requestId", request_id);
        assert(p@ =~= seq![("requestId"@, text_param(request_id@))]);
        self.command("Network.getResponseBody", p)
    }

    /// Asks for the element behind an object.
    pub fn request_node(&self, object_id: &str) -> (c: Command)
        ensures
            c@ == command(
                Some(self@.session_id),
                "DOM.requestNode"@,
                seq![("objectId"@, text_param(object_id@))],
            ),
    {
        let mut p = Params::new();
        p.text("objectId", object_id);
        assert(p@ =~= seq![("objectId"@, text_param(object_id@))]);
        self.command("DOM.requestNode", p)
    }

    /// Asks for an object's own properties.
    pub fn get_properties(&self, object_id: &str) -> (c: Command)
        ensures
            c@ == command(
                Some(self@.session_id),
                "Runtime.getProperties"@,
                seq![
                    ("objectId"@, text_param(object_id@)),
                    ("ownProperties"@, flag_param(true)),
                ],
            ),
    {
        let mut p = Params::new();
        p.text("objectId", object_id);
        p.flag("ownProperties", true);
        assert(
            p@ =~= seq![
                ("objectId"@, text_param(object_id@)),
                ("ownProperties"@, flag_param(true)),
            ]
        );
        self.command("Runtime.getProperties", p)
    }

    /// Evaluates an expression.
    fn evaluate_impl(
        &self,
        expression: &str,
        return_by_value: bool,
        object_group: Option<&str>,
        await_promise: bool,
    ) -> (c: Command)
        ensures
            c@ == command(
                Some(self@.session_id),
                "Runtime.evaluate"@,
                seq![("expression"@, text_param(expression@))]
                    + opt_text_param("objectGroup"@, opt_str_view(object_group))
                    + seq![
                    ("returnByValue"@, flag_param(return_by_value)),
                    ("awaitPromise"@, flag_param(await_promise)),
                ],
            ),
    {
        let mut p = Params::new();
        p.text("expression", expression);
        p.opt_text("objectGroup", object_group);
        p.flag("returnByValue", return_by_value);
        p.flag("awaitPromise", await_promise);
        assert(
            p@ =~= seq![("expression"@, text_param(expression@))]
                + opt_text_param("objectGroup"@, opt_str_view(object_group))
                + seq![
                ("returnByValue"@, flag_param(return_by_value)),
                ("awaitPromise"@, flag_param(await_promise)),
            ]
        );
        self.command("Runtime.evaluate", p)
    }

    /// Evaluates an expression, waits for a promise, and asks for the value.
    pub fn evaluate(&self, expression: &str) -> (c: Command)
        ensures
            c@ == evaluation(self@.session_id, expression@, true, None, true),
    {
        self.evaluate_impl(expression, true, None, true)
    }

    /// Evaluates an expression without waiting for a promise, and asks for the
    /// value.
    pub fn evaluate_sync(&self, expression: &str) -> (c: Command)
        ensures
            c@ == evaluation(self@.session_id, expression@, true, None, false),
    {
        self.evaluate_impl(expression, true, None, false)
    }

    /// Evaluates an expression and asks for the object.
    pub fn evaluate_for_remote_object(&self, expression: &str) -> (c: Command)
        ensures
            c@ == evaluation(self@.session_id, expression@, false, Some("eoka"@), true),
    {
        self.evaluate_impl(expression, false, Some("eoka"), true)
    }

    /// Sends headers with every further request.
    pub fn set_extra_headers(&self, headers: TextMap) -> (c: Command)
        ensures
            c@ == command(
                Some(self@.session_id),
                "Network.setExtraHTTPHeaders"@,
                seq![("headers"@, ParamView::Table(headers@))],
            ),
    {
        let ghost h = headers@;
        let mut p = Params::new();
        p.add("headers", Param::Table(headers));
        assert(p@ =~= seq![("headers"@, ParamView::Table(h))]);
        self.command("Network.setExtraHTTPHeaders", p)
    }

    /// Sends no more headers of its own with further requests.
    pub fn clear_extra_headers(&self) -> (c: Command)
        ensures
            c@ == command(
                Some(self@.session_id),
                "Network.setExtraHTTPHeaders"@,
                seq![("headers"@, ParamView::Table(Seq::empty()))],
            ),
    {
        self.set_extra_headers(TextMap::new())
    }

    /// Sets cookies.
    pub fn set_cookies(&self, cookies: &Vec<NetworkSetCookie>) -> (c: Command)
        ensures
            c@ == command(
                Some(self@.session_id),
                "Network.setCookies"@,
                seq![("cookies"@, ParamView::Records(cookie_records(cookies@)))],
            ),
    {
        let mut p = Params::new();
        p.add("cookies", cookies_param(cookies));
        assert(p@ =~= seq![("cookies"@, ParamView::Records(cookie_records(cookies@)))]);
        self.command("Network.setCookies", p)
    }

    /// Asks for cookies, those for the given URLs where there are any.
    pub fn get_cookies(&self, urls: Option<Vec<String>>) -> (c: Command)
        ensures
            c@ == command(
                Some(self@.session_id),
                "Network.getCookies"@,
                match urls {
                    Some(us) => seq![("urls"@, ParamView::Texts(string_views(us@)))],
                    None => Seq::empty(),
                },
            ),
    {
        let mut p = Params::new();
        match urls {
            Some(us) => {
                let ghost v = string_views(us@);
                p.add("urls", Param::Texts(us));
                assert(p@ =~= seq![("urls"@, ParamView::Texts(v))]);
            },
            None => {},
        }
        self.command("Network.getCookies", p)
    }

    /// Stops every request, with the challenges of proxies where `handle_auth_requests`
    /// says so.
    pub fn fetch_enable(&self, handle_auth_requests: bool) -> (c: Command)
        ensures
            c@ == command(
                Some(self@.session_id),
                "Fetch.enable"@,
                seq![("handleAuthRequests"@, flag_param(handle_auth_requests))],
            ),
    {
        let none: Vec<RequestPattern> = Vec::new();
        let c = self.fetch_enable_interception(&none, handle_auth_requests);
        assert(c@.params =~= seq![("handleAuthRequests"@, flag_param(handle_auth_requests))]);
        c
    }

    /// Stops requests that match one of the patterns, or every one where there is
    /// no pattern.
    pub fn fetch_enable_interception(&self, patterns: &Vec<RequestPattern>, handle_auth: bool) -> (c:
        Command)
        ensures
            c@ == command(
                Some(self@.session_id),
                "Fetch.enable"@,
                (if patterns@.len() > 0 {
                    seq![("patterns"@, ParamView::Records(pattern_records(patterns@)))]
                } else {
                    Seq::empty()
                }).push(("handleAuthRequests"@, flag_param(handle_auth))),
            ),
            forall|value: Option<JsonView>| #[trigger]
                holds_params(value, c@.params) ==> stops_what_is_asked(
                    value->0,
                    patterns@,
                    handle_auth,
                ),
    {
        let mut p = Params::new();
        if patterns.len() > 0 {
            p.add("patterns", patterns_param(patterns));
            assert(p@ =~= seq![("patterns"@, ParamView::Records(pattern_records(patterns@)))]);
        }
        p.flag("handleAuthRequests", handle_auth);
        let c = self.command("Fetch.enable", p);
        proof {
            let params = c@.params;
            assert forall|value: Option<JsonView>| #[trigger]
                holds_params(value, params) implies stops_what_is_asked(
                value->0,
                patterns@,
                handle_auth,
            ) by {
                lemma_interception(value, patterns@, handle_auth);
            }
        }
        c
    }

    /// Lets a stopped request go on, changed where something is given.
    pub fn fetch_continue(
        &self,
        request_id: &str,
        url: Option<&str>,
        method: Option<&str>,
        headers: Option<Vec<FetchHeaderEntry>>,
        post_data: Option<&str>,
    ) -> (c: Command)
        ensures
            c@ == command(
                Some(self@.session_id),
                "Fetch.continueRequest"@,
                seq![("requestId"@, text_param(request_id@))] + opt_text_param(
                    "url"@,
                    opt_str_view(url),
                ) + opt_text_param("method"@, opt_str_view(method)) + opt_text_param(
                    "postData"@,
                    opt_str_view(post_data),
                ) + opt_headers_param("headers"@, headers),
            ),
    {
        let mut p = Params::new();
        p.text("requestId", request_id);
        assert(p@ =~= seq![("requestId"@, text_param(request_id@))]);
        p.opt_text("url", url);
        p.opt_text("method", method);
        p.opt_text("postData", post_data);
        add_headers(&mut p, "headers", &headers);
        self.command("Fetch.continueRequest", p)
    }

    /// Answers a stopped request. The body goes as base64.
    pub fn fetch_fulfill(
        &self,
        request_id: &str,
        status_code: u16,
        headers: Option<Vec<FetchHeaderEntry>>,
        body: Option<&str>,
    ) -> (c: Command)
        ensures
            c@ == command(
                Some(self@.session_id),
                "Fetch.fulfillRequest"@,
                seq![
                    ("requestId"@, text_param(request_id@)),
                    ("responseCode"@, int_param(status_code as i64)),
                ] + opt_headers_param("responseHeaders"@, headers) + opt_text_param(
                    "body"@,
                    encoded_body(opt_str_view(body)),
                ),
            ),
            body matches Some(text) ==> decodes_to(
                encoded_body(Some(text@))->0,
                vstd::utf8::encode_utf8(text@),
            ),
    {
        let mut p = Params::new();
        p.text("requestId", request_id);
        p.whole("responseCode", status_code as i64);
        assert(p@ =~= seq![
            ("requestId"@, text_param(request_id@)),
            ("responseCode"@, int_param(status_code as i64)),
        ]);
        add_headers(&mut p, "responseHeaders", &headers);
        let encoded: Option<String> = match body {
            Some(text) => Some(encode_base64(text.as_bytes())),
            None => None,
        };
        p.opt_text("body", borrowed(&encoded));
        self.command("Fetch.fulfillRequest", p)
    }

    /// What to do to go to the entry at `offset` from the current one: nothing,
    /// where there is none.
    pub fn navigate_history(
        &self,
        current_index: i32,
        entries: &Vec<NavigationEntry>,
        offset: i32,
    ) -> (r: Option<Command>)
        ensures
            match r {
                Some(c) => history_target(current_index as int, entries@, offset as int) matches Some(id) && c@
                    == command(
                    Some(self@.session_id),
                    "Page.navigateToHistoryEntry"@,
                    seq![("entryId"@, int_param(id as i64))],
                ),
                None => history_target(current_index as int, entries@, offset as int) is None,
            },
    {
        let at: i64 = current_index as i64 + offset as i64;
        if at < 0 {
            return None;
        }
        if at as u64 >= entries.len() as u64 {
            return None;
        }
        Some(self.navigate_to_history_entry(entries[at as usize].id))
    }

    /// What to do to go back.
    pub fn go_back(&self, current_index: i32, entries: &Vec<NavigationEntry>) -> (r: Option<Command>)
        ensures
            match r {
                Some(c) => history_target(current_index as int, entries@, -1) matches Some(id) && c@
                    == command(
                    Some(self@.session_id),
                    "Page.navigateToHistoryEntry"@,
                    seq![("entryId"@, int_param(id as i64))],
                ),
                None => history_target(current_index as int, entries@, -1) is None,
            },
    {
        self.navigate_history(current_index, entries, -1)
    }

    /// What to do to go forward.
    pub fn go_forward(&self, current_index: i32, entries: &Vec<NavigationEntry>) -> (r: Option<
        Command,
    >)
        ensures
            match r {
                Some(c) => history_target(current_index as int, entries@, 1) matches Some(id) && c@
                    == command(
                    Some(self@.session_id),
                    "Page.navigateToHistoryEntry"@,
                    seq![("entryId"@, int_param(id as i64))],
                ),
                None => history_target(current_index as int, entries@, 1) is None,
            },
    {
        self.navigate_history(current_index, entries, 1)
    }

    /// Asks for a picture of the page. A quality above one hundred counts as that.
    pub fn capture_screenshot(&self, format: Option<&str>, quality: Option<u8>) -> (c: Command)
        ensures
            c@ == command(
                Some(self@.session_id),
                "Page.captureScreenshot"@,
                opt_text_param("format"@, opt_str_view(format)) + opt_int_param(
                    "quality"@,
                    match quality {
                        Some(q) => Some(
                            if q > 100 {
                                100i64
                            } else {
                                q as i64
                            },
                        ),
                        None => None,
                    },
                ),
            ),
    {
        let mut p = Params::new();
        p.opt_text("format", format);
        let limited: Option<i64> = match quality {
            Some(q) => Some(
                if q > 100 {
                    100
                } else {
                    q as i64
                },
            ),
            None => None,
        };
        p.opt_whole("quality", limited);
        assert(p@ =~= opt_text_param("format"@, opt_str_view(format)) + opt_int_param(
            "quality"@,
            limited,
        ));
        self.command("Page.captureScreenshot", p)
    }

    /// Lets the mouse do something.
    pub fn dispatch_mouse_event_full(&self, event: &InputDispatchMouseEvent) -> (c: Command)
        ensures
            c@ == command(
                Some(self@.session_id),
                "Input.dispatchMouseEvent"@,
                mouse_params(
                    event.event_type,
                    (event.x@, event.y@),
                    event.button,
                    event.click_count,
                    (opt_view(event.delta_x), opt_view(event.delta_y)),
                ),
            ),
    {
        let mut p = Params::new();
        p.text("type", event.event_type.name());
        p.number("x", event.x.as_str());
        p.number("y", event.y.as_str());
        assert(p@ =~= seq![
            ("type"@, text_param(event.event_type.word())),
            ("x"@, ParamView::One(ScalarView::Number(event.x@))),
            ("y"@, ParamView::One(ScalarView::Number(event.y@))),
        ]);
        let button: Option<&str> = match event.button {
            Some(b) => Some(b.name()),
            None => None,
        };
        p.opt_text("button", button);
        p.opt_whole("clickCount", wide_i32(event.click_count));
        p.opt_number("deltaX", borrowed(&event.delta_x));
        p.opt_number("deltaY", borrowed(&event.delta_y));
        self.command("Input.dispatchMouseEvent", p)
    }

    /// Presses, releases or moves the mouse.
    pub fn dispatch_mouse_event(
        &self,
        event_type: MouseEventType,
        x: &str,
        y: &str,
        button: Option<MouseButton>,
        click_count: Option<i32>,
    ) -> (c: Command)
        ensures
            c@ == command(
                Some(self@.session_id),
                "Input.dispatchMouseEvent"@,
                mouse_params(event_type, (x@, y@), button, click_count, (None, None)),
            ),
    {
        let event = InputDispatchMouseEvent {
            event_type,
            x: x.to_string(),
            y: y.to_string(),
            button,
            click_count,
            delta_x: None,
            delta_y: None,
        };
        self.dispatch_mouse_event_full(&event)
    }

    /// Turns the mouse wheel.
    pub fn dispatch_mouse_wheel(&self, x: &str, y: &str, delta_x: &str, delta_y: &str) -> (c:
        Command)
        ensures
            c@ == command(
                Some(self@.session_id),
                "Input.dispatchMouseEvent"@,
                mouse_params(
                    MouseEventType::MouseWheel,
                    (x@, y@),
                    None,
                    None,
                    (Some(delta_x@), Some(delta_y@)),
                ),
            ),
    {
        let event = InputDispatchMouseEvent {
            event_type: MouseEventType::MouseWheel,
            x: x.to_string(),
            y: y.to_string(),
            button: None,
            click_count: None,
            delta_x: Some(delta_x.to_string()),
            delta_y: Some(delta_y.to_string()),
        };
        self.dispatch_mouse_event_full(&event)
    }

    /// Lets a key do something, with modifiers held.
    pub fn dispatch_key_event_full(&self, event: &InputDispatchKeyEventFull) -> (c: Command)
        ensures
            c@ == command(Some(self@.session_id), "Input.dispatchKeyEvent"@, key_params(*event)),
            forall|value: Option<JsonView>| #[trigger]
                holds_params(value, c@.params) ==> {
                    &&& event.event_type == KeyEventType::KeyDown ==> member_text(
                        value->0,
                        "type"@,
                    ) == Some("keyDown"@)
                    &&& event.event_type == KeyEventType::KeyUp ==> member_text(
                        value->0,
                        "type"@,
                    ) == Some("keyUp"@)
                },
    {
        proof {
            let params = key_params(*event);
            assert forall|value: Option<JsonView>| #[trigger]
                holds_params(value, params) implies {
                &&& event.event_type == KeyEventType::KeyDown ==> member_text(value->0, "type"@)
                    == Some("keyDown"@)
                &&& event.event_type == KeyEventType::KeyUp ==> member_text(value->0, "type"@)
                    == Some("keyUp"@)
            } by {
                law_key_event_is_told(value, *event);
            }
        }
        let mut p = Params::new();
        p.text("type", event.event_type.name());
        assert(p@ =~= seq![("type"@, text_param(event.event_type.word()))]);
        p.opt_whole("modifiers", wide_i32(event.modifiers));
        p.opt_text("text", borrowed(&event.text));
        p.opt_text("key", borrowed(&event.key));
        p.opt_text("code", borrowed(&event.code));
        p.opt_whole("windowsVirtualKeyCode", wide_i32(event.windows_virtual_key_code));
        p.opt_whole("nativeVirtualKeyCode", wide_i32(event.native_virtual_key_code));
        self.command("Input.dispatchKeyEvent", p)
    }

    /// Puts files into a file field.
    pub fn set_file_input_files(&self, node_id: i32, files: Vec<String>) -> (c: Command)
        ensures
            c@ == command(
                Some(self@.session_id),
                "DOM.setFileInputFiles"@,
                seq![
                    ("files"@, ParamView::Texts(string_views(files@))),
                    ("nodeId"@, int_param(node_id as i64)),
                ],
            ),
    {
        let ghost v = string_views(files@);
        let mut p = Params::new();
        p.add("files", Param::Texts(files));
        p.whole("nodeId", node_id as i64);
        assert(p@ =~= seq![
            ("files"@, ParamView::Texts(v)),
            ("nodeId"@, int_param(node_id as i64)),
        ]);
        self.command("DOM.setFileInputFiles", p)
    }
}

/// The command that evaluates an expression.
pub open spec fn evaluation(
    session_id: Seq<char>,
    expression: Seq<char>,
    return_by_value: bool,
    object_group: Option<Seq<char>>,
    await_promise: bool,
) -> CommandView {
    command(
        Some(session_id),
        "Runtime.evaluate"@,
        seq![("expression"@, text_param(expression))] + opt_text_param("objectGroup"@, object_group)
            + seq![
            ("returnByValue"@, flag_param(return_by_value)),
            ("awaitPromise"@, flag_param(await_promise)),
        ],
    )
}

/// The picture that the browser sent.
pub fn decode_screenshot(data: &str) -> (r: Result<Vec<u8>, Error>)
    ensures
        match r {
            Ok(bytes) => base64_bytes(data@) == Ok::<Seq<u8>, Seq<char>>(bytes@),
            Err(e) => base64_bytes(data@) matches Err(m) && e@ == ErrorView::Decode(m),
        },
{
    decoded_or_error(decode_base64(data))
}

/// The id of the object behind an element, which the browser should have sent.
pub fn resolved_object(object_id: Option<String>) -> (r: Result<String, Error>)
    ensures
        match object_id {
            Some(id) => r matches Ok(got) && got@ == id@,
            None => r matches Err(e) && e@ == (ErrorView::Cdp {
                method: "DOM.resolveNode"@,
                code: -1i64,
                message: "No object_id returned"@,
            }),
        },
{
    match object_id {
        Some(id) => Ok(id),
        None => Err(Error::cdp("DOM.resolveNode", -1, "No object_id returned")),
    }
}

/// Going back and then forward leads to where it began.
pub proof fn law_back_and_forward(current_index: int, entries: Seq<NavigationEntry>)
    requires
        0 < current_index < entries.len(),
    ensures
        history_target(current_index, entries, -1) == Some(entries[current_index - 1].id),
        history_target(current_index - 1, entries, 1) == Some(entries[current_index].id),
{
}

/// A string that may be missing, as a part of a command's data.
spec fn opt_part_text(text: Option<Seq<char>>) -> Option<ParamView> {
    match text {
        Some(t) => Some(text_param(t)),
        None => None,
    }
}

/// A whole number that may be missing, as a part of a command's data.
spec fn opt_part_int(n: Option<i64>) -> Option<ParamView> {
    match n {
        Some(n) => Some(int_param(n)),
        None => None,
    }
}

/// A number that may be missing, as a part of a command's data.
spec fn opt_part_number(n: Option<Seq<char>>) -> Option<ParamView> {
    match n {
        Some(t) => Some(ParamView::One(ScalarView::Number(t))),
        None => None,
    }
}

/// The protocol's word for a button that may be missing.
spec fn button_word(button: Option<MouseButton>) -> Option<Seq<char>> {
    match button {
        Some(b) => Some(b.word()),
        None => None,
    }
}

/// The parts of a key event's data, with those that are missing.
spec fn key_pieces(
    e: InputDispatchKeyEventFull,
) -> Seq<(Seq<char>, Option<ParamView>)> {
    seq![
        ("type"@, Some(text_param(e.event_type.word()))),
        ("modifiers"@, opt_part_int(wide_i32_spec(e.modifiers))),
        ("text"@, opt_part_text(opt_view(e.text))),
        ("key"@, opt_part_text(opt_view(e.key))),
        ("code"@, opt_part_text(opt_view(e.code))),
        ("windowsVirtualKeyCode"@, opt_part_int(wide_i32_spec(e.windows_virtual_key_code))),
        ("nativeVirtualKeyCode"@, opt_part_int(wide_i32_spec(e.native_virtual_key_code))),
    ]
}

proof fn lemma_key_pieces_apart(
    e: InputDispatchKeyEventFull,
)
    ensures
        pieces_apart(key_pieces(e)),
{
    reveal_strlit("type");
    reveal_strlit("modifiers");
    reveal_strlit("text");
    reveal_strlit("key");
    reveal_strlit("code");
    reveal_strlit("windowsVirtualKeyCode");
    reveal_strlit("nativeVirtualKeyCode");
    assert("type"@.len() == 4 && "modifiers"@.len() == 9 && "text"@.len() == 4 && "key"@.len() == 3);
    assert("code"@.len() == 4 && "windowsVirtualKeyCode"@.len() == 21);
    assert("nativeVirtualKeyCode"@.len() == 20);
    assert("type"@[1] != "text"@[1]);
    assert("type"@[0] != "code"@[0] && "text"@[0] != "code"@[0]);
}

proof fn lemma_key_params(
    e: InputDispatchKeyEventFull,
)
    ensures
        key_params(e) == given(key_pieces(e), 7),
{
    let pieces = key_pieces(e);
    assert(given(pieces, 0) =~= Seq::empty());
    assert(given(pieces, 1) == given(pieces, 0) + maybe(pieces[0]));
    assert(given(pieces, 1) =~= seq![
        ("type"@, text_param(e.event_type.word())),
    ]);
    assert(maybe(pieces[1]) == opt_int_param("modifiers"@, wide_i32_spec(e.modifiers)));
    assert(given(pieces, 2) == given(pieces, 1) + maybe(pieces[1]));
    assert(maybe(pieces[2]) == opt_text_param("text"@, opt_view(e.text)));
    assert(given(pieces, 3) == given(pieces, 2) + maybe(pieces[2]));
    assert(maybe(pieces[3]) == opt_text_param("key"@, opt_view(e.key)));
    assert(given(pieces, 4) == given(pieces, 3) + maybe(pieces[3]));
    assert(maybe(pieces[4]) == opt_text_param("code"@, opt_view(e.code)));
    assert(given(pieces, 5) == given(pieces, 4) + maybe(pieces[4]));
    assert(maybe(pieces[5]) == opt_int_param("windowsVirtualKeyCode"@, wide_i32_spec(e.windows_virtual_key_code)));
    assert(given(pieces, 6) == given(pieces, 5) + maybe(pieces[5]));
    assert(maybe(pieces[6]) == opt_int_param("nativeVirtualKeyCode"@, wide_i32_spec(e.native_virtual_key_code)));
    assert(given(pieces, 7) == given(pieces, 6) + maybe(pieces[6]));
}

/// What the browser reads of a key event: what the key does, in the protocol's own
/// words, and each part that is given, under its own name.
pub proof fn law_key_event_is_told(value: Option<JsonView>, e: InputDispatchKeyEventFull)
    requires
        holds_params(value, key_params(e)),
    ensures
        value matches Some(back) && {
            &&& e.event_type == KeyEventType::KeyDown ==> member_text(back, "type"@) == Some(
                "keyDown"@,
            )
            &&& e.event_type == KeyEventType::KeyUp ==> member_text(back, "type"@) == Some(
                "keyUp"@,
            )
            &&& e.event_type == KeyEventType::RawKeyDown ==> member_text(back, "type"@) == Some(
                "rawKeyDown"@,
            )
            &&& e.event_type == KeyEventType::Char ==> member_text(back, "type"@) == Some("char"@)
            &&& holds_number(back, "modifiers"@, wide_i32_spec(e.modifiers))
            &&& holds_text(back, "text"@, opt_view(e.text))
            &&& holds_text(back, "key"@, opt_view(e.key))
            &&& holds_text(back, "code"@, opt_view(e.code))
            &&& holds_number(
                back,
                "windowsVirtualKeyCode"@,
                wide_i32_spec(e.windows_virtual_key_code),
            )
            &&& holds_number(
                back,
                "nativeVirtualKeyCode"@,
                wide_i32_spec(e.native_virtual_key_code),
            )
        },
{
    let pieces = key_pieces(e);
    lemma_key_pieces_apart(e);
    lemma_key_params(e);
    lemma_given(pieces, 7);
    lemma_params_told(value, given(pieces, 7));
    assert(named(given(pieces, 7), pieces[0].0) == pieces[0].1);
    assert(named(given(pieces, 7), pieces[1].0) == pieces[1].1);
    assert(named(given(pieces, 7), pieces[2].0) == pieces[2].1);
    assert(named(given(pieces, 7), pieces[3].0) == pieces[3].1);
    assert(named(given(pieces, 7), pieces[4].0) == pieces[4].1);
    assert(named(given(pieces, 7), pieces[5].0) == pieces[5].1);
    assert(named(given(pieces, 7), pieces[6].0) == pieces[6].1);
}

/// The parts of a mouse event's data, with those that are missing.
spec fn mouse_pieces(
    event_type: MouseEventType,
    place: (Seq<char>, Seq<char>),
    button: Option<MouseButton>,
    click_count: Option<i32>,
    delta: (Option<Seq<char>>, Option<Seq<char>>),
) -> Seq<(Seq<char>, Option<ParamView>)> {
    seq![
        ("type"@, Some(text_param(event_type.word()))),
        ("x"@, Some(ParamView::One(ScalarView::Number(place.0)))),
        ("y"@, Some(ParamView::One(ScalarView::Number(place.1)))),
        ("button"@, opt_part_text(button_word(button))),
        ("clickCount"@, opt_part_int(wide_i32_spec(click_count))),
        ("deltaX"@, opt_part_number(delta.0)),
        ("deltaY"@, opt_part_number(delta.1)),
    ]
}

proof fn lemma_mouse_pieces_apart(
    event_type: MouseEventType,
    place: (Seq<char>, Seq<char>),
    button: Option<MouseButton>,
    click_count: Option<i32>,
    delta: (Option<Seq<char>>, Option<Seq<char>>),
)
    ensures
        pieces_apart(mouse_pieces(event_type, place, button, click_count, delta)),
{
    reveal_strlit("type");
    reveal_strlit("x");
    reveal_strlit("y");
    reveal_strlit("button");
    reveal_strlit("clickCount");
    reveal_strlit("deltaX");
    reveal_strlit("deltaY");
    assert("type"@.len() == 4 && "x"@.len() == 1 && "y"@.len() == 1 && "button"@.len() == 6);
    assert("clickCount"@.len() == 10 && "deltaX"@.len() == 6 && "deltaY"@.len() == 6);
    assert("x"@[0] != "y"@[0]);
    assert("button"@[0] != "deltaX"@[0] && "button"@[0] != "deltaY"@[0]);
    assert("deltaX"@[5] != "deltaY"@[5]);
}

proof fn lemma_mouse_params(
    event_type: MouseEventType,
    place: (Seq<char>, Seq<char>),
    button: Option<MouseButton>,
    click_count: Option<i32>,
    delta: (Option<Seq<char>>, Option<Seq<char>>),
)
    ensures
        mouse_params(event_type, place, button, click_count, delta) == given(mouse_pieces(event_type, place, button, click_count, delta), 7),
{
    let pieces = mouse_pieces(event_type, place, button, click_count, delta);
    assert(given(pieces, 0) =~= Seq::empty());
    assert(given(pieces, 1) == given(pieces, 0) + maybe(pieces[0]));
    assert(given(pieces, 2) == given(pieces, 1) + maybe(pieces[1]));
    assert(given(pieces, 3) == given(pieces, 2) + maybe(pieces[2]));
    assert(given(pieces, 3) =~= seq![
        ("type"@, text_param(event_type.word())),
        ("x"@, ParamView::One(ScalarView::Number(place.0))),
        ("y"@, ParamView::One(ScalarView::Number(place.1))),
    ]);
    assert(maybe(pieces[3]) == opt_text_param("button"@, button_word(button)));
    assert(given(pieces, 4) == given(pieces, 3) + maybe(pieces[3]));
    assert(maybe(pieces[4]) == opt_int_param("clickCount"@, wide_i32_spec(click_count)));
    assert(given(pieces, 5) == given(pieces, 4) + maybe(pieces[4]));
    assert(maybe(pieces[5]) == opt_number_param("deltaX"@, delta.0));
    assert(given(pieces, 6) == given(pieces, 5) + maybe(pieces[5]));
    assert(maybe(pieces[6]) == opt_number_param("deltaY"@, delta.1));
    assert(given(pieces, 7) == given(pieces, 6) + maybe(pieces[6]));
}

/// What the browser reads of a mouse event: what the mouse does and with which
/// button, in the protocol's own words, where, and each other part that is given,
/// under its own name.
pub proof fn law_mouse_event_is_told(
    value: Option<JsonView>,
    event_type: MouseEventType,
    place: (Seq<char>, Seq<char>),
    button: Option<MouseButton>,
    click_count: Option<i32>,
    delta: (Option<Seq<char>>, Option<Seq<char>>),
)
    requires
        holds_params(value, mouse_params(event_type, place, button, click_count, delta)),
    ensures
        value matches Some(back) && {
            &&& event_type == MouseEventType::MousePressed ==> member_text(back, "type"@) == Some(
                "mousePressed"@,
            )
            &&& event_type == MouseEventType::MouseReleased ==> member_text(back, "type"@) == Some(
                "mouseReleased"@,
            )
            &&& event_type == MouseEventType::MouseMoved ==> member_text(back, "type"@) == Some(
                "mouseMoved"@,
            )
            &&& event_type == MouseEventType::MouseWheel ==> member_text(back, "type"@) == Some(
                "mouseWheel"@,
            )
            &&& holds_json(back, "x"@, Some(place.0))
            &&& holds_json(back, "y"@, Some(place.1))
            &&& button == Some(MouseButton::Left) ==> member_text(back, "button"@) == Some("left"@)
            &&& button == Some(MouseButton::Middle) ==> member_text(back, "button"@) == Some(
                "middle"@,
            )
            &&& button == Some(MouseButton::Right) ==> member_text(back, "button"@) == Some(
                "right"@,
            )
            &&& button is None ==> back.member("button"@) is None
            &&& holds_number(back, "clickCount"@, wide_i32_spec(click_count))
            &&& holds_json(back, "deltaX"@, delta.0)
            &&& holds_json(back, "deltaY"@, delta.1)
        },
{
    let pieces = mouse_pieces(event_type, place, button, click_count, delta);
    lemma_mouse_pieces_apart(event_type, place, button, click_count, delta);
    lemma_mouse_params(event_type, place, button, click_count, delta);
    lemma_given(pieces, 7);
    lemma_params_told(value, given(pieces, 7));
    assert(named(given(pieces, 7), pieces[0].0) == pieces[0].1);
    assert(named(given(pieces, 7), pieces[1].0) == pieces[1].1);
    assert(named(given(pieces, 7), pieces[2].0) == pieces[2].1);
    assert(named(given(pieces, 7), pieces[3].0) == pieces[3].1);
    assert(named(given(pieces, 7), pieces[4].0) == pieces[4].1);
    assert(named(given(pieces, 7), pieces[5].0) == pieces[5].1);
    assert(named(given(pieces, 7), pieces[6].0) == pieces[6].1);
}

/// What the browser reads of a list of patterns: each of them in its place, with each
/// part that is given under its own name, and nothing of what is not.
pub proof fn law_patterns_are_told(value: Option<JsonView>, patterns: Seq<RequestPattern>)
    requires
        holds_param(value, ParamView::Records(pattern_records(patterns))),
    ensures
        value matches Some(JsonView::Array(items)) && items.len() == patterns.len() && forall|i: int|
            0 <= i < items.len() ==> (json_value(#[trigger] items[i]) matches Some(p) && {
                    &&& holds_text(p, "urlPattern"@, opt_view(patterns[i].url_pattern))
                    &&& holds_text(p, "resourceType"@, opt_view(patterns[i].resource_type))
                    &&& holds_text(p, "requestStage"@, opt_view(patterns[i].request_stage))
                }),
{
    let items = value->0->Array_0;
    assert forall|i: int| 0 <= i < items.len() implies (json_value(#[trigger] items[i]) matches Some(
        p,
    ) && {
                    &&& holds_text(p, "urlPattern"@, opt_view(patterns[i].url_pattern))
                    &&& holds_text(p, "resourceType"@, opt_view(patterns[i].resource_type))
                    &&& holds_text(p, "requestStage"@, opt_view(patterns[i].request_stage))
                }) by {
        assert(holds_record(items[i], pattern_records(patterns)[i]));
        law_pattern_is_told(items[i], patterns[i]);
    }
}

/// What the browser reads of a list of headers: each of them in its place, with each
/// part that is given under its own name, and nothing of what is not.
pub proof fn law_headers_are_told(value: Option<JsonView>, headers: Seq<FetchHeaderEntry>)
    requires
        holds_param(value, ParamView::Records(header_records(headers))),
    ensures
        value matches Some(JsonView::Array(items)) && items.len() == headers.len() && forall|i: int|
            0 <= i < items.len() ==> (json_value(#[trigger] items[i]) matches Some(p) && {
                    &&& holds_text(p, "name"@, Some(headers[i].name@))
                    &&& holds_text(p, "value"@, Some(headers[i].value@))
                }),
{
    let items = value->0->Array_0;
    assert forall|i: int| 0 <= i < items.len() implies (json_value(#[trigger] items[i]) matches Some(
        p,
    ) && {
                    &&& holds_text(p, "name"@, Some(headers[i].name@))
                    &&& holds_text(p, "value"@, Some(headers[i].value@))
                }) by {
        assert(holds_record(items[i], header_records(headers)[i]));
        law_header_is_told(items[i], headers[i]);
    }
}

/// What the browser reads of a list of cookies: each of them in its place, with each
/// part that is given under its own name, and nothing of what is not.
pub proof fn law_cookies_are_told(value: Option<JsonView>, cookies: Seq<NetworkSetCookie>)
    requires
        holds_param(value, ParamView::Records(cookie_records(cookies))),
    ensures
        value matches Some(JsonView::Array(items)) && items.len() == cookies.len() && forall|i: int|
            0 <= i < items.len() ==> (json_value(#[trigger] items[i]) matches Some(p) && {
                    &&& holds_text(p, "name"@, Some(cookies[i].name@))
                    &&& holds_text(p, "value"@, Some(cookies[i].value@))
                    &&& holds_text(p, "url"@, opt_view(cookies[i].url))
                    &&& holds_text(p, "domain"@, opt_view(cookies[i].domain))
                    &&& holds_text(p, "path"@, opt_view(cookies[i].path))
                    &&& holds_flag(p, "secure"@, cookies[i].secure)
                    &&& holds_flag(p, "httpOnly"@, cookies[i].http_only)
                    &&& holds_text(p, "sameSite"@, opt_view(cookies[i].same_site))
                    &&& holds_json(p, "expires"@, opt_view(cookies[i].expires))
                }),
{
    let items = value->0->Array_0;
    assert forall|i: int| 0 <= i < items.len() implies (json_value(#[trigger] items[i]) matches Some(
        p,
    ) && {
                    &&& holds_text(p, "name"@, Some(cookies[i].name@))
                    &&& holds_text(p, "value"@, Some(cookies[i].value@))
                    &&& holds_text(p, "url"@, opt_view(cookies[i].url))
                    &&& holds_text(p, "domain"@, opt_view(cookies[i].domain))
                    &&& holds_text(p, "path"@, opt_view(cookies[i].path))
                    &&& holds_flag(p, "secure"@, cookies[i].secure)
                    &&& holds_flag(p, "httpOnly"@, cookies[i].http_only)
                    &&& holds_text(p, "sameSite"@, opt_view(cookies[i].same_site))
                    &&& holds_json(p, "expires"@, opt_view(cookies[i].expires))
                }) by {
        assert(holds_record(items[i], cookie_records(cookies)[i]));
        law_cookie_is_told(items[i], cookies[i]);
    }
}

/// What the browser reads of an evaluation: the expression, the group of its result
/// where there is one, whether it wants the value, and whether it waits for a promise.
pub proof fn law_evaluation_is_told(
    value: Option<JsonView>,
    session_id: Seq<char>,
    expression: Seq<char>,
    return_by_value: bool,
    object_group: Option<Seq<char>>,
    await_promise: bool,
)
    requires
        holds_params(
            value,
            evaluation(
                session_id,
                expression,
                return_by_value,
                object_group,
                await_promise,
            ).params,
        ),
    ensures
        evaluation(
            session_id,
            expression,
            return_by_value,
            object_group,
            await_promise,
        ).method == "Runtime.evaluate"@,
        evaluation(
            session_id,
            expression,
            return_by_value,
            object_group,
            await_promise,
        ).session_id == Some(session_id),
        value matches Some(back) && {
            &&& holds_text(back, "expression"@, Some(expression))
            &&& holds_text(back, "objectGroup"@, object_group)
            &&& holds_flag(back, "returnByValue"@, Some(return_by_value))
            &&& holds_flag(back, "awaitPromise"@, Some(await_promise))
        },
{
    reveal_strlit("expression");
    reveal_strlit("objectGroup");
    reveal_strlit("returnByValue");
    reveal_strlit("awaitPromise");
    assert("expression"@.len() == 10 && "objectGroup"@.len() == 11);
    assert("returnByValue"@.len() == 13 && "awaitPromise"@.len() == 12);
    let pieces: Seq<(Seq<char>, Option<ParamView>)> = seq![
        ("expression"@, Some(text_param(expression))),
        ("objectGroup"@, opt_part_text(object_group)),
        ("returnByValue"@, Some(flag_param(return_by_value))),
        ("awaitPromise"@, Some(flag_param(await_promise))),
    ];
    lemma_given(pieces, 4);
    reveal_with_fuel(given, 5);
    assert(evaluation(
        session_id,
        expression,
        return_by_value,
        object_group,
        await_promise,
    ).params =~= given(pieces, 4));
    lemma_params_told(value, given(pieces, 4));
    assert(named(given(pieces, 4), pieces[0].0) == pieces[0].1);
    assert(named(given(pieces, 4), pieces[1].0) == pieces[1].1);
    assert(named(given(pieces, 4), pieces[2].0) == pieces[2].1);
    assert(named(given(pieces, 4), pieces[3].0) == pieces[3].1);
}

} // verus!
