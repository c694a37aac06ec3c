//! The protocol's vocabulary.

use vstd::prelude::*;

use crate::cdp::command::{
    field_views, given, holds_record, lemma_given, lemma_record_told, maybe, named, pieces_apart,
    Scalar, ScalarView,
};
use crate::json::{holds_flag, holds_json, holds_text, json_value};
use crate::text::opt_view;

pub mod modifiers;

verus! {

/// What a mouse does.
#[derive(Debug, Clone, Copy, PartialEq, Eq, Structural)]
pub enum MouseEventType {
    /// A button goes down.
    MousePressed,
    /// A button comes up.
    MouseReleased,
    /// The mouse moves.
    MouseMoved,
    /// The wheel turns.
    MouseWheel,
}

/// A mouse button.
#[derive(Debug, Clone, Copy, PartialEq, Eq, Structural)]
pub enum MouseButton {
    /// The left one.
    Left,
    /// The middle one.
    Middle,
    /// The right one.
    Right,
}

/// What a key does.
#[derive(Debug, Clone, Copy, PartialEq, Eq, Structural)]
pub enum KeyEventType {
    /// It goes down.
    KeyDown,
    /// It comes up.
    KeyUp,
    /// It goes down, without a character.
    RawKeyDown,
    /// A character comes of it.
    Char,
}

impl MouseEventType {
    /// The protocol's word for it.
    pub open spec fn word(self) -> Seq<char> {
        match self {
            MouseEventType::MousePressed => "mousePressed"@,
            MouseEventType::MouseReleased => "mouseReleased"@,
            MouseEventType::MouseMoved => "mouseMoved"@,
            MouseEventType::MouseWheel => "mouseWheel"@,
        }
    }

    /// The protocol's word for it.
    pub fn name(self) -> (r: &'static str)
        ensures
            r@ == self.word(),
    {
        match self {
            MouseEventType::MousePressed => "mousePressed",
            MouseEventType::MouseReleased => "mouseReleased",
            MouseEventType::MouseMoved => "mouseMoved",
            MouseEventType::MouseWheel => "mouseWheel",
        }
    }
}

impl MouseButton {
    /// The protocol's word for it.
    pub open spec fn word(self) -> Seq<char> {
        match self {
            MouseButton::Left => "left"@,
            MouseButton::Middle => "middle"@,
            MouseButton::Right => "right"@,
        }
    }

    /// The protocol's word for it.
    pub fn name(self) -> (r: &'static str)
        ensures
            r@ == self.word(),
    {
        match self {
            MouseButton::Left => "left",
            MouseButton::Middle => "middle",
            MouseButton::Right => "right",
        }
    }
}

impl KeyEventType {
    /// The protocol's word for it.
    pub open spec fn word(self) -> Seq<char> {
        match self {
            KeyEventType::KeyDown => "keyDown"@,
            KeyEventType::KeyUp => "keyUp"@,
            KeyEventType::RawKeyDown => "rawKeyDown"@,
            KeyEventType::Char => "char"@,
        }
    }

    /// The protocol's word for it.
    pub fn name(self) -> (r: &'static str)
        ensures
            r@ == self.word(),
    {
        match self {
            KeyEventType::KeyDown => "keyDown",
            KeyEventType::KeyUp => "keyUp",
            KeyEventType::RawKeyDown => "rawKeyDown",
            KeyEventType::Char => "char",
        }
    }
}

/// Something that the mouse does. Coordinates are JSON numbers.
pub struct InputDispatchMouseEvent {
    /// What it does.
    pub event_type: MouseEventType,
    /// Where, from the left.
    pub x: String,
    /// Where, from the top.
    pub y: String,
    /// With which button.
    pub button: Option<MouseButton>,
    /// How often in a row.
    pub click_count: Option<i32>,
    /// How far the wheel turns sideways.
    pub delta_x: Option<String>,
    /// How far the wheel turns.
    pub delta_y: Option<String>,
}

/// Something that a key does.
pub struct InputDispatchKeyEventFull {
    /// What it does.
    pub event_type: KeyEventType,
    /// The held modifiers.
    pub modifiers: Option<i32>,
    /// The text that comes of it.
    pub text: Option<String>,
    /// The key.
    pub key: Option<String>,
    /// The key's code.
    pub code: Option<String>,
    /// The key's number on Windows.
    pub windows_virtual_key_code: Option<i32>,
    /// The key's number on the machine.
    pub native_virtual_key_code: Option<i32>,
}

/// A header.
pub struct FetchHeaderEntry {
    /// Its name.
    pub name: String,
    /// Its value.
    pub value: String,
}

/// Which requests to stop.
pub struct RequestPattern {
    /// A pattern for the URL.
    pub url_pattern: Option<String>,
    /// What the request is for.
    pub resource_type: Option<String>,
    /// Before it is sent, or when its response comes.
    pub request_stage: Option<String>,
}

/// A cookie to set.
pub struct NetworkSetCookie {
    /// Its name.
    pub name: String,
    /// Its value.
    pub value: String,
    /// The URL that it is for.
    pub url: Option<String>,
    /// The domain that it is for.
    pub domain: Option<String>,
    /// The path that it is for.
    pub path: Option<String>,
    /// Whether it is sent over HTTPS only.
    pub secure: Option<bool>,
    /// Whether scripts cannot see it.
    pub http_only: Option<bool>,
    /// The policy for requests from other sites.
    pub same_site: Option<String>,
    /// When it expires, in seconds since 1970, as a JSON number.
    pub expires: Option<String>,
}

/// The field for a string that may be missing.
pub open spec fn opt_text_field(key: Seq<char>, text: Option<Seq<char>>) -> Seq<
    (Seq<char>, ScalarView),
> {
    match text {
        Some(t) => seq![(key, ScalarView::Text(t))],
        None => Seq::empty(),
    }
}

/// The field for a truth value that may be missing.
pub open spec fn opt_flag_field(key: Seq<char>, flag: Option<bool>) -> Seq<
    (Seq<char>, ScalarView),
> {
    match flag {
        Some(b) => seq![(key, ScalarView::Flag(b))],
        None => Seq::empty(),
    }
}

/// The field for a number that may be missing.
pub open spec fn opt_number_field(key: Seq<char>, n: Option<Seq<char>>) -> Seq<
    (Seq<char>, ScalarView),
> {
    match n {
        Some(t) => seq![(key, ScalarView::Number(t))],
        None => Seq::empty(),
    }
}

fn add_field(fields: &mut Vec<(String, Scalar)>, key: &str, value: Scalar)
    ensures
        field_views(final(fields)@) == field_views(old(fields)@).push((key@, value@)),
{
    let ghost before = field_views(fields@);
    let ghost v = value@;
    fields.push((key.to_string(), value));
    assert(field_views(fields@) =~= before.push((key@, v)));
}

fn add_opt_text(fields: &mut Vec<(String, Scalar)>, key: &str, text: &Option<String>)
    ensures
        field_views(final(fields)@) == field_views(old(fields)@) + opt_text_field(
            key@,
            opt_view(*text),
        ),
{
    match text {
        Some(t) => add_field(fields, key, Scalar::Text(t.clone())),
        None => {},
    }
}

fn add_opt_flag(fields: &mut Vec<(String, Scalar)>, key: &str, flag: Option<bool>)
    ensures
        field_views(final(fields)@) == field_views(old(fields)@) + opt_flag_field(key@, flag),
{
    match flag {
        Some(b) => add_field(fields, key, Scalar::Flag(b)),
        None => {},
    }
}

fn add_opt_number(fields: &mut Vec<(String, Scalar)>, key: &str, n: &Option<String>)
    ensures
        field_views(final(fields)@) == field_views(old(fields)@) + opt_number_field(
            key@,
            opt_view(*n),
        ),
{
    match n {
        Some(t) => add_field(fields, key, Scalar::Number(t.clone())),
        None => {},
    }
}

impl FetchHeaderEntry {
    /// The record for it.
    pub open spec fn record(&self) -> Seq<(Seq<char>, ScalarView)> {
        seq![
            ("name"@, ScalarView::Text(self.name@)),
            ("value"@, ScalarView::Text(self.value@)),
        ]
    }

    /// The record for it.
    pub fn fields(&self) -> (r: Vec<(String, Scalar)>)
        ensures
            field_views(r@) == self.record(),
    {
        let mut r: Vec<(String, Scalar)> = Vec::new();
        add_field(&mut r, "name", Scalar::Text(self.name.clone()));
        add_field(&mut r, "value", Scalar::Text(self.value.clone()));
        assert(field_views(r@) =~= self.record());
        r
    }
}

impl RequestPattern {
    /// The record for it.
    pub open spec fn record(&self) -> Seq<(Seq<char>, ScalarView)> {
        opt_text_field("urlPattern"@, opt_view(self.url_pattern)) + opt_text_field(
            "resourceType"@,
            opt_view(self.resource_type),
        ) + opt_text_field("requestStage"@, opt_view(self.request_stage))
    }

    /// The record for it.
    pub fn fields(&self) -> (r: Vec<(String, Scalar)>)
        ensures
            field_views(r@) == self.record(),
    {
        let mut r: Vec<(String, Scalar)> = Vec::new();
        add_opt_text(&mut r, "urlPattern", &self.url_pattern);
        add_opt_text(&mut r, "resourceType", &self.resource_type);
        add_opt_text(&mut r, "requestStage", &self.request_stage);
        assert(field_views(r@) =~= self.record());
        r
    }
}

impl NetworkSetCookie {
    /// The record for it.
    pub open spec fn record(&self) -> Seq<(Seq<char>, ScalarView)> {
        seq![
            ("name"@, ScalarView::Text(self.name@)),
            ("value"@, ScalarView::Text(self.value@)),
        ] + opt_text_field("url"@, opt_view(self.url)) + opt_text_field(
            "domain"@,
            opt_view(self.domain),
        ) + opt_text_field("path"@, opt_view(self.path)) + opt_flag_field("secure"@, self.secure)
            + opt_flag_field("httpOnly"@, self.http_only) + opt_text_field(
            "sameSite"@,
            opt_view(self.same_site),
        ) + opt_number_field("expires"@, opt_view(self.expires))
    }

    /// The record for it.
    pub fn fields(&self) -> (r: Vec<(String, Scalar)>)
        ensures
            field_views(r@) == self.record(),
    {
        let mut r: Vec<(String, Scalar)> = Vec::new();
        add_field(&mut r, "name", Scalar::Text(self.name.clone()));
        add_field(&mut r, "value", Scalar::Text(self.value.clone()));
        add_opt_text(&mut r, "url", &self.url);
        add_opt_text(&mut r, "domain", &self.domain);
        add_opt_text(&mut r, "path", &self.path);
        add_opt_flag(&mut r, "secure", self.secure);
        add_opt_flag(&mut r, "httpOnly", self.http_only);
        add_opt_text(&mut r, "sameSite", &self.same_site);
        add_opt_number(&mut r, "expires", &self.expires);
        assert(field_views(r@) =~= self.record());
        r
    }
}

/// The string of a field that may be missing.
spec fn opt_text_scalar(text: Option<Seq<char>>) -> Option<ScalarView> {
    match text {
        Some(t) => Some(ScalarView::Text(t)),
        None => None,
    }
}

/// The truth value of a field that may be missing.
spec fn opt_flag_scalar(flag: Option<bool>) -> Option<ScalarView> {
    match flag {
        Some(b) => Some(ScalarView::Flag(b)),
        None => None,
    }
}

/// The number of a field that may be missing.
spec fn opt_number_scalar(n: Option<Seq<char>>) -> Option<ScalarView> {
    match n {
        Some(t) => Some(ScalarView::Number(t)),
        None => None,
    }
}

/// What the browser reads of a header is its name and its value.
pub proof fn law_header_is_told(text: Seq<char>, header: FetchHeaderEntry)
    requires
        holds_record(text, header.record()),
    ensures
        json_value(text) matches Some(back) && {
            &&& holds_text(back, "name"@, Some(header.name@))
            &&& holds_text(back, "value"@, Some(header.value@))
        },
{
    reveal_strlit("name");
    reveal_strlit("value");
    assert("name"@.len() != "value"@.len());
    let pieces: Seq<(Seq<char>, Option<ScalarView>)> = seq![
        ("name"@, Some(ScalarView::Text(header.name@))),
        ("value"@, Some(ScalarView::Text(header.value@))),
    ];
    lemma_given(pieces, 2);
    reveal_with_fuel(given, 3);
    assert(header.record() =~= given(pieces, 2));
    lemma_record_told(text, given(pieces, 2));
    assert(named(given(pieces, 2), pieces[0].0) == pieces[0].1);
    assert(named(given(pieces, 2), pieces[1].0) == pieces[1].1);
}

/// What the browser reads of a pattern is each part of it that is given, under its
/// own name, and nothing of what is not.
pub proof fn law_pattern_is_told(text: Seq<char>, pattern: RequestPattern)
    requires
        holds_record(text, pattern.record()),
    ensures
        json_value(text) matches Some(back) && {
            &&& holds_text(back, "urlPattern"@, opt_view(pattern.url_pattern))
            &&& holds_text(back, "resourceType"@, opt_view(pattern.resource_type))
            &&& holds_text(back, "requestStage"@, opt_view(pattern.request_stage))
        },
{
    reveal_strlit("urlPattern");
    reveal_strlit("resourceType");
    reveal_strlit("requestStage");
    assert("urlPattern"@.len() == 10 && "resourceType"@.len() == 12 && "requestStage"@.len() == 12);
    assert("resourceType"@[2] != "requestStage"@[2]);
    let pieces: Seq<(Seq<char>, Option<ScalarView>)> = seq![
        ("urlPattern"@, opt_text_scalar(opt_view(pattern.url_pattern))),
        ("resourceType"@, opt_text_scalar(opt_view(pattern.resource_type))),
        ("requestStage"@, opt_text_scalar(opt_view(pattern.request_stage))),
    ];
    lemma_given(pieces, 3);
    reveal_with_fuel(given, 4);
    assert(pattern.record() =~= given(pieces, 3));
    lemma_record_told(text, given(pieces, 3));
    assert(named(given(pieces, 3), pieces[0].0) == pieces[0].1);
    assert(named(given(pieces, 3), pieces[1].0) == pieces[1].1);
    assert(named(given(pieces, 3), pieces[2].0) == pieces[2].1);
}

/// The parts of a cookie's record, with those that are missing.
spec fn cookie_pieces(cookie: NetworkSetCookie) -> Seq<(Seq<char>, Option<ScalarView>)> {
    seq![
        ("name"@, Some(ScalarView::Text(cookie.name@))),
        ("value"@, Some(ScalarView::Text(cookie.value@))),
        ("url"@, opt_text_scalar(opt_view(cookie.url))),
        ("domain"@, opt_text_scalar(opt_view(cookie.domain))),
        ("path"@, opt_text_scalar(opt_view(cookie.path))),
        ("secure"@, opt_flag_scalar(cookie.secure)),
        ("httpOnly"@, opt_flag_scalar(cookie.http_only)),
        ("sameSite"@, opt_text_scalar(opt_view(cookie.same_site))),
        ("expires"@, opt_number_scalar(opt_view(cookie.expires))),
    ]
}

proof fn lemma_cookie_pieces_apart(cookie: NetworkSetCookie)
    ensures
        pieces_apart(cookie_pieces(cookie)),
{
    reveal_strlit("name");
    reveal_strlit("value");
    reveal_strlit("url");
    reveal_strlit("domain");
    reveal_strlit("path");
    reveal_strlit("secure");
    reveal_strlit("httpOnly");
    reveal_strlit("sameSite");
    reveal_strlit("expires");
    assert("name"@.len() == 4 && "value"@.len() == 5 && "url"@.len() == 3);
    assert("domain"@.len() == 6 && "path"@.len() == 4 && "secure"@.len() == 6);
    assert("httpOnly"@.len() == 8 && "sameSite"@.len() == 8 && "expires"@.len() == 7);
    assert("name"@[0] != "path"@[0]);
    assert("domain"@[0] != "secure"@[0]);
    assert("httpOnly"@[0] != "sameSite"@[0]);
}

proof fn lemma_cookie_record(cookie: NetworkSetCookie)
    ensures
        cookie.record() == given(cookie_pieces(cookie), 9),
{
    let pieces = cookie_pieces(cookie);
    assert(given(pieces, 0) =~= Seq::empty());
    assert(given(pieces, 1) == given(pieces, 0) + maybe(pieces[0]));
    assert(given(pieces, 2) == given(pieces, 1) + maybe(pieces[1]));
    assert(given(pieces, 2) =~= seq![
        ("name"@, ScalarView::Text(cookie.name@)),
        ("value"@, ScalarView::Text(cookie.value@)),
    ]);
    assert(maybe(pieces[2]) == opt_text_field("url"@, opt_view(cookie.url)));
    assert(given(pieces, 3) == given(pieces, 2) + maybe(pieces[2]));
    assert(maybe(pieces[3]) == opt_text_field("domain"@, opt_view(cookie.domain)));
    assert(given(pieces, 4) == given(pieces, 3) + maybe(pieces[3]));
    assert(maybe(pieces[4]) == opt_text_field("path"@, opt_view(cookie.path)));
    assert(given(pieces, 5) == given(pieces, 4) + maybe(pieces[4]));
    assert(maybe(pieces[5]) == opt_flag_field("secure"@, cookie.secure));
    assert(given(pieces, 6) == given(pieces, 5) + maybe(pieces[5]));
    assert(maybe(pieces[6]) == opt_flag_field("httpOnly"@, cookie.http_only));
    assert(given(pieces, 7) == given(pieces, 6) + maybe(pieces[6]));
    assert(maybe(pieces[7]) == opt_text_field("sameSite"@, opt_view(cookie.same_site)));
    assert(given(pieces, 8) == given(pieces, 7) + maybe(pieces[7]));
    assert(maybe(pieces[8]) == opt_number_field("expires"@, opt_view(cookie.expires)));
    assert(given(pieces, 9) == given(pieces, 8) + maybe(pieces[8]));
}

/// What the browser reads of a cookie is each part of it that is given, under its
/// own name, and nothing of what is not.
pub proof fn law_cookie_is_told(text: Seq<char>, cookie: NetworkSetCookie)
    requires
        holds_record(text, cookie.record()),
    ensures
        json_value(text) matches Some(back) && {
            &&& holds_text(back, "name"@, Some(cookie.name@))
            &&& holds_text(back, "value"@, Some(cookie.value@))
            &&& holds_text(back, "url"@, opt_view(cookie.url))
            &&& holds_text(back, "domain"@, opt_view(cookie.domain))
            &&& holds_text(back, "path"@, opt_view(cookie.path))
            &&& holds_flag(back, "secure"@, cookie.secure)
            &&& holds_flag(back, "httpOnly"@, cookie.http_only)
            &&& holds_text(back, "sameSite"@, opt_view(cookie.same_site))
            &&& holds_json(back, "expires"@, opt_view(cookie.expires))
        },
{
    let pieces = cookie_pieces(cookie);
    lemma_cookie_pieces_apart(cookie);
    lemma_cookie_record(cookie);
    lemma_given(pieces, 9);
    lemma_record_told(text, given(pieces, 9));
    assert(named(given(pieces, 9), pieces[0].0) == pieces[0].1);
    assert(named(given(pieces, 9), pieces[1].0) == pieces[1].1);
    assert(named(given(pieces, 9), pieces[2].0) == pieces[2].1);
    assert(named(given(pieces, 9), pieces[3].0) == pieces[3].1);
    assert(named(given(pieces, 9), pieces[4].0) == pieces[4].1);
    assert(named(given(pieces, 9), pieces[5].0) == pieces[5].1);
    assert(named(given(pieces, 9), pieces[6].0) == pieces[6].1);
    assert(named(given(pieces, 9), pieces[7].0) == pieces[7].1);
    assert(named(given(pieces, 9), pieces[8].0) == pieces[8].1);
}

} // verus!
