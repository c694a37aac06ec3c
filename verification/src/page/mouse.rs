//! Clicking.

use vstd::prelude::*;

use crate::cdp::command::{holds_params, Command};
use crate::cdp::connection::{command, law_mouse_event_is_told, mouse_params, Session};
use crate::cdp::types::{MouseButton, MouseEventType};
use crate::json::{holds_json, holds_number, member_text, JsonView};

verus! {

/// What to send to click at a place: the left button goes down, and comes up again.
/// Coordinates are JSON numbers.
pub fn click_at(session: &Session, x: &str, y: &str) -> (r: (Command, Command))
    ensures
        r.0@ == command(
            Some(session@.session_id),
            "Input.dispatchMouseEvent"@,
            mouse_params(
                MouseEventType::MousePressed,
                (x@, y@),
                Some(MouseButton::Left),
                Some(1i32),
                (None, None),
            ),
        ),
        r.1@ == command(
            Some(session@.session_id),
            "Input.dispatchMouseEvent"@,
            mouse_params(
                MouseEventType::MouseReleased,
                (x@, y@),
                Some(MouseButton::Left),
                Some(1i32),
                (None, None),
            ),
        ),
{
    (
        session.dispatch_mouse_event(
            MouseEventType::MousePressed,
            x,
            y,
            Some(MouseButton::Left),
            Some(1),
        ),
        session.dispatch_mouse_event(
            MouseEventType::MouseReleased,
            x,
            y,
            Some(MouseButton::Left),
            Some(1),
        ),
    )
}

/// What to send to move to a place.
pub fn hover_at(session: &Session, x: &str, y: &str) -> (c: Command)
    ensures
        c@ == command(
            Some(session@.session_id),
            "Input.dispatchMouseEvent"@,
            mouse_params(MouseEventType::MouseMoved, (x@, y@), None, None, (None, None)),
        ),
{
    session.dispatch_mouse_event(MouseEventType::MouseMoved, x, y, None, None)
}

/// To click, the left button goes down once and comes up again, both at the place
/// that was given.
pub proof fn law_click_is_told(
    place: (Seq<char>, Seq<char>),
    first: Option<JsonView>,
    second: Option<JsonView>,
)
    requires
        holds_params(
            first,
            mouse_params(
                MouseEventType::MousePressed,
                place,
                Some(MouseButton::Left),
                Some(1i32),
                (None, None),
            ),
        ),
        holds_params(
            second,
            mouse_params(
                MouseEventType::MouseReleased,
                place,
                Some(MouseButton::Left),
                Some(1i32),
                (None, None),
            ),
        ),
    ensures
        first matches Some(down) && (second matches Some(up) && {
            &&& member_text(down, "type"@) == Some("mousePressed"@)
            &&& member_text(up, "type"@) == Some("mouseReleased"@)
            &&& member_text(down, "button"@) == Some("left"@)
            &&& member_text(up, "button"@) == Some("left"@)
            &&& holds_number(down, "clickCount"@, Some(1i64))
            &&& holds_number(up, "clickCount"@, Some(1i64))
            &&& holds_json(down, "x"@, Some(place.0)) && holds_json(up, "x"@, Some(place.0))
            &&& holds_json(down, "y"@, Some(place.1)) && holds_json(up, "y"@, Some(place.1))
        }),
{
    law_mouse_event_is_told(
        first,
        MouseEventType::MousePressed,
        place,
        Some(MouseButton::Left),
        Some(1i32),
        (None, None),
    );
    law_mouse_event_is_told(
        second,
        MouseEventType::MouseReleased,
        place,
        Some(MouseButton::Left),
        Some(1i32),
        (None, None),
    );
}

} // verus!
