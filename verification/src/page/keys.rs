//! Keys and key combinations.

use vstd::prelude::*;

use crate::cdp::command::holds_params;
use crate::cdp::connection::{key_params, law_key_event_is_told, wide_i32_spec};
use crate::cdp::types::modifiers::{ALT, CTRL, META, SHIFT};
use crate::cdp::types::{InputDispatchKeyEventFull, KeyEventType};
use crate::decimal::digits;
use crate::json::{holds_number, member_text, JsonView};
use crate::text::{concat, law_split_at_first, opt_view, same, split, split_on, string_views, views};
use crate::unicode::{lower, lowered};

verus! {

/// The modifier keys.
pub enum Modifier {
    /// Control.
    Ctrl,
    /// Alt, or Option.
    Alt,
    /// Shift.
    Shift,
    /// Command, or the Windows key.
    Meta,
}

/// The modifier that a lower-case name stands for.
pub open spec fn modifier_named(name: Seq<char>) -> Option<Modifier> {
    if name == "ctrl"@ || name == "control"@ {
        Some(Modifier::Ctrl)
    } else if name == "alt"@ || name == "option"@ {
        Some(Modifier::Alt)
    } else if name == "shift"@ {
        Some(Modifier::Shift)
    } else if name == "cmd"@ || name == "meta"@ || name == "command"@ {
        Some(Modifier::Meta)
    } else {
        None
    }
}

/// The modifier that a lower-case name stands for.
pub fn modifier_of(name: &str) -> (r: Option<Modifier>)
    ensures
        r == modifier_named(name@),
{
    if same(name, "ctrl") || same(name, "control") {
        Some(Modifier::Ctrl)
    } else if same(name, "alt") || same(name, "option") {
        Some(Modifier::Alt)
    } else if same(name, "shift") {
        Some(Modifier::Shift)
    } else if same(name, "cmd") || same(name, "meta") || same(name, "command") {
        Some(Modifier::Meta)
    } else {
        None
    }
}

/// Modifier `m` is named among `names`.
pub open spec fn names_modifier(names: Seq<Seq<char>>, m: Modifier) -> bool {
    exists|i: int| 0 <= i < names.len() && modifier_named(#[trigger] names[i]) == Some(m)
}

/// The bits of the modifiers that are named among `names`.
pub open spec fn modifier_bits(names: Seq<Seq<char>>) -> int {
    (if names_modifier(names, Modifier::Ctrl) {
        CTRL as int
    } else {
        0
    }) + (if names_modifier(names, Modifier::Alt) {
        ALT as int
    } else {
        0
    }) + (if names_modifier(names, Modifier::Shift) {
        SHIFT as int
    } else {
        0
    }) + (if names_modifier(names, Modifier::Meta) {
        META as int
    } else {
        0
    })
}

/// The last of `parts` whose name is none of a modifier, or `whole`.
pub open spec fn key_among(parts: Seq<Seq<char>>, names: Seq<Seq<char>>, whole: Seq<char>) -> Seq<
    char,
>
    decreases names.len(),
{
    if names.len() == 0 {
        whole
    } else if modifier_named(names.last()) is None {
        parts[names.len() - 1]
    } else {
        key_among(parts, names.drop_last(), whole)
    }
}

/// One more name adds at most its own modifier.
proof fn lemma_names_push(names: Seq<Seq<char>>, name: Seq<char>, m: Modifier)
    ensures
        names_modifier(names.push(name), m) == (names_modifier(names, m) || modifier_named(name)
            == Some(m)),
{
    let more = names.push(name);
    if names_modifier(names, m) {
        let i = choose|i: int| 0 <= i < names.len() && modifier_named(#[trigger] names[i]) == Some(
            m,
        );
        assert(more[i] == names[i]);
    }
    if modifier_named(name) == Some(m) {
        assert(more[names.len() as int] == name);
    }
    if names_modifier(more, m) && modifier_named(name) != Some(m) {
        let i = choose|i: int| 0 <= i < more.len() && modifier_named(#[trigger] more[i]) == Some(m);
        assert(names[i] == more[i]);
    }
}

/// The modifiers and the key among the parts of a combination, given each
/// part's lower-case name.
pub fn combine<'a>(parts: &Vec<&'a str>, names: &Vec<String>, whole: &'a str) -> (r: (i32, &'a str))
    requires
        parts.len() == names.len(),
    ensures
        r.0 == modifier_bits(string_views(names@)),
        r.1@ == key_among(views(parts@), string_views(names@), whole@),
{
    let ghost all = string_views(names@);
    let mut ctrl = false;
    let mut alt = false;
    let mut shift = false;
    let mut meta = false;
    let mut key: &'a str = whole;
    let mut i: usize = 0;
    assert(all.take(0) =~= Seq::empty());
    while i < names.len()
        invariant
            i <= names.len(),
            parts.len() == names.len(),
            all == string_views(names@),
            ctrl == names_modifier(all.take(i as int), Modifier::Ctrl),
            alt == names_modifier(all.take(i as int), Modifier::Alt),
            shift == names_modifier(all.take(i as int), Modifier::Shift),
            meta == names_modifier(all.take(i as int), Modifier::Meta),
            key@ == key_among(views(parts@), all.take(i as int), whole@),
        decreases names.len() - i,
    {
        let ghost seen = all.take(i as int);
        proof {
            assert(all[i as int] == names@[i as int]@);
            assert(all.take(i + 1) =~= seen.push(names@[i as int]@));
            assert(all.take(i + 1).drop_last() =~= seen);
            lemma_names_push(seen, names@[i as int]@, Modifier::Ctrl);
            lemma_names_push(seen, names@[i as int]@, Modifier::Alt);
            lemma_names_push(seen, names@[i as int]@, Modifier::Shift);
            lemma_names_push(seen, names@[i as int]@, Modifier::Meta);
        }
        match modifier_of(names[i].as_str()) {
            Some(Modifier::Ctrl) => ctrl = true,
            Some(Modifier::Alt) => alt = true,
            Some(Modifier::Shift) => shift = true,
            Some(Modifier::Meta) => meta = true,
            None => key = parts[i],
        }
        i = i + 1;
    }
    assert(all.take(i as int) =~= all);
    let mut mods: i32 = 0;
    if ctrl {
        mods = mods + CTRL;
    }
    if alt {
        mods = mods + ALT;
    }
    if shift {
        mods = mods + SHIFT;
    }
    if meta {
        mods = mods + META;
    }
    (mods, key)
}

/// The lower-case names of the parts of a combination.
pub open spec fn part_names(combo: Seq<char>) -> Seq<Seq<char>> {
    split(combo, seq!['+']).map_values(|part: Seq<char>| lowered(part))
}

/// The modifiers and the key of a combination such as `Ctrl+Shift+A`.
pub fn parse_key_combo<'a>(combo: &'a str) -> (r: (i32, &'a str))
    ensures
        r.0 == modifier_bits(part_names(combo@)),
        r.1@ == key_among(split(combo@, seq!['+']), part_names(combo@), combo@),
{
    proof {
        reveal_strlit("+");
        assert("+"@ =~= seq!['+']);
    }
    let parts = split_on(combo, "+");
    let ghost all = split(combo@, seq!['+']);
    let mut names: Vec<String> = Vec::new();
    assert(views(parts@).len() == parts@.len());
    while names.len() < parts.len()
        invariant
            names.len() <= parts.len(),
            views(parts@) == all,
            all.len() == parts.len(),
            forall|j: int| 0 <= j < names.len() ==> (#[trigger] names@[j])@ == lowered(all[j]),
        decreases parts.len() - names.len(),
    {
        let part = parts[names.len()];
        assert(part@ == all[names.len() as int]);
        names.push(lower(part));
    }
    assert(string_views(names@) =~= part_names(combo@));
    combine(&parts, &names, combo)
}

/// The keys that go by a name: the lower-case name, the key, its code and its
/// number.
pub open spec fn key_table() -> Seq<(Seq<char>, Seq<char>, Seq<char>, i32)> {
    seq![
        ("enter"@, "Enter"@, "Enter"@, 13i32),
        ("return"@, "Enter"@, "Enter"@, 13i32),
        ("tab"@, "Tab"@, "Tab"@, 9i32),
        ("escape"@, "Escape"@, "Escape"@, 27i32),
        ("esc"@, "Escape"@, "Escape"@, 27i32),
        ("backspace"@, "Backspace"@, "Backspace"@, 8i32),
        ("delete"@, "Delete"@, "Delete"@, 46i32),
        ("arrowup"@, "ArrowUp"@, "ArrowUp"@, 38i32),
        ("up"@, "ArrowUp"@, "ArrowUp"@, 38i32),
        ("arrowdown"@, "ArrowDown"@, "ArrowDown"@, 40i32),
        ("down"@, "ArrowDown"@, "ArrowDown"@, 40i32),
        ("arrowleft"@, "ArrowLeft"@, "ArrowLeft"@, 37i32),
        ("left"@, "ArrowLeft"@, "ArrowLeft"@, 37i32),
        ("arrowright"@, "ArrowRight"@, "ArrowRight"@, 39i32),
        ("right"@, "ArrowRight"@, "ArrowRight"@, 39i32),
        ("home"@, "Home"@, "Home"@, 36i32),
        ("end"@, "End"@, "End"@, 35i32),
        ("pageup"@, "PageUp"@, "PageUp"@, 33i32),
        ("pagedown"@, "PageDown"@, "PageDown"@, 34i32),
        ("space"@, " "@, "Space"@, 32i32),
        ("a"@, "a"@, "KeyA"@, 65i32),
        ("b"@, "b"@, "KeyB"@, 66i32),
        ("c"@, "c"@, "KeyC"@, 67i32),
        ("d"@, "d"@, "KeyD"@, 68i32),
        ("e"@, "e"@, "KeyE"@, 69i32),
        ("f"@, "f"@, "KeyF"@, 70i32),
        ("g"@, "g"@, "KeyG"@, 71i32),
        ("h"@, "h"@, "KeyH"@, 72i32),
        ("i"@, "i"@, "KeyI"@, 73i32),
        ("j"@, "j"@, "KeyJ"@, 74i32),
        ("k"@, "k"@, "KeyK"@, 75i32),
        ("l"@, "l"@, "KeyL"@, 76i32),
        ("m"@, "m"@, "KeyM"@, 77i32),
        ("n"@, "n"@, "KeyN"@, 78i32),
        ("o"@, "o"@, "KeyO"@, 79i32),
        ("p"@, "p"@, "KeyP"@, 80i32),
        ("q"@, "q"@, "KeyQ"@, 81i32),
        ("r"@, "r"@, "KeyR"@, 82i32),
        ("s"@, "s"@, "KeyS"@, 83i32),
        ("t"@, "t"@, "KeyT"@, 84i32),
        ("u"@, "u"@, "KeyU"@, 85i32),
        ("v"@, "v"@, "KeyV"@, 86i32),
        ("w"@, "w"@, "KeyW"@, 87i32),
        ("x"@, "x"@, "KeyX"@, 88i32),
        ("y"@, "y"@, "KeyY"@, 89i32),
        ("z"@, "z"@, "KeyZ"@, 90i32),
        ("f1"@, "F1"@, "F1"@, 112i32),
        ("f2"@, "F2"@, "F2"@, 113i32),
        ("f3"@, "F3"@, "F3"@, 114i32),
        ("f4"@, "F4"@, "F4"@, 115i32),
        ("f5"@, "F5"@, "F5"@, 116i32),
        ("f6"@, "F6"@, "F6"@, 117i32),
        ("f7"@, "F7"@, "F7"@, 118i32),
        ("f8"@, "F8"@, "F8"@, 119i32),
        ("f9"@, "F9"@, "F9"@, 120i32),
        ("f10"@, "F10"@, "F10"@, 121i32),
        ("f11"@, "F11"@, "F11"@, 122i32),
        ("f12"@, "F12"@, "F12"@, 123i32),
    ]
}

/// The key, code and number of the first entry, not before `from`, that goes by
/// the lower-case name `name`.
pub open spec fn entry_named(
    table: Seq<(Seq<char>, Seq<char>, Seq<char>, i32)>,
    name: Seq<char>,
    from: int,
) -> Option<(Seq<char>, Seq<char>, i32)>
    decreases table.len() - from,
{
    if from < 0 || from >= table.len() {
        None
    } else if table[from].0 == name {
        Some((table[from].1, table[from].2, table[from].3))
    } else {
        entry_named(table, name, from + 1)
    }
}

/// The key, code and number behind the name of a key, given the name's lower
/// case. A name that is not known stands for itself and has no number.
pub open spec fn codes_of(name: Seq<char>, lower_name: Seq<char>) -> (
    Seq<char>,
    Seq<char>,
    Option<i32>,
) {
    match entry_named(key_table(), lower_name, 0) {
        Some((key, code, number)) => (key, code, Some(number)),
        None => (name, name, None),
    }
}

/// The views of a table of keys.
spec fn table_views(table: Seq<(&'static str, &'static str, &'static str, i32)>) -> Seq<
    (Seq<char>, Seq<char>, Seq<char>, i32),
> {
    table.map_values(|e: (&'static str, &'static str, &'static str, i32)| (e.0@, e.1@, e.2@, e.3))
}

fn keys() -> (table: Vec<(&'static str, &'static str, &'static str, i32)>)
    ensures
        table_views(table@) == key_table(),
{
    let table: Vec<(&'static str, &'static str, &'static str, i32)> = vec![
        ("enter", "Enter", "Enter", 13i32),
        ("return", "Enter", "Enter", 13i32),
        ("tab", "Tab", "Tab", 9i32),
        ("escape", "Escape", "Escape", 27i32),
        ("esc", "Escape", "Escape", 27i32),
        ("backspace", "Backspace", "Backspace", 8i32),
        ("delete", "Delete", "Delete", 46i32),
        ("arrowup", "ArrowUp", "ArrowUp", 38i32),
        ("up", "ArrowUp", "ArrowUp", 38i32),
        ("arrowdown", "ArrowDown", "ArrowDown", 40i32),
        ("down", "ArrowDown", "ArrowDown", 40i32),
        ("arrowleft", "ArrowLeft", "ArrowLeft", 37i32),
        ("left", "ArrowLeft", "ArrowLeft", 37i32),
        ("arrowright", "ArrowRight", "ArrowRight", 39i32),
        ("right", "ArrowRight", "ArrowRight", 39i32),
        ("home", "Home", "Home", 36i32),
        ("end", "End", "End", 35i32),
        ("pageup", "PageUp", "PageUp", 33i32),
        ("pagedown", "PageDown", "PageDown", 34i32),
        ("space", " ", "Space", 32i32),
        ("a", "a", "KeyA", 65i32),
        ("b", "b", "KeyB", 66i32),
        ("c", "c", "KeyC", 67i32),
        ("d", "d", "KeyD", 68i32),
        ("e", "e", "KeyE", 69i32),
        ("f", "f", "KeyF", 70i32),
        ("g", "g", "KeyG", 71i32),
        ("h", "h", "KeyH", 72i32),
        ("i", "i", "KeyI", 73i32),
        ("j", "j", "KeyJ", 74i32),
        ("k", "k", "KeyK", 75i32),
        ("l", "l", "KeyL", 76i32),
        ("m", "m", "KeyM", 77i32),
        ("n", "n", "KeyN", 78i32),
        ("o", "o", "KeyO", 79i32),
        ("p", "p", "KeyP", 80i32),
        ("q", "q", "KeyQ", 81i32),
        ("r", "r", "KeyR", 82i32),
        ("s", "s", "KeyS", 83i32),
        ("t", "t", "KeyT", 84i32),
        ("u", "u", "KeyU", 85i32),
        ("v", "v", "KeyV", 86i32),
        ("w", "w", "KeyW", 87i32),
        ("x", "x", "KeyX", 88i32),
        ("y", "y", "KeyY", 89i32),
        ("z", "z", "KeyZ", 90i32),
        ("f1", "F1", "F1", 112i32),
        ("f2", "F2", "F2", 113i32),
        ("f3", "F3", "F3", 114i32),
        ("f4", "F4", "F4", 115i32),
        ("f5", "F5", "F5", 116i32),
        ("f6", "F6", "F6", 117i32),
        ("f7", "F7", "F7", 118i32),
        ("f8", "F8", "F8", 119i32),
        ("f9", "F9", "F9", 120i32),
        ("f10", "F10", "F10", 121i32),
        ("f11", "F11", "F11", 122i32),
        ("f12", "F12", "F12", 123i32),
    ];
    assert(table_views(table@) =~= key_table());
    table
}

/// The key, code and number behind the name of a key, given the name's lower
/// case.
pub fn codes_for<'a>(key: &'a str, lower_name: &str) -> (r: (&'a str, &'a str, Option<i32>))
    ensures
        (r.0@, r.1@, r.2) == codes_of(key@, lower_name@),
{
    let table = keys();
    let ghost all = key_table();
    assert(table_views(table@).len() == table@.len());
    let mut i: usize = 0;
    while i < table.len()
        invariant
            i <= table.len(),
            all == key_table(),
            table_views(table@) == all,
            all.len() == table.len(),
            entry_named(all, lower_name@, i as int) == entry_named(all, lower_name@, 0),
        decreases table.len() - i,
    {
        let entry = table[i];
        assert(all[i as int] == (entry.0@, entry.1@, entry.2@, entry.3));
        if same(entry.0, lower_name) {
            return (entry.1, entry.2, Some(entry.3));
        }
        i = i + 1;
    }
    (key, key, None)
}

/// The key, code and number behind the name of a key, in upper or lower case.
pub fn key_to_codes<'a>(key: &'a str) -> (r: (&'a str, &'a str, Option<i32>))
    ensures
        (r.0@, r.1@, r.2) == codes_of(key@, lowered(key@)),
{
    let name = lower(key);
    codes_for(key, name.as_str())
}

/// The event in which a key of a combination goes down or comes up.
pub open spec fn is_key_event(
    e: InputDispatchKeyEventFull,
    event_type: KeyEventType,
    combo: Seq<char>,
) -> bool {
    let names = part_names(combo);
    let key = key_among(split(combo, seq!['+']), names, combo);
    let codes = codes_of(key, lowered(key));
    let bits = modifier_bits(names);
    &&& e.event_type == event_type
    &&& e.modifiers == (if bits != 0 {
        Some(bits as i32)
    } else {
        None
    })
    &&& e.text is None
    &&& opt_view(e.key) == Some(codes.0)
    &&& opt_view(e.code) == Some(codes.1)
    &&& e.windows_virtual_key_code == codes.2
    &&& e.native_virtual_key_code == codes.2
}

/// The event in which a key of a combination such as `Ctrl+Shift+A` goes down or
/// comes up.
pub fn key_event(combo: &str, event_type: KeyEventType) -> (e: InputDispatchKeyEventFull)
    ensures
        is_key_event(e, event_type, combo@),
{
    let (mods, name) = parse_key_combo(combo);
    let (key, code, number) = key_to_codes(name);
    InputDispatchKeyEventFull {
        event_type,
        modifiers: if mods != 0 {
            Some(mods)
        } else {
            None
        },
        text: None,
        key: Some(key.to_string()),
        code: Some(code.to_string()),
        windows_virtual_key_code: number,
        native_virtual_key_code: number,
    }
}

/// What to send to press a combination: its key goes down, and comes up again.
pub fn press_key(combo: &str) -> (r: (InputDispatchKeyEventFull, InputDispatchKeyEventFull))
    ensures
        is_key_event(r.0, KeyEventType::KeyDown, combo@),
        is_key_event(r.1, KeyEventType::KeyUp, combo@),
        forall|first: Option<JsonView>| #[trigger]
            holds_params(first, key_params(r.0)) ==> member_text(first->0, "type"@) == Some(
                "keyDown"@,
            ),
        forall|second: Option<JsonView>| #[trigger]
            holds_params(second, key_params(r.1)) ==> member_text(second->0, "type"@) == Some(
                "keyUp"@,
            ),
{
    let r = (key_event(combo, KeyEventType::KeyDown), key_event(combo, KeyEventType::KeyUp));
    proof {
        assert forall|first: Option<JsonView>| #[trigger]
            holds_params(first, key_params(r.0)) implies member_text(first->0, "type"@) == Some(
            "keyDown"@,
        ) by {
            law_key_event_is_told(first, r.0);
        }
        assert forall|second: Option<JsonView>| #[trigger]
            holds_params(second, key_params(r.1)) implies member_text(second->0, "type"@) == Some(
            "keyUp"@,
        ) by {
            law_key_event_is_told(second, r.1);
        }
    }
    r
}

/// A combination with the platform's own modifier for shortcuts.
pub fn shortcut(mac: bool, key: &str) -> (combo: String)
    ensures
        combo@ == (if mac {
            "Cmd+"@
        } else {
            "Ctrl+"@
        }) + key@,
{
    if mac {
        concat("Cmd+", key)
    } else {
        concat("Ctrl+", key)
    }
}

/// Letter case does not matter for the names of known keys.
pub proof fn law_key_names_ignore_case(a: Seq<char>, b: Seq<char>)
    requires
        lowered(a) == lowered(b),
        codes_of(a, lowered(a)).2 is Some,
    ensures
        codes_of(a, lowered(a)) == codes_of(b, lowered(b)),
{
}

/// The number of a combination's modifiers says which are held: each of them, and
/// no other, has its bit.
pub proof fn law_modifier_bits(names: Seq<Seq<char>>)
    ensures
        0 <= modifier_bits(names) < 16,
        modifier_bits(names) % 2 == 1 <==> names_modifier(names, Modifier::Alt),
        modifier_bits(names) / 2 % 2 == 1 <==> names_modifier(names, Modifier::Ctrl),
        modifier_bits(names) / 4 % 2 == 1 <==> names_modifier(names, Modifier::Meta),
        modifier_bits(names) / 8 % 2 == 1 <==> names_modifier(names, Modifier::Shift),
{
}

/// The place of a name in the table of keys, told from a few of its characters.
spec fn place_of(name: Seq<char>) -> int {
    if name.len() == 1 {
        20 + (name[0] as int - 'a' as int)
    } else if name[0] == 'f' && name.len() == 2 {
        45 + (name[1] as int - '0' as int)
    } else if name[0] == 'f' && name.len() == 3 {
        55 + (name[2] as int - '0' as int)
    } else if name.len() == 2 {
        8
    } else if name.len() == 3 {
        if name[0] == 't' {
            2
        } else if name[1] == 's' {
            4
        } else {
            16
        }
    } else if name.len() == 4 {
        if name[0] == 'd' {
            10
        } else if name[0] == 'l' {
            12
        } else {
            15
        }
    } else if name.len() == 5 {
        if name[0] == 'e' {
            0
        } else if name[0] == 'r' {
            14
        } else {
            19
        }
    } else if name.len() == 6 {
        if name[0] == 'r' {
            1
        } else if name[0] == 'e' {
            3
        } else if name[0] == 'd' {
            6
        } else {
            17
        }
    } else if name.len() == 7 {
        7
    } else if name.len() == 8 {
        18
    } else if name.len() == 9 {
        if name[0] == 'b' {
            5
        } else if name[5] == 'd' {
            9
        } else {
            11
        }
    } else {
        13
    }
}

/// Each name stands in its place in the table.
proof fn lemma_places()
    ensures
        forall|i: int| 0 <= i < key_table().len() ==> place_of((#[trigger] key_table()[i]).0) == i,
        key_table().len() == 58,
{
    reveal_strlit("enter");
    reveal_strlit("return");
    reveal_strlit("tab");
    reveal_strlit("escape");
    reveal_strlit("esc");
    reveal_strlit("backspace");
    reveal_strlit("delete");
    reveal_strlit("arrowup");
    reveal_strlit("up");
    reveal_strlit("arrowdown");
    reveal_strlit("down");
    reveal_strlit("arrowleft");
    reveal_strlit("left");
    reveal_strlit("arrowright");
    reveal_strlit("right");
    reveal_strlit("home");
    reveal_strlit("end");
    reveal_strlit("pageup");
    reveal_strlit("pagedown");
    reveal_strlit("space");
    reveal_strlit("a");
    reveal_strlit("b");
    reveal_strlit("c");
    reveal_strlit("d");
    reveal_strlit("e");
    reveal_strlit("f");
    reveal_strlit("g");
    reveal_strlit("h");
    reveal_strlit("i");
    reveal_strlit("j");
    reveal_strlit("k");
    reveal_strlit("l");
    reveal_strlit("m");
    reveal_strlit("n");
    reveal_strlit("o");
    reveal_strlit("p");
    reveal_strlit("q");
    reveal_strlit("r");
    reveal_strlit("s");
    reveal_strlit("t");
    reveal_strlit("u");
    reveal_strlit("v");
    reveal_strlit("w");
    reveal_strlit("x");
    reveal_strlit("y");
    reveal_strlit("z");
    reveal_strlit("f1");
    reveal_strlit("f2");
    reveal_strlit("f3");
    reveal_strlit("f4");
    reveal_strlit("f5");
    reveal_strlit("f6");
    reveal_strlit("f7");
    reveal_strlit("f8");
    reveal_strlit("f9");
    reveal_strlit("f10");
    reveal_strlit("f11");
    reveal_strlit("f12");
    assert(place_of("enter"@) == 0);
    assert(place_of("return"@) == 1);
    assert(place_of("tab"@) == 2);
    assert(place_of("escape"@) == 3);
    assert(place_of("esc"@) == 4);
    assert(place_of("backspace"@) == 5);
    assert(place_of("delete"@) == 6);
    assert(place_of("arrowup"@) == 7);
    assert(place_of("up"@) == 8);
    assert(place_of("arrowdown"@) == 9);
    assert(place_of("down"@) == 10);
    assert(place_of("arrowleft"@) == 11);
    assert(place_of("left"@) == 12);
    assert(place_of("arrowright"@) == 13);
    assert(place_of("right"@) == 14);
    assert(place_of("home"@) == 15);
    assert(place_of("end"@) == 16);
    assert(place_of("pageup"@) == 17);
    assert(place_of("pagedown"@) == 18);
    assert(place_of("space"@) == 19);
    assert(place_of("a"@) == 20);
    assert(place_of("b"@) == 21);
    assert(place_of("c"@) == 22);
    assert(place_of("d"@) == 23);
    assert(place_of("e"@) == 24);
    assert(place_of("f"@) == 25);
    assert(place_of("g"@) == 26);
    assert(place_of("h"@) == 27);
    assert(place_of("i"@) == 28);
    assert(place_of("j"@) == 29);
    assert(place_of("k"@) == 30);
    assert(place_of("l"@) == 31);
    assert(place_of("m"@) == 32);
    assert(place_of("n"@) == 33);
    assert(place_of("o"@) == 34);
    assert(place_of("p"@) == 35);
    assert(place_of("q"@) == 36);
    assert(place_of("r"@) == 37);
    assert(place_of("s"@) == 38);
    assert(place_of("t"@) == 39);
    assert(place_of("u"@) == 40);
    assert(place_of("v"@) == 41);
    assert(place_of("w"@) == 42);
    assert(place_of("x"@) == 43);
    assert(place_of("y"@) == 44);
    assert(place_of("z"@) == 45);
    assert(place_of("f1"@) == 46);
    assert(place_of("f2"@) == 47);
    assert(place_of("f3"@) == 48);
    assert(place_of("f4"@) == 49);
    assert(place_of("f5"@) == 50);
    assert(place_of("f6"@) == 51);
    assert(place_of("f7"@) == 52);
    assert(place_of("f8"@) == 53);
    assert(place_of("f9"@) == 54);
    assert(place_of("f10"@) == 55);
    assert(place_of("f11"@) == 56);
    assert(place_of("f12"@) == 57);
}

/// The entry in the given place is what its name stands for.
proof fn lemma_entry(i: int, from: int)
    requires
        0 <= from <= i < key_table().len(),
    ensures
        entry_named(key_table(), key_table()[i].0, from) == Some(
            (key_table()[i].1, key_table()[i].2, key_table()[i].3),
        ),
    decreases i - from,
{
    lemma_places();
    if from < i {
        assert(place_of(key_table()[from].0) == from);
        assert(place_of(key_table()[i].0) == i);
        lemma_entry(i, from + 1);
    }
}

/// A letter in lower case stands for itself; its code is `Key` and the letter in
/// upper case, and its number is the upper-case letter's.
pub proof fn law_letter_keys(name: Seq<char>, letter: char)
    requires
        'a' <= letter <= 'z',
    ensures
        codes_of(name, seq![letter]) == (
            seq![letter],
            seq!['K', 'e', 'y', (letter as u32 - 32) as char],
            Some((letter as i32 - 32) as i32),
        ),
{
    lemma_places();
    let i = 20 + (letter as int - 'a' as int);
    reveal_strlit("a");
    reveal_strlit("KeyA");
    reveal_strlit("b");
    reveal_strlit("KeyB");
    reveal_strlit("c");
    reveal_strlit("KeyC");
    reveal_strlit("d");
    reveal_strlit("KeyD");
    reveal_strlit("e");
    reveal_strlit("KeyE");
    reveal_strlit("f");
    reveal_strlit("KeyF");
    reveal_strlit("g");
    reveal_strlit("KeyG");
    reveal_strlit("h");
    reveal_strlit("KeyH");
    reveal_strlit("i");
    reveal_strlit("KeyI");
    reveal_strlit("j");
    reveal_strlit("KeyJ");
    reveal_strlit("k");
    reveal_strlit("KeyK");
    reveal_strlit("l");
    reveal_strlit("KeyL");
    reveal_strlit("m");
    reveal_strlit("KeyM");
    reveal_strlit("n");
    reveal_strlit("KeyN");
    reveal_strlit("o");
    reveal_strlit("KeyO");
    reveal_strlit("p");
    reveal_strlit("KeyP");
    reveal_strlit("q");
    reveal_strlit("KeyQ");
    reveal_strlit("r");
    reveal_strlit("KeyR");
    reveal_strlit("s");
    reveal_strlit("KeyS");
    reveal_strlit("t");
    reveal_strlit("KeyT");
    reveal_strlit("u");
    reveal_strlit("KeyU");
    reveal_strlit("v");
    reveal_strlit("KeyV");
    reveal_strlit("w");
    reveal_strlit("KeyW");
    reveal_strlit("x");
    reveal_strlit("KeyX");
    reveal_strlit("y");
    reveal_strlit("KeyY");
    reveal_strlit("z");
    reveal_strlit("KeyZ");
    if letter == 'a' {
        assert(key_table()[20].0 =~= seq![letter]);
        assert(key_table()[20].2 =~= seq!['K', 'e', 'y', 'A']);
    }
    if letter == 'b' {
        assert(key_table()[21].0 =~= seq![letter]);
        assert(key_table()[21].2 =~= seq!['K', 'e', 'y', 'B']);
    }
    if letter == 'c' {
        assert(key_table()[22].0 =~= seq![letter]);
        assert(key_table()[22].2 =~= seq!['K', 'e', 'y', 'C']);
    }
    if letter == 'd' {
        assert(key_table()[23].0 =~= seq![letter]);
        assert(key_table()[23].2 =~= seq!['K', 'e', 'y', 'D']);
    }
    if letter == 'e' {
        assert(key_table()[24].0 =~= seq![letter]);
        assert(key_table()[24].2 =~= seq!['K', 'e', 'y', 'E']);
    }
    if letter == 'f' {
        assert(key_table()[25].0 =~= seq![letter]);
        assert(key_table()[25].2 =~= seq!['K', 'e', 'y', 'F']);
    }
    if letter == 'g' {
        assert(key_table()[26].0 =~= seq![letter]);
        assert(key_table()[26].2 =~= seq!['K', 'e', 'y', 'G']);
    }
    if letter == 'h' {
        assert(key_table()[27].0 =~= seq![letter]);
        assert(key_table()[27].2 =~= seq!['K', 'e', 'y', 'H']);
    }
    if letter == 'i' {
        assert(key_table()[28].0 =~= seq![letter]);
        assert(key_table()[28].2 =~= seq!['K', 'e', 'y', 'I']);
    }
    if letter == 'j' {
        assert(key_table()[29].0 =~= seq![letter]);
        assert(key_table()[29].2 =~= seq!['K', 'e', 'y', 'J']);
    }
    if letter == 'k' {
        assert(key_table()[30].0 =~= seq![letter]);
        assert(key_table()[30].2 =~= seq!['K', 'e', 'y', 'K']);
    }
    if letter == 'l' {
        assert(key_table()[31].0 =~= seq![letter]);
        assert(key_table()[31].2 =~= seq!['K', 'e', 'y', 'L']);
    }
    if letter == 'm' {
        assert(key_table()[32].0 =~= seq![letter]);
        assert(key_table()[32].2 =~= seq!['K', 'e', 'y', 'M']);
    }
    if letter == 'n' {
        assert(key_table()[33].0 =~= seq![letter]);
        assert(key_table()[33].2 =~= seq!['K', 'e', 'y', 'N']);
    }
    if letter == 'o' {
        assert(key_table()[34].0 =~= seq![letter]);
        assert(key_table()[34].2 =~= seq!['K', 'e', 'y', 'O']);
    }
    if letter == 'p' {
        assert(key_table()[35].0 =~= seq![letter]);
        assert(key_table()[35].2 =~= seq!['K', 'e', 'y', 'P']);
    }
    if letter == 'q' {
        assert(key_table()[36].0 =~= seq![letter]);
        assert(key_table()[36].2 =~= seq!['K', 'e', 'y', 'Q']);
    }
    if letter == 'r' {
        assert(key_table()[37].0 =~= seq![letter]);
        assert(key_table()[37].2 =~= seq!['K', 'e', 'y', 'R']);
    }
    if letter == 's' {
        assert(key_table()[38].0 =~= seq![letter]);
        assert(key_table()[38].2 =~= seq!['K', 'e', 'y', 'S']);
    }
    if letter == 't' {
        assert(key_table()[39].0 =~= seq![letter]);
        assert(key_table()[39].2 =~= seq!['K', 'e', 'y', 'T']);
    }
    if letter == 'u' {
        assert(key_table()[40].0 =~= seq![letter]);
        assert(key_table()[40].2 =~= seq!['K', 'e', 'y', 'U']);
    }
    if letter == 'v' {
        assert(key_table()[41].0 =~= seq![letter]);
        assert(key_table()[41].2 =~= seq!['K', 'e', 'y', 'V']);
    }
    if letter == 'w' {
        assert(key_table()[42].0 =~= seq![letter]);
        assert(key_table()[42].2 =~= seq!['K', 'e', 'y', 'W']);
    }
    if letter == 'x' {
        assert(key_table()[43].0 =~= seq![letter]);
        assert(key_table()[43].2 =~= seq!['K', 'e', 'y', 'X']);
    }
    if letter == 'y' {
        assert(key_table()[44].0 =~= seq![letter]);
        assert(key_table()[44].2 =~= seq!['K', 'e', 'y', 'Y']);
    }
    if letter == 'z' {
        assert(key_table()[45].0 =~= seq![letter]);
        assert(key_table()[45].2 =~= seq!['K', 'e', 'y', 'Z']);
    }
    lemma_entry(i, 0);
}

/// The keys `F1` to `F12` go by these names, and their numbers follow each other from
/// 112 on.
pub proof fn law_function_keys(name: Seq<char>, n: int)
    requires
        1 <= n <= 12,
    ensures
        codes_of(name, seq!['f'] + digits(n as nat)) == (
            seq!['F'] + digits(n as nat),
            seq!['F'] + digits(n as nat),
            Some((111 + n) as i32),
        ),
{
    lemma_places();
    reveal_with_fuel(digits, 3);
    reveal_strlit("f1");
    reveal_strlit("F1");
    reveal_strlit("f2");
    reveal_strlit("F2");
    reveal_strlit("f3");
    reveal_strlit("F3");
    reveal_strlit("f4");
    reveal_strlit("F4");
    reveal_strlit("f5");
    reveal_strlit("F5");
    reveal_strlit("f6");
    reveal_strlit("F6");
    reveal_strlit("f7");
    reveal_strlit("F7");
    reveal_strlit("f8");
    reveal_strlit("F8");
    reveal_strlit("f9");
    reveal_strlit("F9");
    reveal_strlit("f10");
    reveal_strlit("F10");
    reveal_strlit("f11");
    reveal_strlit("F11");
    reveal_strlit("f12");
    reveal_strlit("F12");
    if n == 1 {
        assert(key_table()[46].0 =~= seq!['f'] + digits(1));
        assert(key_table()[46].1 =~= seq!['F'] + digits(1));
    }
    if n == 2 {
        assert(key_table()[47].0 =~= seq!['f'] + digits(2));
        assert(key_table()[47].1 =~= seq!['F'] + digits(2));
    }
    if n == 3 {
        assert(key_table()[48].0 =~= seq!['f'] + digits(3));
        assert(key_table()[48].1 =~= seq!['F'] + digits(3));
    }
    if n == 4 {
        assert(key_table()[49].0 =~= seq!['f'] + digits(4));
        assert(key_table()[49].1 =~= seq!['F'] + digits(4));
    }
    if n == 5 {
        assert(key_table()[50].0 =~= seq!['f'] + digits(5));
        assert(key_table()[50].1 =~= seq!['F'] + digits(5));
    }
    if n == 6 {
        assert(key_table()[51].0 =~= seq!['f'] + digits(6));
        assert(key_table()[51].1 =~= seq!['F'] + digits(6));
    }
    if n == 7 {
        assert(key_table()[52].0 =~= seq!['f'] + digits(7));
        assert(key_table()[52].1 =~= seq!['F'] + digits(7));
    }
    if n == 8 {
        assert(key_table()[53].0 =~= seq!['f'] + digits(8));
        assert(key_table()[53].1 =~= seq!['F'] + digits(8));
    }
    if n == 9 {
        assert(key_table()[54].0 =~= seq!['f'] + digits(9));
        assert(key_table()[54].1 =~= seq!['F'] + digits(9));
    }
    if n == 10 {
        assert(key_table()[55].0 =~= seq!['f'] + digits(10));
        assert(key_table()[55].1 =~= seq!['F'] + digits(10));
    }
    if n == 11 {
        assert(key_table()[56].0 =~= seq!['f'] + digits(11));
        assert(key_table()[56].1 =~= seq!['F'] + digits(11));
    }
    if n == 12 {
        assert(key_table()[57].0 =~= seq!['f'] + digits(12));
        assert(key_table()[57].1 =~= seq!['F'] + digits(12));
    }
    lemma_entry(45 + n, 0);
}

/// The keys that go by a name of their own, and by a second one, have the code and
/// the number that browsers give them, however the name was written.
pub proof fn law_named_keys(name: Seq<char>)
    ensures
        codes_of(name, "enter"@) == ("Enter"@, "Enter"@, Some(13i32)),
        codes_of(name, "return"@) == ("Enter"@, "Enter"@, Some(13i32)),
        codes_of(name, "tab"@) == ("Tab"@, "Tab"@, Some(9i32)),
        codes_of(name, "escape"@) == ("Escape"@, "Escape"@, Some(27i32)),
        codes_of(name, "esc"@) == ("Escape"@, "Escape"@, Some(27i32)),
        codes_of(name, "backspace"@) == ("Backspace"@, "Backspace"@, Some(8i32)),
        codes_of(name, "delete"@) == ("Delete"@, "Delete"@, Some(46i32)),
        codes_of(name, "arrowup"@) == ("ArrowUp"@, "ArrowUp"@, Some(38i32)),
        codes_of(name, "up"@) == ("ArrowUp"@, "ArrowUp"@, Some(38i32)),
        codes_of(name, "arrowdown"@) == ("ArrowDown"@, "ArrowDown"@, Some(40i32)),
        codes_of(name, "down"@) == ("ArrowDown"@, "ArrowDown"@, Some(40i32)),
        codes_of(name, "arrowleft"@) == ("ArrowLeft"@, "ArrowLeft"@, Some(37i32)),
        codes_of(name, "left"@) == ("ArrowLeft"@, "ArrowLeft"@, Some(37i32)),
        codes_of(name, "arrowright"@) == ("ArrowRight"@, "ArrowRight"@, Some(39i32)),
        codes_of(name, "right"@) == ("ArrowRight"@, "ArrowRight"@, Some(39i32)),
        codes_of(name, "home"@) == ("Home"@, "Home"@, Some(36i32)),
        codes_of(name, "end"@) == ("End"@, "End"@, Some(35i32)),
        codes_of(name, "pageup"@) == ("PageUp"@, "PageUp"@, Some(33i32)),
        codes_of(name, "pagedown"@) == ("PageDown"@, "PageDown"@, Some(34i32)),
        codes_of(name, "space"@) == (" "@, "Space"@, Some(32i32)),
{
    lemma_entry(0, 0);
    lemma_entry(1, 0);
    lemma_entry(2, 0);
    lemma_entry(3, 0);
    lemma_entry(4, 0);
    lemma_entry(5, 0);
    lemma_entry(6, 0);
    lemma_entry(7, 0);
    lemma_entry(8, 0);
    lemma_entry(9, 0);
    lemma_entry(10, 0);
    lemma_entry(11, 0);
    lemma_entry(12, 0);
    lemma_entry(13, 0);
    lemma_entry(14, 0);
    lemma_entry(15, 0);
    lemma_entry(16, 0);
    lemma_entry(17, 0);
    lemma_entry(18, 0);
    lemma_entry(19, 0);
}

/// A name that is not known stands for itself, as key and as code, without a number.
pub proof fn law_unknown_keys(name: Seq<char>, lower_name: Seq<char>)
    requires
        forall|i: int|
            0 <= i < key_table().len() ==> (#[trigger] key_table()[i]).0 != lower_name,
    ensures
        codes_of(name, lower_name) == (name, name, None::<i32>),
{
    lemma_no_entry(lower_name, 0);
}

proof fn lemma_no_entry(lower_name: Seq<char>, from: int)
    requires
        0 <= from <= key_table().len(),
        forall|i: int|
            0 <= i < key_table().len() ==> (#[trigger] key_table()[i]).0 != lower_name,
    ensures
        entry_named(key_table(), lower_name, from) is None,
    decreases key_table().len() - from,
{
    if from < key_table().len() {
        assert(key_table()[from].0 != lower_name);
        lemma_no_entry(lower_name, from + 1);
    }
}

/// The names of the modifiers: two for Control and for Alt, one for Shift, three for
/// Command.
pub proof fn law_modifier_names(name: Seq<char>)
    ensures
        modifier_named(name) == Some(Modifier::Ctrl) <==> (name == "ctrl"@ || name == "control"@),
        modifier_named(name) == Some(Modifier::Alt) <==> (name == "alt"@ || name == "option"@),
        modifier_named(name) == Some(Modifier::Shift) <==> name == "shift"@,
        modifier_named(name) == Some(Modifier::Meta) <==> (name == "cmd"@ || name == "meta"@ || name
            == "command"@),
{
    reveal_strlit("ctrl");
    reveal_strlit("control");
    reveal_strlit("alt");
    reveal_strlit("option");
    reveal_strlit("shift");
    reveal_strlit("cmd");
    reveal_strlit("meta");
    reveal_strlit("command");
    assert("ctrl"@.len() == 4 && "control"@.len() == 7 && "alt"@.len() == 3);
    assert("option"@.len() == 6 && "shift"@.len() == 5 && "cmd"@.len() == 3);
    assert("meta"@.len() == 4 && "command"@.len() == 7);
    assert("ctrl"@[0] != "meta"@[0] && "alt"@[0] != "cmd"@[0]);
    assert("control"@[2] != "command"@[2]);
}

/// The key of a combination is its last part that names no modifier, and the whole
/// where every part names one.
pub proof fn law_key_is_last_other_part(
    parts: Seq<Seq<char>>,
    names: Seq<Seq<char>>,
    whole: Seq<char>,
    at: int,
)
    requires
        -1 <= at < names.len(),
        at >= 0 ==> modifier_named(names[at]) is None,
        forall|i: int| at < i < names.len() ==> modifier_named(#[trigger] names[i]) is Some,
    ensures
        key_among(parts, names, whole) == (if at >= 0 {
            parts[at]
        } else {
            whole
        }),
    decreases names.len(),
{
    if names.len() > 0 && at < names.len() - 1 {
        assert(modifier_named(names[names.len() - 1]) is Some);
        let fewer = names.drop_last();
        assert forall|i: int| at < i < fewer.len() implies modifier_named(
            #[trigger] fewer[i],
        ) is Some by {
            assert(fewer[i] == names[i]);
        }
        law_key_is_last_other_part(parts, fewer, whole, at);
    }
}

/// To press a combination, its key goes down first and comes up then; the two events
/// are about the same key with the same modifiers, and carry no text.
pub proof fn law_key_goes_down_then_up(
    combo: Seq<char>,
    pressed: (InputDispatchKeyEventFull, InputDispatchKeyEventFull),
    first: Option<JsonView>,
    second: Option<JsonView>,
)
    requires
        is_key_event(pressed.0, KeyEventType::KeyDown, combo),
        is_key_event(pressed.1, KeyEventType::KeyUp, combo),
        holds_params(first, key_params(pressed.0)),
        holds_params(second, key_params(pressed.1)),
    ensures
        first matches Some(down) && (second matches Some(up) && {
            &&& member_text(down, "type"@) == Some("keyDown"@)
            &&& member_text(up, "type"@) == Some("keyUp"@)
            &&& member_text(down, "key"@) is Some
            &&& member_text(down, "key"@) == member_text(up, "key"@)
            &&& member_text(down, "code"@) is Some
            &&& member_text(down, "code"@) == member_text(up, "code"@)
            &&& down.member("text"@) is None && up.member("text"@) is None
            &&& down.member("modifiers"@) is Some <==> modifier_bits(part_names(combo)) != 0
            &&& holds_number(
                down,
                "windowsVirtualKeyCode"@,
                wide_i32_spec(pressed.0.windows_virtual_key_code),
            )
            &&& holds_number(
                up,
                "windowsVirtualKeyCode"@,
                wide_i32_spec(pressed.0.windows_virtual_key_code),
            )
        }),
{
    law_key_event_is_told(first, pressed.0);
    law_key_event_is_told(second, pressed.1);
}

/// In a combination of a modifier and a key, with a plus sign between them, the key is
/// the one behind the sign and the modifier the one before it.
pub proof fn law_combination_of_two(
    e: InputDispatchKeyEventFull,
    event_type: KeyEventType,
    before: Seq<char>,
    key: Seq<char>,
)
    requires
        !before.contains('+'),
        !key.contains('+'),
        modifier_named(lowered(before)) is Some,
        modifier_named(lowered(key)) is None,
        is_key_event(e, event_type, before + seq!['+'] + key),
    ensures
        e.event_type == event_type,
        opt_view(e.key) == Some(codes_of(key, lowered(key)).0),
        opt_view(e.code) == Some(codes_of(key, lowered(key)).1),
        e.windows_virtual_key_code == codes_of(key, lowered(key)).2,
        e.native_virtual_key_code == codes_of(key, lowered(key)).2,
        e.text is None,
        e.modifiers == Some(
            match modifier_named(lowered(before))->0 {
                Modifier::Alt => 1i32,
                Modifier::Ctrl => 2i32,
                Modifier::Meta => 4i32,
                Modifier::Shift => 8i32,
            },
        ),
{
    let combo = before + seq!['+'] + key;
    law_split_at_first(before, '+', key);
    law_split_at_first(key, '+', key);
    let parts = split(combo, seq!['+']);
    assert(parts =~= seq![before, key]);
    let names = part_names(combo);
    assert(names =~= seq![lowered(before), lowered(key)]);
    law_key_is_last_other_part(parts, names, combo, 1);
    assert(names[0] == lowered(before) && names[1] == lowered(key));
    law_modifier_bits(names);
    assert(forall|m: Modifier| names_modifier(names, m) <==> modifier_named(names[0]) == Some(m));
}

/// A combination without a plus sign is a key without modifiers.
pub proof fn law_key_alone(e: InputDispatchKeyEventFull, event_type: KeyEventType, key: Seq<char>)
    requires
        !key.contains('+'),
        modifier_named(lowered(key)) is None,
        is_key_event(e, event_type, key),
    ensures
        e.event_type == event_type,
        e.modifiers is None,
        opt_view(e.key) == Some(codes_of(key, lowered(key)).0),
        opt_view(e.code) == Some(codes_of(key, lowered(key)).1),
{
    law_split_at_first(key, '+', key);
    let parts = split(key, seq!['+']);
    assert(parts =~= seq![key]);
    let names = part_names(key);
    assert(names =~= seq![lowered(key)]);
    law_key_is_last_other_part(parts, names, key, 0);
    assert(names[0] == lowered(key));
    law_modifier_bits(names);
    assert(forall|m: Modifier| !names_modifier(names, m));
}

} // verus!
