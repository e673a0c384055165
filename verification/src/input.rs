//! Key codes and modifier masks, as the host sends them, turned into editor
//! events.

use vstd::prelude::*;

verus! {

/// What one key press asks of the editor.
#[derive(Clone, Copy, Debug, PartialEq, Eq, Structural)]
pub enum EditorInputEvent {
    Backspace,
    Enter,
    Home,
    End,
    Up,
    Down,
    Left,
    Right,
    Del,
    Esc,
    PageUp,
    PageDown,
    Tab,
    Char(char),
}

/// The modifier keys held down during a key press.
#[derive(Clone, Copy, Debug, PartialEq, Eq, Structural)]
pub struct InputModifiers {
    pub shift: bool,
    pub ctrl: bool,
    pub alt: bool,
}

/// The control events, in the order of their codes: the event at index `i`
/// has the code `i + 1`.
pub open spec fn control_events() -> Seq<EditorInputEvent> {
    seq![
        EditorInputEvent::Backspace,
        EditorInputEvent::Enter,
        EditorInputEvent::Home,
        EditorInputEvent::End,
        EditorInputEvent::Up,
        EditorInputEvent::Down,
        EditorInputEvent::Left,
        EditorInputEvent::Right,
        EditorInputEvent::Del,
        EditorInputEvent::Esc,
        EditorInputEvent::PageUp,
        EditorInputEvent::PageDown,
        EditorInputEvent::Tab,
    ]
}

/// Whether `code` is a Unicode scalar value: a code point that is no
/// surrogate half.
pub open spec fn is_scalar_value(code: u32) -> bool {
    code <= 0xD7FF || (0xE000 <= code && code <= 0x10FFFF)
}

/// The event that a key code stands for, if it stands for one.
pub open spec fn event_of_code(code: u32) -> Option<EditorInputEvent> {
    if 1 <= code <= 13 {
        Some(control_events()[code - 1])
    } else if is_scalar_value(code) {
        Some(EditorInputEvent::Char(code as char))
    } else {
        None
    }
}

/// The modifier set that a mask stands for: bit 0 is shift, bit 1 is ctrl,
/// bit 2 is alt, and the other bits say nothing.
pub open spec fn modifiers_of_mask(mask: u8) -> InputModifiers {
    InputModifiers { shift: mask & 1 != 0, ctrl: mask & 2 != 0, alt: mask & 4 != 0 }
}

/// `char::from_u32` of std: the character with the given code point, or
/// nothing where the code point is a surrogate half or lies above 0x10FFFF.
#[verifier::external_body]
fn char_from_code(code: u32) -> (r: Option<char>)
    ensures
        r == if is_scalar_value(code) {
            Some(code as char)
        } else {
            None
        },
{
    char::from_u32(code)
}

impl InputModifiers {
    /// Reads the modifier keys out of the host's bit mask.
    pub fn from_mask(mask: u8) -> (r: InputModifiers)
        ensures
            r == modifiers_of_mask(mask),
    {
        InputModifiers { shift: mask & 1 != 0, ctrl: mask & 2 != 0, alt: mask & 4 != 0 }
    }
}

/// Turns what the host sends for a key press into the event for the editor
/// and the modifiers that go with it. A code that is neither a control code
/// nor a character gives nothing, and the key press is then to be ignored.
pub fn translate(code: u32, modifier_mask: u8) -> (r: Option<(EditorInputEvent, InputModifiers)>)
    ensures
        r == match event_of_code(code) {
            Some(event) => Some((event, modifiers_of_mask(modifier_mask))),
            None => None,
        },
{
    let modifiers = InputModifiers::from_mask(modifier_mask);
    let event = match code {
        1 => EditorInputEvent::Backspace,
        2 => EditorInputEvent::Enter,
        3 => EditorInputEvent::Home,
        4 => EditorInputEvent::End,
        5 => EditorInputEvent::Up,
        6 => EditorInputEvent::Down,
        7 => EditorInputEvent::Left,
        8 => EditorInputEvent::Right,
        9 => EditorInputEvent::Del,
        10 => EditorInputEvent::Esc,
        11 => EditorInputEvent::PageUp,
        12 => EditorInputEvent::PageDown,
        13 => EditorInputEvent::Tab,
        _ => {
            match char_from_code(code) {
                Some(ch) => EditorInputEvent::Char(ch),
                None => {
                    return None;
                },
            }
        },
    };
    Some((event, modifiers))
}

/// Every control code gives its own event, every other scalar value gives the
/// character with that code point, and no other code gives an event.
pub proof fn lemma_translation_total(code: u32)
    ensures
        1 <= code <= 13 ==> event_of_code(code) == Some(control_events()[code - 1]),
        1 <= code <= 13 ==> !(event_of_code(code) matches Some(EditorInputEvent::Char(_))),
        !(1 <= code <= 13) && is_scalar_value(code) ==> event_of_code(code) == Some(
            EditorInputEvent::Char(code as char),
        ) && (code as char) as u32 == code,
        !(1 <= code <= 13) && !is_scalar_value(code) ==> event_of_code(code) is None,
        event_of_code(code) is Some <==> is_scalar_value(code),
{
}

} // verus!
