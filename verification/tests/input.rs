use notecalc_web::input::{translate, EditorInputEvent, InputModifiers};

const NO_MODIFIERS: InputModifiers = InputModifiers { shift: false, ctrl: false, alt: false };

#[test]
fn control_codes_give_their_events_in_order() {
    let expected = [
        EditorInputEvent::Backspace,
        EditorInputEvent::Enter,
        EditorInputEvent::Home,
        EditorInputEvent::End,
        EditorInputEvent::Up,
        EditorInputEvent::Down,
        EditorInputEvent::Left,
        EditorInputEvent::Right,
        EditorInputEvent::Del,
        EditorInputEvent::Esc,
        EditorInputEvent::PageUp,
        EditorInputEvent::PageDown,
        EditorInputEvent::Tab,
    ];
    for (i, event) in expected.iter().enumerate() {
        let code = i as u32 + 1;
        assert_eq!(translate(code, 0), Some((*event, NO_MODIFIERS)));
    }
}

#[test]
fn other_scalar_values_give_characters() {
    assert_eq!(translate('1' as u32, 0), Some((EditorInputEvent::Char('1'), NO_MODIFIERS)));
    assert_eq!(translate('+' as u32, 0), Some((EditorInputEvent::Char('+'), NO_MODIFIERS)));
    assert_eq!(translate(0x20AC, 0), Some((EditorInputEvent::Char('\u{20AC}'), NO_MODIFIERS)));
    assert_eq!(translate(0x10FFFF, 0), Some((EditorInputEvent::Char('\u{10FFFF}'), NO_MODIFIERS)));
    assert_eq!(translate(0xD7FF, 0), Some((EditorInputEvent::Char('\u{D7FF}'), NO_MODIFIERS)));
    assert_eq!(translate(0xE000, 0), Some((EditorInputEvent::Char('\u{E000}'), NO_MODIFIERS)));
}

#[test]
fn code_zero_and_code_fourteen_are_characters() {
    assert_eq!(translate(0, 0), Some((EditorInputEvent::Char('\0'), NO_MODIFIERS)));
    assert_eq!(translate(14, 0), Some((EditorInputEvent::Char('\u{E}'), NO_MODIFIERS)));
}

#[test]
fn surrogates_and_codes_out_of_range_give_nothing() {
    assert_eq!(translate(0xD800, 0), None);
    assert_eq!(translate(0xDBFF, 0), None);
    assert_eq!(translate(0xDFFF, 0), None);
    assert_eq!(translate(0x110000, 0), None);
    assert_eq!(translate(u32::MAX, 7), None);
}

#[test]
fn every_code_is_translated_as_std_reads_it() {
    let mut code: u32 = 0;
    while code <= 0x11_0100 {
        let got = translate(code, 0).map(|(event, _)| event);
        if (1..=13).contains(&code) {
            assert!(got.is_some());
            assert!(!matches!(got, Some(EditorInputEvent::Char(_))));
        } else {
            assert_eq!(got, char::from_u32(code).map(EditorInputEvent::Char));
        }
        code += 1;
    }
}

#[test]
fn mask_bits_are_shift_ctrl_alt() {
    assert_eq!(InputModifiers::from_mask(0), NO_MODIFIERS);
    assert_eq!(
        InputModifiers::from_mask(1),
        InputModifiers { shift: true, ctrl: false, alt: false }
    );
    assert_eq!(
        InputModifiers::from_mask(2),
        InputModifiers { shift: false, ctrl: true, alt: false }
    );
    assert_eq!(
        InputModifiers::from_mask(4),
        InputModifiers { shift: false, ctrl: false, alt: true }
    );
    assert_eq!(InputModifiers::from_mask(7), InputModifiers { shift: true, ctrl: true, alt: true });
}

#[test]
fn higher_mask_bits_are_ignored() {
    assert_eq!(InputModifiers::from_mask(0xF8), NO_MODIFIERS);
    assert_eq!(
        InputModifiers::from_mask(0xFD),
        InputModifiers { shift: true, ctrl: false, alt: true }
    );
    assert_eq!(
        translate(9, 0x82),
        Some((EditorInputEvent::Del, InputModifiers { shift: false, ctrl: true, alt: false }))
    );
}

#[test]
fn modifiers_go_with_characters_too() {
    assert_eq!(
        translate('a' as u32, 3),
        Some((EditorInputEvent::Char('a'), InputModifiers { shift: true, ctrl: true, alt: false }))
    );
}
