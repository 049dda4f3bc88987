use panesmith::{
    HostInput, KeyCode, KeyEventKind, KeyInput, KeyModifiers, MediaKeyCode, ModifierKeyCode,
    MouseButton, MouseEventKind, MouseInput, Size, UnsupportedEventError,
};

#[test]
fn host_input_variants_are_constructible() {
    let _key = HostInput::Key(KeyInput {
        code: KeyCode::Char('a'),
        modifiers: KeyModifiers::default(),
        kind: KeyEventKind::Press,
    });
    let _mouse = HostInput::Mouse(MouseInput {
        kind: MouseEventKind::Down(MouseButton::Left),
        column: 5,
        row: 10,
        modifiers: KeyModifiers::default(),
    });
    let _paste = HostInput::Paste("hello\nworld".into());
    let _focus_gained = HostInput::FocusGained;
    let _focus_lost = HostInput::FocusLost;
    let _resize = HostInput::Resize(Size::new(24, 80));
    let _raw = HostInput::Raw(vec![0x01, 0x02]);
}

#[test]
fn key_modifiers_bitfield_combinations() {
    let m = KeyModifiers {
        shift: true,
        control: true,
        alt: false,
        super_key: true,
        hyper: false,
        meta: true,
    };
    assert!(m.shift);
    assert!(m.control);
    assert!(!m.alt);
    assert!(m.super_key);
    assert!(!m.hyper);
    assert!(m.meta);
}

#[test]
fn mouse_event_kind_variants() {
    let _down = MouseEventKind::Down(MouseButton::Left);
    let _up = MouseEventKind::Up(MouseButton::Right);
    let _drag = MouseEventKind::Drag(MouseButton::Middle);
    let _moved = MouseEventKind::Moved;
    let _scroll_down = MouseEventKind::ScrollDown;
    let _scroll_up = MouseEventKind::ScrollUp;
    let _scroll_left = MouseEventKind::ScrollLeft;
    let _scroll_right = MouseEventKind::ScrollRight;
}

#[test]
fn key_code_media_and_modifier_variants() {
    let _media = KeyCode::Media(MediaKeyCode::Play);
    let _modifier = KeyCode::Modifier(ModifierKeyCode::LeftAlt);
    let _f = KeyCode::F(12);
    let _char = KeyCode::Char('ñ');
}

#[test]
fn unsupported_event_error_implements_error() {
    let err = UnsupportedEventError {
        message: "test".into(),
    };
    let display = err.to_string();
    assert!(display.contains("unsupported event"));
    assert!(display.contains("test"));
}

#[test]
fn raw_bytes_variant_still_works() {
    let input = HostInput::Raw(vec![0x1b, 0x5b, 0x41]);
    assert!(matches!(input, HostInput::Raw(ref b) if b == &[0x1b, 0x5b, 0x41]));
}
