use wolf_screen_recorder::hotkeys::{HotkeyCommand, HotkeyState, Key, KeyEvent};

fn feed(s: &mut HotkeyState, events: &[KeyEvent]) -> Vec<Option<HotkeyCommand>> {
    events.iter().map(|e| s.handle(*e)).collect()
}

#[test]
fn starts_with_no_modifier() {
    let s = HotkeyState::new();
    assert!(!s.meta && !s.ctrl && !s.shift);
}

#[test]
fn super_shift_letters_send_commands() {
    let mut s = HotkeyState::new();
    let out = feed(
        &mut s,
        &[
            KeyEvent::Press(Key::MetaLeft),
            KeyEvent::Press(Key::ShiftRight),
            KeyEvent::Press(Key::KeyR),
            KeyEvent::Press(Key::KeyS),
            KeyEvent::Press(Key::KeyX),
        ],
    );
    assert_eq!(
        out,
        vec![
            None,
            None,
            Some(HotkeyCommand::ToggleRecord),
            Some(HotkeyCommand::Snapshot),
            Some(HotkeyCommand::RegionSelect)
        ]
    );
    assert!(s.meta && s.shift && !s.ctrl);
}

#[test]
fn ctrl_shift_works_like_super_shift() {
    let mut s = HotkeyState::new();
    feed(&mut s, &[KeyEvent::Press(Key::ShiftLeft), KeyEvent::Press(Key::ControlRight)]);
    assert_eq!(s.handle(KeyEvent::Press(Key::KeyR)), Some(HotkeyCommand::ToggleRecord));
}

#[test]
fn letters_without_full_chord_do_nothing() {
    let mut s = HotkeyState::new();
    assert_eq!(s.handle(KeyEvent::Press(Key::KeyR)), None);
    s.handle(KeyEvent::Press(Key::MetaLeft));
    assert_eq!(s.handle(KeyEvent::Press(Key::KeyS)), None);
    let mut s = HotkeyState::new();
    s.handle(KeyEvent::Press(Key::ShiftLeft));
    assert_eq!(s.handle(KeyEvent::Press(Key::KeyX)), None);
    assert_eq!(s.handle(KeyEvent::Press(Key::Other)), None);
}

#[test]
fn releasing_a_modifier_disarms_the_chord() {
    let mut s = HotkeyState::new();
    feed(&mut s, &[KeyEvent::Press(Key::MetaRight), KeyEvent::Press(Key::ShiftLeft)]);
    assert_eq!(s.handle(KeyEvent::Release(Key::ShiftRight)), None);
    assert!(!s.shift);
    assert_eq!(s.handle(KeyEvent::Press(Key::KeyR)), None);
    s.handle(KeyEvent::Press(Key::ShiftLeft));
    s.handle(KeyEvent::Release(Key::MetaLeft));
    assert!(!s.meta);
    assert_eq!(s.handle(KeyEvent::Press(Key::KeyS)), None);
}

#[test]
fn escape_always_cancels() {
    let mut s = HotkeyState::new();
    assert_eq!(s.handle(KeyEvent::Press(Key::Escape)), Some(HotkeyCommand::Cancel));
    feed(&mut s, &[KeyEvent::Press(Key::ControlLeft), KeyEvent::Press(Key::ShiftLeft)]);
    assert_eq!(s.handle(KeyEvent::Press(Key::Escape)), Some(HotkeyCommand::Cancel));
    // Releasing Escape, or any other event, sends nothing and changes nothing.
    let before = s;
    assert_eq!(s.handle(KeyEvent::Release(Key::Escape)), None);
    assert_eq!(s.handle(KeyEvent::Other), None);
    assert_eq!(s, before);
}
