//! Global hotkeys: which key events trigger which recorder command.
//! The keyboard hook itself lives with the program; here is the decision
//! made on each event.

use vstd::prelude::*;

verus! {

/// A command that a global hotkey asks for.
#[derive(Debug, Clone, Copy, PartialEq, Eq, Structural)]
pub enum HotkeyCommand {
    ToggleRecord,
    Snapshot,
    RegionSelect,
    Cancel,
}

/// The keys that the hotkeys tell apart; every other key is `Other`.
#[derive(Debug, Clone, Copy, PartialEq, Eq, Structural)]
pub enum Key {
    MetaLeft,
    MetaRight,
    ControlLeft,
    ControlRight,
    ShiftLeft,
    ShiftRight,
    KeyR,
    KeyS,
    KeyX,
    Escape,
    Other,
}

/// A keyboard event; mouse and other events are `Other`.
#[derive(Debug, Clone, Copy, PartialEq, Eq, Structural)]
pub enum KeyEvent {
    Press(Key),
    Release(Key),
    Other,
}

/// Which modifier keys are held down.
#[derive(Debug, Clone, Copy, PartialEq, Eq, Structural)]
pub struct HotkeyState {
    pub meta: bool,
    pub ctrl: bool,
    pub shift: bool,
}

/// The program's hotkey listener; its state is a `HotkeyState`.
pub struct HotkeyDaemon;

/// A Super (Meta) key.
pub open spec fn is_meta(k: Key) -> bool {
    k == Key::MetaLeft || k == Key::MetaRight
}

/// A Ctrl key.
pub open spec fn is_ctrl(k: Key) -> bool {
    k == Key::ControlLeft || k == Key::ControlRight
}

/// A Shift key.
pub open spec fn is_shift(k: Key) -> bool {
    k == Key::ShiftLeft || k == Key::ShiftRight
}

/// The command a chord letter stands for.
pub open spec fn chord_command(k: Key) -> Option<HotkeyCommand> {
    match k {
        Key::KeyR => Some(HotkeyCommand::ToggleRecord),
        Key::KeyS => Some(HotkeyCommand::Snapshot),
        Key::KeyX => Some(HotkeyCommand::RegionSelect),
        _ => None,
    }
}

/// The state after an event.
pub open spec fn spec_next_state(s: HotkeyState, e: KeyEvent) -> HotkeyState {
    match e {
        KeyEvent::Press(k) => if is_meta(k) {
            HotkeyState { meta: true, ..s }
        } else if is_ctrl(k) {
            HotkeyState { ctrl: true, ..s }
        } else if is_shift(k) {
            HotkeyState { shift: true, ..s }
        } else {
            s
        },
        KeyEvent::Release(k) => if is_meta(k) {
            HotkeyState { meta: false, ..s }
        } else if is_ctrl(k) {
            HotkeyState { ctrl: false, ..s }
        } else if is_shift(k) {
            HotkeyState { shift: false, ..s }
        } else {
            s
        },
        KeyEvent::Other => s,
    }
}

/// The command an event sends: Escape always cancels; R, S and X send their
/// command while Shift and Super or Ctrl are held.
pub open spec fn spec_command(s: HotkeyState, e: KeyEvent) -> Option<HotkeyCommand> {
    match e {
        KeyEvent::Press(k) => if k == Key::Escape {
            Some(HotkeyCommand::Cancel)
        } else if (s.meta || s.ctrl) && s.shift {
            chord_command(k)
        } else {
            None
        },
        _ => None,
    }
}

/// The state after a sequence of events.
pub open spec fn spec_run(s: HotkeyState, events: Seq<KeyEvent>) -> HotkeyState
    decreases events.len(),
{
    if events.len() == 0 {
        s
    } else {
        spec_run(spec_next_state(s, events[0]), events.drop_first())
    }
}

impl HotkeyState {
    /// No modifier held.
    pub fn new() -> (s: HotkeyState)
        ensures
            !s.meta && !s.ctrl && !s.shift,
    {
        HotkeyState { meta: false, ctrl: false, shift: false }
    }

    /// Takes in one event, and returns the command it sends, if any.
    pub fn handle(&mut self, event: KeyEvent) -> (cmd: Option<HotkeyCommand>)
        ensures
            *final(self) == spec_next_state(*old(self), event),
            cmd == spec_command(*old(self), event),
    {
        match event {
            KeyEvent::Press(key) => {
                match key {
                    Key::MetaLeft | Key::MetaRight => {
                        self.meta = true;
                        None
                    },
                    Key::ControlLeft | Key::ControlRight => {
                        self.ctrl = true;
                        None
                    },
                    Key::ShiftLeft | Key::ShiftRight => {
                        self.shift = true;
                        None
                    },
                    Key::KeyR => {
                        if (self.meta || self.ctrl) && self.shift {
                            Some(HotkeyCommand::ToggleRecord)
                        } else {
                            None
                        }
                    },
                    Key::KeyS => {
                        if (self.meta || self.ctrl) && self.shift {
                            Some(HotkeyCommand::Snapshot)
                        } else {
                            None
                        }
                    },
                    Key::KeyX => {
                        if (self.meta || self.ctrl) && self.shift {
                            Some(HotkeyCommand::RegionSelect)
                        } else {
                            None
                        }
                    },
                    Key::Escape => Some(HotkeyCommand::Cancel),
                    Key::Other => None,
                }
            },
            KeyEvent::Release(key) => {
                match key {
                    Key::MetaLeft | Key::MetaRight => self.meta = false,
                    Key::ControlLeft | Key::ControlRight => self.ctrl = false,
                    Key::ShiftLeft | Key::ShiftRight => self.shift = false,
                    _ => {},
                }
                None
            },
            KeyEvent::Other => None,
        }
    }
}

/// Holding Shift and then Super or Ctrl, from any state, makes R, S and X
/// send their commands.
pub proof fn lemma_chord_triggers(s: HotkeyState, shift: Key, modifier: Key, letter: Key)
    requires
        is_shift(shift),
        is_meta(modifier) || is_ctrl(modifier),
        letter == Key::KeyR || letter == Key::KeyS || letter == Key::KeyX,
    ensures
        spec_command(
            spec_run(s, seq![KeyEvent::Press(shift), KeyEvent::Press(modifier)]),
            KeyEvent::Press(letter),
        ) == chord_command(letter),
        chord_command(letter) is Some,
{
    let s1 = spec_next_state(s, KeyEvent::Press(shift));
    let s2 = spec_next_state(s1, KeyEvent::Press(modifier));
    assert(seq![KeyEvent::Press(shift), KeyEvent::Press(modifier)].drop_first()
        =~= seq![KeyEvent::Press(modifier)]);
    assert(seq![KeyEvent::Press(modifier)].drop_first() =~= Seq::<KeyEvent>::empty());
    reveal_with_fuel(spec_run, 3);
    assert(spec_run(s, seq![KeyEvent::Press(shift), KeyEvent::Press(modifier)]) == s2);
}

/// Once Shift is released, no letter sends a command until Shift is pressed
/// again; Escape still cancels.
pub proof fn lemma_release_shift_disarms(s: HotkeyState, shift: Key, k: Key)
    requires
        is_shift(shift),
        k != Key::Escape,
    ensures
        spec_command(spec_next_state(s, KeyEvent::Release(shift)), KeyEvent::Press(k)) is None,
{
}

/// Escape cancels in every state.
pub proof fn lemma_escape_cancels(s: HotkeyState)
    ensures
        spec_command(s, KeyEvent::Press(Key::Escape)) == Some(HotkeyCommand::Cancel),
{
}

/// Pressing a modifier sets its flag and releasing it clears it; the other
/// flags stay. Any other key, and any other event, leaves the flags alone.
pub proof fn lemma_modifier_flags(s: HotkeyState, k: Key)
    ensures
        is_meta(k) ==> spec_next_state(s, KeyEvent::Press(k)) == (HotkeyState { meta: true, ctrl: s.ctrl, shift: s.shift }),
        is_ctrl(k) ==> spec_next_state(s, KeyEvent::Press(k)) == (HotkeyState { meta: s.meta, ctrl: true, shift: s.shift }),
        is_shift(k) ==> spec_next_state(s, KeyEvent::Press(k)) == (HotkeyState { meta: s.meta, ctrl: s.ctrl, shift: true }),
        is_meta(k) ==> spec_next_state(s, KeyEvent::Release(k)) == (HotkeyState { meta: false, ctrl: s.ctrl, shift: s.shift }),
        is_ctrl(k) ==> spec_next_state(s, KeyEvent::Release(k)) == (HotkeyState { meta: s.meta, ctrl: false, shift: s.shift }),
        is_shift(k) ==> spec_next_state(s, KeyEvent::Release(k)) == (HotkeyState { meta: s.meta, ctrl: s.ctrl, shift: false }),
        !is_meta(k) && !is_ctrl(k) && !is_shift(k) ==> spec_next_state(s, KeyEvent::Press(k)) == s
            && spec_next_state(s, KeyEvent::Release(k)) == s,
        spec_next_state(s, KeyEvent::Other) == s,
{
}

/// Once Ctrl is released while Super is not held, no key but Escape sends
/// a command; likewise once Super is released while Ctrl is not held.
pub proof fn lemma_release_chord_modifier_disarms(s: HotkeyState, released: Key, k: Key)
    requires
        (is_ctrl(released) && !s.meta) || (is_meta(released) && !s.ctrl),
        k != Key::Escape,
    ensures
        spec_command(spec_next_state(s, KeyEvent::Release(released)), KeyEvent::Press(k)) is None,
        !spec_next_state(s, KeyEvent::Release(released)).ctrl || !is_ctrl(released),
        !spec_next_state(s, KeyEvent::Release(released)).meta || !is_meta(released),
{
}

/// A letter sends its command exactly when Shift and Super or Ctrl are
/// held; Escape always cancels; nothing else and no release sends anything.
pub proof fn lemma_command_exactly_when_chord_held(s: HotkeyState, k: Key)
    ensures
        spec_command(s, KeyEvent::Press(Key::KeyR)) == (if (s.meta || s.ctrl) && s.shift { Some(HotkeyCommand::ToggleRecord) } else { None }),
        spec_command(s, KeyEvent::Press(Key::KeyS)) == (if (s.meta || s.ctrl) && s.shift { Some(HotkeyCommand::Snapshot) } else { None }),
        spec_command(s, KeyEvent::Press(Key::KeyX)) == (if (s.meta || s.ctrl) && s.shift { Some(HotkeyCommand::RegionSelect) } else { None }),
        spec_command(s, KeyEvent::Press(Key::Escape)) == Some(HotkeyCommand::Cancel),
        spec_command(s, KeyEvent::Release(k)) is None,
        spec_command(s, KeyEvent::Other) is None,
        k != Key::KeyR && k != Key::KeyS && k != Key::KeyX && k != Key::Escape
            ==> spec_command(s, KeyEvent::Press(k)) is None,
{
}

} // verus!
