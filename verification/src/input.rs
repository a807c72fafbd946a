//! Keyboard state: which keys are held, and which went down or up since the
//! last frame.

use crate::gfx::{resize_window, Window};
use std::collections::HashMap;
use vstd::prelude::*;

verus! {

broadcast use vstd::std_specs::hash::group_hash_axioms;

/// A key of the keyboard: the keys the game listens to by name, any other
/// key by the number that the window system gives it.
#[derive(Copy, Clone, PartialEq, Eq, Structural, Debug)]
pub enum Key {
    W,
    A,
    S,
    D,
    Space,
    Other(u32),
}

/// Whether a key went down or up.
#[derive(Copy, Clone, PartialEq, Eq, Structural, Debug)]
pub enum KeyState {
    Pressed,
    Released,
}

/// What the window reports.
#[derive(Copy, Clone, PartialEq, Eq, Structural, Debug)]
pub enum Event {
    /// The user asked to close the window.
    Closed,
    /// The window has a new size in pixels.
    Resized(u32, u32),
    /// A key went down or up.
    KeyboardInput { key: Key, state: KeyState },
    /// Anything else.
    Other,
}

impl Key {
    /// The number under which a key is filed; no two keys share one.
    pub open spec fn spec_code(self) -> u64 {
        match self {
            Key::W => 0,
            Key::A => 1,
            Key::S => 2,
            Key::D => 3,
            Key::Space => 4,
            Key::Other(n) => (n + 5) as u64,
        }
    }

    #[verifier::when_used_as_spec(spec_code)]
    pub fn code(self) -> (code: u64)
        ensures
            code == self.spec_code(),
    {
        match self {
            Key::W => 0,
            Key::A => 1,
            Key::S => 2,
            Key::D => 3,
            Key::Space => 4,
            Key::Other(n) => n as u64 + 5,
        }
    }
}

/// The keys that a table of flags marks with `true`.
pub open spec fn marked(flags: Map<u64, bool>) -> Set<Key> {
    Set::new(|key: Key| flags.contains_key(key.code()) && flags[key.code()])
}

/// The keyboard as the game sees it.
pub struct Keys {
    /// Keys that are down.
    pub held: Set<Key>,
    /// Keys that went down since the last frame.
    pub pressed: Set<Key>,
    /// Keys that went up since the last frame.
    pub released: Set<Key>,
}

impl Keys {
    /// A key goes down. A key that is held already, as when the keyboard
    /// repeats it, does not count as pressed again.
    pub open spec fn press(self, key: Key) -> Keys {
        Keys {
            held: self.held.insert(key),
            pressed: if self.held.contains(key) {
                self.pressed
            } else {
                self.pressed.insert(key)
            },
            released: self.released,
        }
    }

    /// A key goes up.
    pub open spec fn release(self, key: Key) -> Keys {
        Keys {
            held: self.held.remove(key),
            pressed: self.pressed,
            released: self.released.insert(key),
        }
    }

    pub open spec fn key_input(self, key: Key, state: KeyState) -> Keys {
        match state {
            KeyState::Pressed => self.press(key),
            KeyState::Released => self.release(key),
        }
    }

    /// A frame ends: what went down or up during it is forgotten, what is
    /// held stays held.
    pub open spec fn next_frame(self) -> Keys {
        Keys { held: self.held, pressed: Set::empty(), released: Set::empty() }
    }
}

/// The window and the keyboard after one event.
pub open spec fn after_event(window: Window, keys: Keys, event: Event) -> (Window, Keys) {
    match event {
        Event::Closed => (Window { is_close_requested: true, ..window }, keys),
        Event::Resized(width, height) => (Window { width, height, ..window }, keys),
        Event::KeyboardInput { key, state } => (window, keys.key_input(key, state)),
        Event::Other => (window, keys),
    }
}

/// The window and the keyboard after a run of events, first event first.
pub open spec fn after_events(window: Window, keys: Keys, events: Seq<Event>) -> (Window, Keys)
    decreases events.len(),
{
    if events.len() == 0 {
        (window, keys)
    } else {
        let (w, k) = after_events(window, keys, events.drop_last());
        after_event(w, k, events.last())
    }
}

pub struct InputMan {
    current_keys: HashMap<u64, bool>,
    pressed_keys: HashMap<u64, bool>,
    released_keys: HashMap<u64, bool>,
}

impl View for InputMan {
    type V = Keys;

    closed spec fn view(&self) -> Keys {
        Keys {
            held: marked(self.current_keys@),
            pressed: marked(self.pressed_keys@),
            released: marked(self.released_keys@),
        }
    }
}

impl InputMan {
    /// No key is held, none was pressed or released.
    pub fn new() -> (input_man: InputMan)
        ensures
            input_man@.held == Set::<Key>::empty(),
            input_man@.pressed == Set::<Key>::empty(),
            input_man@.released == Set::<Key>::empty(),
    {
        let input_man = InputMan {
            current_keys: HashMap::new(),
            pressed_keys: HashMap::new(),
            released_keys: HashMap::new(),
        };
        assert(input_man@.held =~= Set::<Key>::empty());
        assert(input_man@.pressed =~= Set::<Key>::empty());
        assert(input_man@.released =~= Set::<Key>::empty());
        input_man
    }
}

/// Whether the table marks the key.
fn is_marked(flags: &HashMap<u64, bool>, key: Key) -> (found: bool)
    ensures
        found == marked(flags@).contains(key),
{
    let code = key.code();
    match flags.get(&code) {
        Some(flag) => *flag,
        None => false,
    }
}

/// Whether the key went down since the last frame.
pub fn is_key_pressed(input_man: &InputMan, key: Key) -> (pressed: bool)
    ensures
        pressed == input_man@.pressed.contains(key),
{
    is_marked(&input_man.pressed_keys, key)
}

/// Whether the key went up since the last frame.
pub fn is_key_released(input_man: &InputMan, key: Key) -> (released: bool)
    ensures
        released == input_man@.released.contains(key),
{
    is_marked(&input_man.released_keys, key)
}

/// Whether the key is down.
pub fn is_key_held(input_man: &InputMan, key: Key) -> (held: bool)
    ensures
        held == input_man@.held.contains(key),
{
    is_marked(&input_man.current_keys, key)
}

/// Marking a key in a table changes the mark of no other key.
proof fn lemma_marked_insert(flags: Map<u64, bool>, key: Key, flag: bool)
    ensures
        marked(flags.insert(key.code(), flag)) == if flag {
            marked(flags).insert(key)
        } else {
            marked(flags).remove(key)
        },
{
    let after = marked(flags.insert(key.code(), flag));
    let expected = if flag {
        marked(flags).insert(key)
    } else {
        marked(flags).remove(key)
    };
    assert forall|other: Key| after.contains(other) == expected.contains(other) by {
        if other != key {
            assert(other.code() != key.code());
        }
    }
    assert(after =~= expected);
}

/// Ends the frame: forgets which keys went down or up during it.
pub fn update_input(input_man: &mut InputMan)
    ensures
        final(input_man)@ == old(input_man)@.next_frame(),
{
    input_man.pressed_keys.clear();
    input_man.released_keys.clear();
    assert(input_man@.pressed =~= Set::<Key>::empty());
    assert(input_man@.released =~= Set::<Key>::empty());
}

/// Records that a key went down or up.
pub fn process_key_input(input_man: &mut InputMan, key: Key, state: KeyState)
    ensures
        final(input_man)@ == old(input_man)@.key_input(key, state),
{
    let code = key.code();
    match state {
        KeyState::Pressed => {
            if !is_key_held(input_man, key) {
                proof {
                    lemma_marked_insert(input_man.pressed_keys@, key, true);
                }
                input_man.pressed_keys.insert(code, true);
            }
            proof {
                lemma_marked_insert(input_man.current_keys@, key, true);
            }
            input_man.current_keys.insert(code, true);
        },
        KeyState::Released => {
            proof {
                lemma_marked_insert(input_man.released_keys@, key, true);
                lemma_marked_insert(input_man.current_keys@, key, false);
            }
            input_man.released_keys.insert(code, true);
            input_man.current_keys.insert(code, false);
        },
    }
}

/// Takes in the events of one poll, in the order in which they came: a
/// close request is noted, a resize sets the window's size, a key event goes
/// to the keyboard state, and the rest is ignored.
pub fn process_events(window: &mut Window, input_man: &mut InputMan, events: &Vec<Event>)
    ensures
        (*final(window), final(input_man)@) == after_events(
            *old(window),
            old(input_man)@,
            events@,
        ),
{
    let mut i: usize = 0;
    while i < events.len()
        invariant
            i <= events.len(),
            (*window, input_man@) == after_events(*old(window), old(input_man)@, events@.take(i as int)),
        decreases events.len() - i,
    {
        proof {
            assert(events@.take(i + 1).drop_last() == events@.take(i as int));
        }
        match events[i] {
            Event::Closed => {
                window.is_close_requested = true;
            },
            Event::Resized(width, height) => {
                resize_window(window, width, height);
            },
            Event::KeyboardInput { key, state } => {
                process_key_input(input_man, key, state);
            },
            Event::Other => {},
        }
        i += 1;
    }
    proof {
        assert(events@.take(events.len() as int) == events@);
    }
}

} // verus!
