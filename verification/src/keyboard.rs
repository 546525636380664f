//! The sixteen-key keypad: which keys are down, and the single wait for the
//! next key press.

use vstd::prelude::*;

verus! {

/// Whether a key is held.
#[derive(Clone, Copy, Debug, PartialEq, Eq, Structural)]
pub enum KeyState {
    Up,
    Down,
}

/// One of the sixteen keys, named by its hexadecimal digit.
#[derive(Clone, Copy, Debug, PartialEq, Eq, Structural)]
pub enum Key {
    Key0,
    Key1,
    Key2,
    Key3,
    Key4,
    Key5,
    Key6,
    Key7,
    Key8,
    Key9,
    KeyA,
    KeyB,
    KeyC,
    KeyD,
    KeyE,
    KeyF,
}

impl Key {
    /// The key's number, 0 for `Key0` up to 15 for `KeyF`.
    pub open spec fn number(self) -> int {
        match self {
            Key::Key0 => 0,
            Key::Key1 => 1,
            Key::Key2 => 2,
            Key::Key3 => 3,
            Key::Key4 => 4,
            Key::Key5 => 5,
            Key::Key6 => 6,
            Key::Key7 => 7,
            Key::Key8 => 8,
            Key::Key9 => 9,
            Key::KeyA => 10,
            Key::KeyB => 11,
            Key::KeyC => 12,
            Key::KeyD => 13,
            Key::KeyE => 14,
            Key::KeyF => 15,
        }
    }

    /// The key with number `n`, if `n` is below 16.
    pub open spec fn numbered(n: int) -> Option<Key> {
        if n == 0 {
            Some(Key::Key0)
        } else if n == 1 {
            Some(Key::Key1)
        } else if n == 2 {
            Some(Key::Key2)
        } else if n == 3 {
            Some(Key::Key3)
        } else if n == 4 {
            Some(Key::Key4)
        } else if n == 5 {
            Some(Key::Key5)
        } else if n == 6 {
            Some(Key::Key6)
        } else if n == 7 {
            Some(Key::Key7)
        } else if n == 8 {
            Some(Key::Key8)
        } else if n == 9 {
            Some(Key::Key9)
        } else if n == 10 {
            Some(Key::KeyA)
        } else if n == 11 {
            Some(Key::KeyB)
        } else if n == 12 {
            Some(Key::KeyC)
        } else if n == 13 {
            Some(Key::KeyD)
        } else if n == 14 {
            Some(Key::KeyE)
        } else if n == 15 {
            Some(Key::KeyF)
        } else {
            None
        }
    }

    /// Numbering and naming are inverse to each other.
    pub broadcast proof fn lemma_number_numbered(self)
        ensures
            0 <= #[trigger] self.number() < 16,
            Key::numbered(self.number()) == Some(self),
    {
    }

    /// The key numbered `v`, or `None` where `v` is 16 or more.
    pub fn from(v: u8) -> (r: Option<Key>)
        ensures
            r == Key::numbered(v as int),
    {
        match v {
            0 => Some(Key::Key0),
            1 => Some(Key::Key1),
            2 => Some(Key::Key2),
            3 => Some(Key::Key3),
            4 => Some(Key::Key4),
            5 => Some(Key::Key5),
            6 => Some(Key::Key6),
            7 => Some(Key::Key7),
            8 => Some(Key::Key8),
            9 => Some(Key::Key9),
            10 => Some(Key::KeyA),
            11 => Some(Key::KeyB),
            12 => Some(Key::KeyC),
            13 => Some(Key::KeyD),
            14 => Some(Key::KeyE),
            15 => Some(Key::KeyF),
            _ => None,
        }
    }

    /// The key's number.
    pub fn code(self) -> (n: u8)
        ensures
            n == self.number(),
            n < 16,
    {
        match self {
            Key::Key0 => 0,
            Key::Key1 => 1,
            Key::Key2 => 2,
            Key::Key3 => 3,
            Key::Key4 => 4,
            Key::Key5 => 5,
            Key::Key6 => 6,
            Key::Key7 => 7,
            Key::Key8 => 8,
            Key::Key9 => 9,
            Key::KeyA => 10,
            Key::KeyB => 11,
            Key::KeyC => 12,
            Key::KeyD => 13,
            Key::KeyE => 14,
            Key::KeyF => 15,
        }
    }
}

/// The report that a key went up or down.
#[derive(Clone, Copy, Debug, PartialEq, Eq, Structural)]
pub struct KeyboardMessage {
    pub state: KeyState,
    pub key: Key,
}

impl KeyboardMessage {
    /// The report that `key` went to `state`.
    pub fn new(state: KeyState, key: Key) -> (m: Self)
        ensures
            m == (KeyboardMessage { state, key }),
    {
        Self { state, key }
    }

    /// The report that `key` was released.
    pub fn up(key: Key) -> (m: Self)
        ensures
            m == (KeyboardMessage { state: KeyState::Up, key }),
    {
        Self { state: KeyState::Up, key }
    }

    /// The report that `key` was pressed.
    pub fn down(key: Key) -> (m: Self)
        ensures
            m == (KeyboardMessage { state: KeyState::Down, key }),
    {
        Self { state: KeyState::Down, key }
    }
}

/// How a wait for a key press stands.
#[derive(Clone, Copy, Debug, PartialEq, Eq, Structural)]
pub enum KeyWait {
    /// This key went down while the keypad was waiting.
    Pressed(Key),
    /// The wait was called off.
    Interrupted,
    /// No key went down yet; the keypad is waiting.
    Pending,
}

/// What a keypad holds.
pub struct KeyboardState {
    /// The state of each key, by the key's number.
    pub keys: Seq<KeyState>,
    /// Whether the next key press is waited for.
    pub waiting: bool,
    /// The key press that ended the last wait and was not collected yet.
    pub pressed: Option<Key>,
    /// Whether the wait was called off and nobody was told yet.
    pub interrupted: bool,
}

impl KeyboardState {
    /// The keypad after a report. The table of key states takes the report
    /// first. Then a key that went from up to down while the keypad was
    /// waiting ends the wait and is kept for collection.
    pub open spec fn post(self, m: KeyboardMessage) -> KeyboardState {
        let keys = self.keys.update(m.key.number(), m.state);
        if self.releases(m) {
            KeyboardState { keys, waiting: false, pressed: Some(m.key), ..self }
        } else {
            KeyboardState { keys, ..self }
        }
    }

    /// Whether a report ends the wait: the keypad is waiting, and the key goes
    /// from up to down.
    pub open spec fn releases(self, m: KeyboardMessage) -> bool {
        self.waiting && m.state == KeyState::Down && self.keys[m.key.number()] == KeyState::Up
    }

    /// Whether a wait is under way: the keypad is waiting, or a key press
    /// that ended the wait was not collected yet.
    pub open spec fn awaiting(self) -> bool {
        self.waiting || self.pressed is Some
    }

    /// How a wait stands when it is asked for: called off, or else ended by a
    /// key press, or else still pending.
    pub open spec fn wait_result(self) -> KeyWait {
        if self.interrupted {
            KeyWait::Interrupted
        } else {
            match self.pressed {
                Some(key) => KeyWait::Pressed(key),
                None => KeyWait::Pending,
            }
        }
    }

    /// The keypad after a wait was asked for. Calling off is told once and
    /// ends the wait, and a key press is collected once; where there is
    /// neither, the keypad waits.
    pub open spec fn wait(self) -> KeyboardState {
        if self.interrupted {
            KeyboardState { interrupted: false, waiting: false, pressed: None, ..self }
        } else {
            match self.pressed {
                Some(key) => KeyboardState { pressed: None, ..self },
                None => KeyboardState { waiting: true, ..self },
            }
        }
    }
}

/// A report is in the table of key states as soon as it is posted, whether
/// or not it ends a wait, and no other key's state changes.
pub proof fn lemma_post_is_seen(k: KeyboardState, m: KeyboardMessage, other: Key)
    requires
        k.keys.len() == 16,
    ensures
        k.post(m).keys.len() == 16,
        k.post(m).keys[m.key.number()] == m.state,
        other != m.key ==> k.post(m).keys[other.number()] == k.keys[other.number()],
{
}

/// The first key that goes down while the keypad waits ends the wait:
/// reports that follow end nothing and leave the key that is kept for
/// collection as it is.
pub proof fn lemma_first_press_wins(k: KeyboardState, first: KeyboardMessage, next: KeyboardMessage)
    requires
        k.releases(first),
    ensures
        k.post(first).wait_result() == if k.interrupted {
            KeyWait::Interrupted
        } else {
            KeyWait::Pressed(first.key)
        },
        !k.post(first).releases(next),
        k.post(first).post(next).pressed == Some(first.key),
{
}

/// A key that went down before the wait began does not end it.
pub proof fn lemma_wait_begins_empty(k: KeyboardState, earlier: KeyboardMessage)
    requires
        !k.awaiting(),
        !k.interrupted,
    ensures
        !k.releases(earlier),
        k.post(earlier).wait_result() == KeyWait::Pending,
        k.post(earlier).wait().waiting,
{
}

/// The keypad.
pub struct Keyboard {
    key_states: [KeyState; 16],
    wait_for_key: bool,
    pressed: Option<Key>,
    interrupted: bool,
}

impl View for Keyboard {
    type V = KeyboardState;

    closed spec fn view(&self) -> KeyboardState {
        KeyboardState {
            keys: self.key_states@,
            waiting: self.wait_for_key,
            pressed: self.pressed,
            interrupted: self.interrupted,
        }
    }
}

impl Keyboard {
    /// Every keypad has sixteen keys.
    pub broadcast proof fn lemma_keys(&self)
        ensures
            #[trigger] self@.keys.len() == 16,
    {
    }

    /// A keypad with every key up that waits for nothing.
    pub fn new() -> (k: Keyboard)
        ensures
            k@ == (KeyboardState {
                keys: Seq::new(16, |i: int| KeyState::Up),
                waiting: false,
                pressed: None,
                interrupted: false,
            }),
    {
        let k = Keyboard {
            key_states: [KeyState::Up;16],
            wait_for_key: false,
            pressed: None,
            interrupted: false,
        };
        assert(k@.keys =~= Seq::new(16, |i: int| KeyState::Up));
        k
    }

    /// Takes the report that a key went up or down. Where that ends a wait,
    /// the key that ended it is returned.
    pub fn post(&mut self, m: KeyboardMessage) -> (released: Option<Key>)
        ensures
            final(self)@ == old(self)@.post(m),
            released == if old(self)@.releases(m) {
                Some(m.key)
            } else {
                None
            },
    {
        let index = m.key.code() as usize;
        let was = self.key_states[index];
        self.key_states[index] = m.state;
        if self.wait_for_key && m.state == KeyState::Down && was == KeyState::Up {
            self.wait_for_key = false;
            self.pressed = Some(m.key);
            Some(m.key)
        } else {
            None
        }
    }

    /// Whether `key` is held down.
    pub fn is_key_down(&self, key: Key) -> (down: bool)
        ensures
            down == (self@.keys[key.number()] == KeyState::Down),
    {
        self.key_states[key.code() as usize] == KeyState::Down
    }

    /// Asks for the next key press without blocking: the answer is the key
    /// that ended the wait, that the wait was called off, or that it is still
    /// pending, in which case the keypad is waiting from now on.
    pub fn wait_for_key_press(&mut self) -> (r: KeyWait)
        ensures
            r == old(self)@.wait_result(),
            final(self)@ == old(self)@.wait(),
    {
        if self.interrupted {
            self.interrupted = false;
            self.wait_for_key = false;
            self.pressed = None;
            KeyWait::Interrupted
        } else {
            match self.pressed {
                Some(key) => {
                    self.pressed = None;
                    KeyWait::Pressed(key)
                },
                None => {
                    self.wait_for_key = true;
                    KeyWait::Pending
                },
            }
        }
    }

    /// How a wait would stand if it were asked for now. Nothing changes:
    /// no key press is collected, and the keypad does not begin to wait.
    pub fn peek(&self) -> (r: KeyWait)
        ensures
            r == self@.wait_result(),
    {
        if self.interrupted {
            KeyWait::Interrupted
        } else {
            match self.pressed {
                Some(key) => KeyWait::Pressed(key),
                None => KeyWait::Pending,
            }
        }
    }

    /// Whether a wait is under way.
    pub fn awaiting(&self) -> (r: bool)
        ensures
            r == self@.awaiting(),
    {
        self.wait_for_key || self.pressed.is_some()
    }

    /// Calls off the wait for a key press, the one under way or else the next
    /// one.
    pub fn interrupt(&mut self)
        ensures
            final(self)@ == (KeyboardState { interrupted: true, ..old(self)@ }),
    {
        self.interrupted = true;
    }
}

impl Default for Keyboard {
    fn default() -> (k: Keyboard)
        ensures
            k@ == (KeyboardState {
                keys: Seq::new(16, |i: int| KeyState::Up),
                waiting: false,
                pressed: None,
                interrupted: false,
            }),
    {
        Keyboard::new()
    }
}

} // verus!
