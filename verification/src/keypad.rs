use vstd::prelude::*;

verus! {

/// Keys on the hexadecimal keypad.
pub const KEY_COUNT: usize = 16;

/// The keys of a host keyboard that stand for keypad keys, laid out as the
/// block `1234 / QWER / ASDF / ZXCV`; every other key is `Other`.
#[derive(Clone, Copy, Debug, PartialEq, Eq, Structural)]
pub enum HostKey {
    Key1,
    Key2,
    Key3,
    Key4,
    Q,
    W,
    E,
    R,
    A,
    S,
    D,
    F,
    Z,
    X,
    C,
    V,
    Other,
}

/// The keypad key that a host key stands for, if any. The host block mirrors
/// the keypad's own layout `123C / 456D / 789E / A0BF`.
pub open spec fn map_key_spec(key: HostKey) -> Option<u8> {
    match key {
        HostKey::Key1 => Some(0x1u8),
        HostKey::Key2 => Some(0x2u8),
        HostKey::Key3 => Some(0x3u8),
        HostKey::Key4 => Some(0xCu8),
        HostKey::Q => Some(0x4u8),
        HostKey::W => Some(0x5u8),
        HostKey::E => Some(0x6u8),
        HostKey::R => Some(0xDu8),
        HostKey::A => Some(0x7u8),
        HostKey::S => Some(0x8u8),
        HostKey::D => Some(0x9u8),
        HostKey::F => Some(0xEu8),
        HostKey::Z => Some(0xAu8),
        HostKey::X => Some(0x0u8),
        HostKey::C => Some(0xBu8),
        HostKey::V => Some(0xFu8),
        HostKey::Other => None,
    }
}

/// Whether key `key` is held in the key states `keys`. Numbers that name no
/// key are never held.
pub open spec fn is_down_spec(keys: Seq<bool>, key: u8) -> bool {
    key < KEY_COUNT && keys[key as int]
}

/// The lowest-numbered held key at or above `from`, if there is one.
pub open spec fn first_pressed_from(keys: Seq<bool>, from: int) -> Option<u8>
    decreases KEY_COUNT - from,
{
    if from < 0 || from >= KEY_COUNT {
        None
    } else if keys[from] {
        Some(from as u8)
    } else {
        first_pressed_from(keys, from + 1)
    }
}

/// The key reported as pressed: the lowest-numbered held key, if any is held.
pub open spec fn pressed_key_spec(keys: Seq<bool>) -> Option<u8> {
    first_pressed_from(keys, 0)
}

/// Whether some host key in `held` stands for keypad key `key`.
pub open spec fn holds_key(held: Seq<HostKey>, key: int) -> bool {
    exists|i: int| 0 <= i < held.len() && #[trigger] map_key_spec(held[i]) == Some(key as u8)
}

/// The keypad key that a host key stands for, if any.
pub fn map_key(key: HostKey) -> (index: Option<u8>)
    ensures
        index == map_key_spec(key),
        index matches Some(k) ==> k < KEY_COUNT,
{
    match key {
        HostKey::Key1 => Some(0x1),
        HostKey::Key2 => Some(0x2),
        HostKey::Key3 => Some(0x3),
        HostKey::Key4 => Some(0xC),
        HostKey::Q => Some(0x4),
        HostKey::W => Some(0x5),
        HostKey::E => Some(0x6),
        HostKey::R => Some(0xD),
        HostKey::A => Some(0x7),
        HostKey::S => Some(0x8),
        HostKey::D => Some(0x9),
        HostKey::F => Some(0xE),
        HostKey::Z => Some(0xA),
        HostKey::X => Some(0x0),
        HostKey::C => Some(0xB),
        HostKey::V => Some(0xF),
        HostKey::Other => None,
    }
}

/// Which of the sixteen keypad keys are held at one moment.
#[derive(Clone, Copy, Debug)]
pub struct Keypad {
    pub keys: [bool; 16],
}

impl View for Keypad {
    type V = Seq<bool>;

    open spec fn view(&self) -> Seq<bool> {
        self.keys@
    }
}

impl Keypad {
    /// A keypad with no key held.
    pub fn new() -> (keypad: Keypad)
        ensures
            keypad@ == Seq::new(KEY_COUNT as nat, |k: int| false),
    {
        let keypad = Keypad { keys: [false; 16] };
        assert(keypad@ =~= Seq::new(KEY_COUNT as nat, |k: int| false));
        keypad
    }

    /// The keypad as a set of held host keys shows it: a keypad key is held
    /// exactly if one of the host keys stands for it.
    pub fn from_host_keys(held: &[HostKey]) -> (keypad: Keypad)
        ensures
            keypad@.len() == KEY_COUNT,
            forall|k: int| 0 <= k < KEY_COUNT ==> (#[trigger] keypad@[k] <==> holds_key(held@, k)),
    {
        let mut keypad = Keypad::new();
        let mut i: usize = 0;
        while i < held.len()
            invariant
                i <= held.len(),
                keypad@.len() == KEY_COUNT,
                forall|k: int|
                    0 <= k < KEY_COUNT ==> (#[trigger] keypad@[k] <==> holds_key(
                        held@.take(i as int),
                        k,
                    )),
            decreases held.len() - i,
        {
            let ghost before = keypad@;
            let ghost seen = held@.take(i as int);
            let ghost seen_next = held@.take(i + 1);
            let mapped = map_key(held[i]);
            if let Some(index) = mapped {
                keypad.keys[index as usize] = true;
            }
            proof {
                assert forall|k: int| 0 <= k < KEY_COUNT implies (#[trigger] keypad@[k]
                    <==> holds_key(seen_next, k)) by {
                    if holds_key(seen, k) {
                        let w = choose|w: int|
                            0 <= w < seen.len() && #[trigger] map_key_spec(seen[w]) == Some(
                                k as u8,
                            );
                        assert(seen_next[w] == seen[w]);
                    }
                    if mapped == Some(k as u8) {
                        assert(map_key_spec(seen_next[i as int]) == Some(k as u8));
                    }
                    if holds_key(seen_next, k) {
                        let w = choose|w: int|
                            0 <= w < seen_next.len() && #[trigger] map_key_spec(seen_next[w])
                                == Some(k as u8);
                        if w < i {
                            assert(seen[w] == seen_next[w]);
                        }
                    }
                }
            }
            i += 1;
        }
        assert(held@.take(i as int) =~= held@);
        keypad
    }

    /// Marks `key` as held or released.
    pub fn set_key(&mut self, key: u8, down: bool)
        requires
            key < KEY_COUNT,
        ensures
            final(self)@ == old(self)@.update(key as int, down),
    {
        self.keys[key as usize] = down;
    }

    /// Whether `key` is held. Numbers above the last key are never held.
    pub fn is_down(&self, key: u8) -> (down: bool)
        ensures
            down == is_down_spec(self@, key),
    {
        (key as usize) < KEY_COUNT && self.keys[key as usize]
    }

    /// The lowest-numbered held key, or `None` if no key is held.
    pub fn pressed_key(&self) -> (pressed: Option<u8>)
        ensures
            pressed == pressed_key_spec(self@),
            match pressed {
                Some(k) => k < KEY_COUNT && self@[k as int] && forall|j: int|
                    0 <= j < k ==> !self@[j],
                None => forall|j: int| 0 <= j < KEY_COUNT ==> !self@[j],
            },
    {
        let mut k: usize = KEY_COUNT;
        let mut found: Option<u8> = None;
        while k > 0
            invariant
                k <= KEY_COUNT,
                found == first_pressed_from(self@, k as int),
                match found {
                    Some(f) => k <= f < KEY_COUNT && self@[f as int] && forall|j: int|
                        k <= j < f ==> !self@[j],
                    None => forall|j: int| k <= j < KEY_COUNT ==> !self@[j],
                },
            decreases k,
        {
            k -= 1;
            if self.keys[k] {
                found = Some(k as u8);
            }
        }
        found
    }
}

} // verus!
