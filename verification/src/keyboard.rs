//! The sixteen-key hexadecimal keypad and its mapping from host keys.

use vstd::prelude::*;
use minifb::Key;

verus! {

/// A key of the host keyboard, as the windowing library reports it.
#[verifier::external_type_specification]
#[verifier::external_body]
pub struct ExKey(minifb::Key);

/// The number that the windowing library assigns to a host key.
pub uninterp spec fn key_code(key: Key) -> u8;

/// Reads the number of a host key.
///
/// `minifb::Key` is a field-less enum whose variants are numbered in its
/// declaration (`Key0 = 0` to `Key9 = 9`, `A = 10` to `Z = 35`, and so on up
/// to `Count = 107`); the cast yields that number. The contract claims that
/// the number is a function of the key and nothing about which key carries
/// which number: the constants `HOST_1` to `HOST_Z` below are this library's
/// reading of the declaration.
#[verifier::external_body]
fn host_key_code(key: &Key) -> (code: u8)
    ensures
        code == key_code(*key),
{
    *key as u8
}

/// The number of the host key `1`, as `minifb::Key` declares it.
pub const HOST_1: u8 = 1;

/// The number of the host key `2`.
pub const HOST_2: u8 = 2;

/// The number of the host key `3`.
pub const HOST_3: u8 = 3;

/// The number of the host key `4`.
pub const HOST_4: u8 = 4;

/// The number of the host key `A`.
pub const HOST_A: u8 = 10;

/// The number of the host key `C`.
pub const HOST_C: u8 = 12;

/// The number of the host key `D`.
pub const HOST_D: u8 = 13;

/// The number of the host key `E`.
pub const HOST_E: u8 = 14;

/// The number of the host key `F`.
pub const HOST_F: u8 = 15;

/// The number of the host key `Q`.
pub const HOST_Q: u8 = 26;

/// The number of the host key `R`.
pub const HOST_R: u8 = 27;

/// The number of the host key `S`.
pub const HOST_S: u8 = 28;

/// The number of the host key `V`.
pub const HOST_V: u8 = 31;

/// The number of the host key `W`.
pub const HOST_W: u8 = 32;

/// The number of the host key `X`.
pub const HOST_X: u8 = 33;

/// The number of the host key `Z`.
pub const HOST_Z: u8 = 35;

/// The keypad key that a host key stands for, if any. The left-hand block of
/// a QWERTY keyboard mirrors the keypad's layout:
///
/// ```text
/// keypad   1 2 3 C      host   1 2 3 4
///          4 5 6 D             Q W E R
///          7 8 9 E             A S D F
///          A 0 B F             Z X C V
/// ```
pub open spec fn keypad_key(code: u8) -> Option<u8> {
    if code == HOST_1 {
        Some(0x1u8)
    } else if code == HOST_2 {
        Some(0x2u8)
    } else if code == HOST_3 {
        Some(0x3u8)
    } else if code == HOST_4 {
        Some(0xCu8)
    } else if code == HOST_Q {
        Some(0x4u8)
    } else if code == HOST_W {
        Some(0x5u8)
    } else if code == HOST_E {
        Some(0x6u8)
    } else if code == HOST_R {
        Some(0xDu8)
    } else if code == HOST_A {
        Some(0x7u8)
    } else if code == HOST_S {
        Some(0x8u8)
    } else if code == HOST_D {
        Some(0x9u8)
    } else if code == HOST_F {
        Some(0xEu8)
    } else if code == HOST_Z {
        Some(0xAu8)
    } else if code == HOST_X {
        Some(0x0u8)
    } else if code == HOST_C {
        Some(0xBu8)
    } else if code == HOST_V {
        Some(0xFu8)
    } else {
        None
    }
}

/// Looks a host key number up in the keypad mapping.
pub fn keypad_key_for(code: u8) -> (key: Option<u8>)
    ensures
        key == keypad_key(code),
        key matches Some(k) ==> k < 16,
{
    if code == HOST_1 {
        Some(0x1)
    } else if code == HOST_2 {
        Some(0x2)
    } else if code == HOST_3 {
        Some(0x3)
    } else if code == HOST_4 {
        Some(0xC)
    } else if code == HOST_Q {
        Some(0x4)
    } else if code == HOST_W {
        Some(0x5)
    } else if code == HOST_E {
        Some(0x6)
    } else if code == HOST_R {
        Some(0xD)
    } else if code == HOST_A {
        Some(0x7)
    } else if code == HOST_S {
        Some(0x8)
    } else if code == HOST_D {
        Some(0x9)
    } else if code == HOST_F {
        Some(0xE)
    } else if code == HOST_Z {
        Some(0xA)
    } else if code == HOST_X {
        Some(0x0)
    } else if code == HOST_C {
        Some(0xB)
    } else if code == HOST_V {
        Some(0xF)
    } else {
        None
    }
}

/// The keypad state in which exactly the keys named by `codes` are down.
pub open spec fn keypad_state(codes: Seq<u8>) -> Seq<bool> {
    Seq::new(
        16,
        |k: int| exists|i: int| 0 <= i < codes.len() && keypad_key(#[trigger] codes[i]) == Some(k as u8),
    )
}

/// The lowest-numbered key at or above `from` that is down in `keys`, if any.
pub open spec fn lowest_pressed_from(keys: Seq<bool>, from: int) -> Option<u8>
    decreases 16 - from,
{
    if from < 0 || from >= 16 {
        None
    } else if keys[from] {
        Some(from as u8)
    } else {
        lowest_pressed_from(keys, from + 1)
    }
}

/// The lowest-numbered key that is down in `keys`, if any.
pub open spec fn lowest_pressed(keys: Seq<bool>) -> Option<u8> {
    lowest_pressed_from(keys, 0)
}

/// The lowest pressed key is pressed and no key below it is; where there is
/// none, no key is pressed.
pub proof fn lemma_lowest_pressed(keys: Seq<bool>, from: int)
    requires
        0 <= from <= 16,
    ensures
        match lowest_pressed_from(keys, from) {
            Some(k) => from <= k < 16 && keys[k as int] && forall|j: int| from <= j < k ==> !keys[j],
            None => forall|j: int| from <= j < 16 ==> !keys[j],
        },
    decreases 16 - from,
{
    if from < 16 && !keys[from] {
        lemma_lowest_pressed(keys, from + 1);
    }
}

/// The latched state of the sixteen keys `0x0` to `0xF`.
pub struct Keyboard {
    keys: [bool; 16],
}

impl View for Keyboard {
    type V = Seq<bool>;

    /// Element `k` tells whether key `k` is down.
    closed spec fn view(&self) -> Seq<bool> {
        self.keys@
    }
}

impl Keyboard {
    /// There are always sixteen keys.
    pub broadcast proof fn lemma_sixteen_keys(&self)
        ensures
            #[trigger] self@.len() == 16,
    {
    }

    /// A keypad with no key down.
    pub fn new() -> (keyboard: Keyboard)
        ensures
            keyboard@ == Seq::new(16, |k: int| false),
    {
        let keyboard = Keyboard { keys: [false; 16] };
        assert(keyboard@ =~= Seq::new(16, |k: int| false));
        keyboard
    }

    /// Whether key `key` is down; keys beyond `0xF` are never down.
    pub fn is_key_pressed(&self, key: u8) -> (pressed: bool)
        ensures
            pressed == (key < 16 && self@[key as int]),
    {
        if key < 16 {
            self.keys[key as usize]
        } else {
            false
        }
    }

    /// Presses or releases key `key`; does nothing for keys beyond `0xF`.
    pub fn set_key(&mut self, key: u8, pressed: bool)
        ensures
            final(self)@ == (if key < 16 {
                old(self)@.update(key as int, pressed)
            } else {
                old(self)@
            }),
    {
        if key < 16 {
            self.keys[key as usize] = pressed;
        }
    }

    /// The lowest-numbered key that is down, if any.
    pub fn get_pressed_key(&self) -> (key: Option<u8>)
        ensures
            key == lowest_pressed(self@),
    {
        let mut k: u8 = 0;
        while k < 16
            invariant
                k <= 16,
                lowest_pressed(self@) == lowest_pressed_from(self@, k as int),
            decreases 16 - k,
        {
            if self.keys[k as usize] {
                return Some(k);
            }
            k += 1;
        }
        None
    }

    /// Replaces the whole keypad state by a snapshot of the host keyboard:
    /// a key is down afterwards exactly if one of `codes` maps to it.
    pub fn update_from_codes(&mut self, codes: &[u8])
        ensures
            final(self)@ == keypad_state(codes@),
    {
        self.keys = [false; 16];
        let mut i: usize = 0;
        while i < codes.len()
            invariant
                i <= codes.len(),
                self@ == keypad_state(codes@.subrange(0, i as int)),
            decreases codes.len() - i,
        {
            let ghost before = self@;
            let ghost seen = codes@.subrange(0, i as int);
            let ghost next = codes@.subrange(0, i + 1);
            if let Some(k) = keypad_key_for(codes[i]) {
                self.set_key(k, true);
            }
            proof {
                assert(next[i as int] == codes@[i as int]);
                assert forall|k: int| 0 <= k < 16 implies self@[k] == keypad_state(next)[k] by {
                    if keypad_state(next)[k] {
                        let j = choose|j: int|
                            0 <= j < next.len() && keypad_key(#[trigger] next[j]) == Some(k as u8);
                        if j < i {
                            assert(seen[j] == next[j]);
                        }
                    }
                    if before[k] {
                        let j = choose|j: int|
                            0 <= j < seen.len() && keypad_key(#[trigger] seen[j]) == Some(k as u8);
                        assert(next[j] == seen[j]);
                    }
                }
                assert(self@ =~= keypad_state(next));
            }
            i += 1;
        }
        assert(codes@.subrange(0, codes.len() as int) =~= codes@);
    }

    /// Replaces the whole keypad state by a snapshot of the keys that the
    /// window reports as down.
    pub fn update_from_minifb(&mut self, minifb_keys: &[Key])
        ensures
            final(self)@ == keypad_state(minifb_keys@.map_values(|key: Key| key_code(key))),
    {
        let mut codes: Vec<u8> = Vec::new();
        let mut i: usize = 0;
        while i < minifb_keys.len()
            invariant
                i <= minifb_keys.len(),
                codes@ == minifb_keys@.subrange(0, i as int).map_values(|key: Key| key_code(key)),
            decreases minifb_keys.len() - i,
        {
            codes.push(host_key_code(&minifb_keys[i]));
            assert(codes@ =~= minifb_keys@.subrange(0, i + 1).map_values(|key: Key| key_code(key)));
            i += 1;
        }
        assert(minifb_keys@.subrange(0, minifb_keys.len() as int) =~= minifb_keys@);
        self.update_from_codes(codes.as_slice());
    }
}

} // verus!
