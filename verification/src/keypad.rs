//! The keypad: sixteen logical keys and the keyboard keys that stand for them.
//!
//! The keypad is laid out on the left of a keyboard, row by row:
//!
//! ```text
//! keyboard   keypad
//! 1 2 3 4    1 2 3 C
//! Q W E R    4 5 6 D
//! A S D F    7 8 9 E
//! Z X C V    A 0 B F
//! ```

use vstd::prelude::*;
use crate::machine::{Emulator, State, KEY_COUNT};

verus! {

/// A key of the host keyboard, as far as the keypad is concerned.
#[derive(Clone, Copy, Debug, PartialEq, Eq, Structural)]
pub enum Key {
    Key1,
    Key2,
    Key3,
    Key4,
    Q,
    W,
    E,
    R,
    A,
    S,
    D,
    F,
    Z,
    X,
    C,
    V,
    /// Any key that stands for no logical key.
    Other,
}

/// The logical key that a keyboard key stands for, if any.
pub open spec fn logical_key(key: Key) -> Option<u8> {
    match key {
        Key::Key1 => Some(0x1u8),
        Key::Key2 => Some(0x2u8),
        Key::Key3 => Some(0x3u8),
        Key::Key4 => Some(0xCu8),
        Key::Q => Some(0x4u8),
        Key::W => Some(0x5u8),
        Key::E => Some(0x6u8),
        Key::R => Some(0xDu8),
        Key::A => Some(0x7u8),
        Key::S => Some(0x8u8),
        Key::D => Some(0x9u8),
        Key::F => Some(0xEu8),
        Key::Z => Some(0xAu8),
        Key::X => Some(0x0u8),
        Key::C => Some(0xBu8),
        Key::V => Some(0xFu8),
        Key::Other => None,
    }
}

/// The first logical key among `keys`, in the order given.
pub open spec fn first_logical_key(keys: Seq<Key>) -> Option<u8>
    decreases keys.len(),
{
    if keys.len() == 0 {
        None
    } else if logical_key(keys[0]) is Some {
        logical_key(keys[0])
    } else {
        first_logical_key(keys.drop_first())
    }
}

/// Which logical keys are held when the keyboard keys `keys` are down: key
/// `k` is held exactly if some key of `keys` stands for it.
pub open spec fn held_keys(keys: Seq<Key>) -> Seq<bool> {
    Seq::new(
        KEY_COUNT as nat,
        |k: int|
            exists|i: int|
                0 <= i < keys.len() && #[trigger] logical_key(keys[i]) == Some(k as u8),
    )
}

/// Maps a keyboard key to the logical key it stands for.
pub fn integer_from_key(key: &Key) -> (index: Option<u8>)
    ensures
        index == logical_key(*key),
        index matches Some(k) ==> k < KEY_COUNT,
{
    match key {
        Key::Key1 => Some(0x1),
        Key::Key2 => Some(0x2),
        Key::Key3 => Some(0x3),
        Key::Key4 => Some(0xC),
        Key::Q => Some(0x4),
        Key::W => Some(0x5),
        Key::E => Some(0x6),
        Key::R => Some(0xD),
        Key::A => Some(0x7),
        Key::S => Some(0x8),
        Key::D => Some(0x9),
        Key::F => Some(0xE),
        Key::Z => Some(0xA),
        Key::X => Some(0x0),
        Key::C => Some(0xB),
        Key::V => Some(0xF),
        Key::Other => None,
    }
}

/// The first logical key of a sample stands for a key of the keypad, and a
/// sample has one exactly if one of its keys is logical.
pub proof fn lemma_first_logical_key(keys: Seq<Key>)
    ensures
        first_logical_key(keys) matches Some(k) ==> k < KEY_COUNT,
        first_logical_key(keys) is None <==> forall|i: int|
            0 <= i < keys.len() ==> logical_key(#[trigger] keys[i]) is None,
    decreases keys.len(),
{
    if keys.len() > 0 {
        let rest = keys.drop_first();
        lemma_first_logical_key(rest);
        if logical_key(keys[0]) is None {
            if first_logical_key(rest) is None {
                assert forall|i: int| 0 <= i < keys.len() implies logical_key(
                    #[trigger] keys[i],
                ) is None by {
                    if i > 0 {
                        assert(keys[i] == rest[i - 1]);
                    }
                }
            } else {
                let j = choose|j: int| 0 <= j < rest.len() && logical_key(rest[j]) is Some;
                assert(keys[j + 1] == rest[j]);
            }
        }
    }
}

/// Decides one sample of the key wait: the first logical key among the keys
/// that the input source reported as pressed, or `None` if the wait goes on.
pub fn get_key(pressed: &[Key]) -> (key: Option<u8>)
    ensures
        key == first_logical_key(pressed@),
        key matches Some(k) ==> k < KEY_COUNT,
{
    let mut i: usize = 0;
    assert(pressed@.skip(0) == pressed@);
    while i < pressed.len()
        invariant
            i <= pressed.len(),
            first_logical_key(pressed@) == first_logical_key(pressed@.skip(i as int)),
        decreases pressed.len() - i,
    {
        let index = integer_from_key(&pressed[i]);
        proof {
            let rest = pressed@.skip(i as int);
            assert(rest[0] == pressed@[i as int]);
            assert(rest.drop_first() == pressed@.skip(i + 1));
        }
        if index.is_some() {
            return index;
        }
        i += 1;
    }
    None
}

impl Emulator {
    /// Replaces the keypad state by what the keyboard keys `keys` hold down.
    pub fn set_keys(&mut self, keys: &[Key])
        ensures
            final(self)@ == (State { keys: held_keys(keys@), ..old(self)@ }),
    {
        self.keys = [false; 16];
        let mut i: usize = 0;
        while i < keys.len()
            invariant
                i <= keys.len(),
                self@ == (State { keys: held_keys(keys@.take(i as int)), ..old(self)@ }),
            decreases keys.len() - i,
        {
            let ghost before = keys@.take(i as int);
            let ghost after = keys@.take(i + 1);
            let index = integer_from_key(&keys[i]);
            if let Some(k) = index {
                self.keys[k as usize] = true;
            }
            proof {
                assert(after[i as int] == keys@[i as int]);
                assert forall|k: int| 0 <= k < KEY_COUNT implies self.keys@[k] == held_keys(
                    after,
                )[k] by {
                    if held_keys(before)[k] {
                        let j = choose|j: int|
                            0 <= j < before.len() && #[trigger] logical_key(before[j]) == Some(
                                k as u8,
                            );
                        assert(after[j] == before[j]);
                    }
                    if held_keys(after)[k] {
                        let j = choose|j: int|
                            0 <= j < after.len() && #[trigger] logical_key(after[j]) == Some(
                                k as u8,
                            );
                        if j < i {
                            assert(before[j] == after[j]);
                        }
                    }
                }
                assert(self.keys@ =~= held_keys(after));
            }
            i += 1;
        }
        assert(keys@.take(i as int) == keys@);
    }
}

} // verus!
