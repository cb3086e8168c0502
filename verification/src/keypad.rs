//! State of the 16-key hexadecimal keypad.
use vstd::prelude::*;

verus! {

/// Number of keys on the keypad.
pub const KEY_COUNT: u8 = 16;

/// Whether bit `k` of `state` is set.
pub open spec fn bit_set(state: u16, k: u16) -> bool {
    (state >> k) & 1u16 == 1u16
}

/// State of the 16-key hexadecimal keypad, one bit per key.
pub struct Keypad {
    state: u16,
}

impl View for Keypad {
    type V = Seq<bool>;

    /// Entry `k` tells whether key `k` is held down.
    closed spec fn view(&self) -> Seq<bool> {
        Seq::new(16, |k: int| bit_set(self.state, k as u16))
    }
}

/// Whether key `key` is held down on a keypad whose keys are `keys`; keys past
/// the keypad read as released.
pub open spec fn key_down(keys: Seq<bool>, key: int) -> bool {
    0 <= key < KEY_COUNT && keys[key]
}

/// The keys after `key` is pressed or released; keys past the keypad are ignored.
pub open spec fn keys_after(keys: Seq<bool>, key: int, pressed: bool) -> Seq<bool> {
    if 0 <= key < KEY_COUNT {
        keys.update(key, pressed)
    } else {
        keys
    }
}

proof fn lemma_bit_of_or(state: u16, k: u16, j: u16)
    requires
        k < 16,
        j < 16,
    ensures
        bit_set(state | (1u16 << k), j) == (j == k || bit_set(state, j)),
{
    assert(((state | (1u16 << k)) >> j) & 1u16 == 1u16 <==> (j == k || (state >> j) & 1u16 == 1u16))
        by (bit_vector)
        requires
            k < 16,
            j < 16,
    ;
}

proof fn lemma_bit_of_and_not(state: u16, k: u16, j: u16)
    requires
        k < 16,
        j < 16,
    ensures
        bit_set(state & !(1u16 << k), j) == (j != k && bit_set(state, j)),
{
    assert(((state & !(1u16 << k)) >> j) & 1u16 == 1u16 <==> (j != k && (state >> j) & 1u16
        == 1u16)) by (bit_vector)
        requires
            k < 16,
            j < 16,
    ;
}

impl Keypad {
    /// The keypad has one entry for each of its 16 keys.
    pub proof fn lemma_key_count(&self)
        ensures
            self@.len() == KEY_COUNT,
    {
    }

    /// A keypad with every key released.
    pub fn new() -> (k: Self)
        ensures
            k@ == Seq::new(16, |i: int| false),
    {
        let k = Keypad { state: 0 };
        assert forall|i: int| 0 <= i < 16 implies !#[trigger] bit_set(0u16, i as u16) by {
            let j = i as u16;
            assert((0u16 >> j) & 1u16 == 0u16) by (bit_vector);
        }
        assert(k@ =~= Seq::new(16, |i: int| false));
        k
    }

    /// Whether `key` is held down; keys past the keypad read as released.
    pub fn key(&self, key: u8) -> (down: bool)
        ensures
            down == key_down(self@, key as int),
    {
        if key < KEY_COUNT {
            let k = key as u16;
            let r = self.state & (1u16 << k) != 0;
            let s = self.state;
            assert((s & (1u16 << k) != 0u16) == ((s >> k) & 1u16 == 1u16)) by (bit_vector)
                requires
                    k < 16,
            ;
            r
        } else {
            false
        }
    }

    /// Presses or releases `key`; keys past the keypad are ignored.
    pub fn set(&mut self, key: u8, pressed: bool)
        ensures
            final(self)@ == keys_after(old(self)@, key as int, pressed),
            final(self)@.len() == KEY_COUNT,
            key < KEY_COUNT ==> key_down(final(self)@, key as int) == pressed,
            forall|k: int| k != key ==> key_down(final(self)@, k) == key_down(old(self)@, k),
    {
        if key >= KEY_COUNT {
            return;
        }
        let k = key as u16;
        if pressed {
            self.state = self.state | (1u16 << k);
            assert forall|j: int| 0 <= j < 16 implies #[trigger] bit_set(self.state, j as u16) == (j == k
                || bit_set(old(self).state, j as u16)) by {
                lemma_bit_of_or(old(self).state, k, j as u16);
            }
        } else {
            self.state = self.state & !(1u16 << k);
            assert forall|j: int| 0 <= j < 16 implies #[trigger] bit_set(self.state, j as u16) == (j != k
                && bit_set(old(self).state, j as u16)) by {
                lemma_bit_of_and_not(old(self).state, k, j as u16);
            }
        }
        assert(self@ =~= keys_after(old(self)@, key as int, pressed));
    }
}

impl Default for Keypad {
    fn default() -> (k: Self)
        ensures
            k@ == Seq::new(16, |i: int| false),
    {
        Self::new()
    }
}

} // verus!
