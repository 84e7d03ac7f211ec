//! Which keys are held down.

use vstd::prelude::*;

verus! {

/// The keys that move the player.
#[derive(Copy, Clone, Debug, PartialEq, Eq, Hash)]
pub enum Key {
    W,
    A,
    S,
    D,
}

/// What the host reports.
#[derive(Copy, Clone, Debug, PartialEq, Eq)]
pub enum EventType {
    KeyDown,
    KeyUp,
    MouseMove,
}

/// Which way the held keys push the player.
#[derive(Copy, Clone, Debug, PartialEq, Eq)]
pub enum Thrust {
    Forward,
    Backward,
    Idle,
}

/// The keys that are held down, one bit for each.
pub struct ControlState {
    pressed: u8,
}

/// A pass over the keys that were held down when it was made.
pub struct PressedKeysIter {
    pressed: u8,
    i: u8,
}

/// The number by which the host names `key`.
pub open spec fn key_code(key: Key) -> u8 {
    match key {
        Key::W => 1,
        Key::A => 2,
        Key::S => 3,
        Key::D => 4,
    }
}

/// The key that the host names by `n`, if there is one.
pub open spec fn key_of(n: u8) -> Option<Key> {
    if n == 1 {
        Some(Key::W)
    } else if n == 2 {
        Some(Key::A)
    } else if n == 3 {
        Some(Key::S)
    } else if n == 4 {
        Some(Key::D)
    } else {
        None
    }
}

/// Whether bit `i` of `pressed` is set.
pub open spec fn bit_set(pressed: u8, i: u8) -> bool {
    pressed & (1u8 << i) != 0
}

/// Whether `pressed` has no bit set but those of keys.
pub open spec fn only_keys(pressed: u8) -> bool {
    pressed & 0xE1 == 0
}

/// `pressed` with the bit of `key` set.
pub open spec fn with_key(pressed: u8, key: Key) -> u8 {
    pressed | (1u8 << key_code(key))
}

/// `pressed` with the bit of `key` cleared.
pub open spec fn without_key(pressed: u8, key: Key) -> u8 {
    pressed & !(1u8 << key_code(key))
}

/// The lowest set bit of `pressed` from bit `from` on, or 8 where there is none.
pub open spec fn next_bit(pressed: u8, from: u8) -> u8
    decreases 8 - from,
{
    if from >= 8 {
        8
    } else if bit_set(pressed, from) {
        from
    } else {
        next_bit(pressed, (from + 1) as u8)
    }
}

/// The event that the host names by `n`, if there is one.
pub open spec fn event_of(n: u8) -> Option<EventType> {
    if n == 1 {
        Some(EventType::KeyDown)
    } else if n == 2 {
        Some(EventType::KeyUp)
    } else if n == 3 {
        Some(EventType::MouseMove)
    } else {
        None
    }
}

impl EventType {
    /// The event that the host names by `n`, if there is one.
    pub fn from_u8(n: u8) -> (event: Option<Self>)
        ensures
            event == event_of(n),
    {
        if n == 1 {
            Some(EventType::KeyDown)
        } else if n == 2 {
            Some(EventType::KeyUp)
        } else if n == 3 {
            Some(EventType::MouseMove)
        } else {
            None
        }
    }
}

impl Key {
    /// The number by which the host names the key.
    pub fn code(self) -> (n: u8)
        ensures
            n == key_code(self),
            key_of(n) == Some(self),
    {
        match self {
            Key::W => 1,
            Key::A => 2,
            Key::S => 3,
            Key::D => 4,
        }
    }

    /// The key that the host names by `n`, if there is one.
    pub fn from_u8(n: u8) -> (key: Option<Self>)
        ensures
            key == key_of(n),
            key.is_some() ==> key_code(key.unwrap()) == n,
    {
        if n == 1 {
            Some(Key::W)
        } else if n == 2 {
            Some(Key::A)
        } else if n == 3 {
            Some(Key::S)
        } else if n == 4 {
            Some(Key::D)
        } else {
            None
        }
    }
}

impl ControlState {
    /// Whether `key` is held down: whether its bit is set.
    pub open spec fn holds(&self, key: Key) -> bool {
        bit_set(self.bits(), key_code(key))
    }

    /// The bits of the keys that are held down.
    pub closed spec fn bits(&self) -> u8 {
        self.pressed
    }

    /// Whether no bit is set but those of keys. Every state made by `new`
    /// and changed by the methods below is so.
    pub open spec fn well_formed(&self) -> bool {
        only_keys(self.bits())
    }

    /// No key is held down.
    pub fn new() -> (state: Self)
        ensures
            forall|key: Key| !state.holds(key),
            state.bits() == 0,
            state.well_formed(),
    {
        assert(0u8 & 0xE1 == 0) by (bit_vector);
        assert(forall|i: u8| i < 8 ==> 0u8 & (1u8 << i) == 0) by (bit_vector);
        Self { pressed: 0 }
    }

    pub fn is_pressed(&self, key: Key) -> (r: bool)
        ensures
            r == self.holds(key),
    {
        self.pressed & (1u8 << key.code()) != 0
    }

    /// Marks `key` as held down.
    pub fn press(&mut self, key: Key)
        ensures
            final(self).bits() == with_key(old(self).bits(), key),
            forall|k: Key| final(self).holds(k) == (k == key || old(self).holds(k)),
            old(self).well_formed() ==> final(self).well_formed(),
    {
        let code: u8 = key.code();
        let before: u8 = self.pressed;
        self.pressed |= 1u8 << code;
        let after: u8 = self.pressed;
        assert(forall|i: u8|
            i < 8 ==> ((after & (1u8 << i) != 0) == (i == code || (before & (1u8 << i) != 0))))
            by (bit_vector)
            requires
                code < 8,
                after == before | (1u8 << code),
        ;
        assert forall|k: Key| self.holds(k) == (k == key || old(self).holds(k)) by {
            assert(key_code(k) < 8);
        }
        assert(before & 0xE1 == 0 ==> after & 0xE1 == 0) by (bit_vector)
            requires
                1 <= code <= 4,
                after == before | (1u8 << code),
        ;
    }

    /// Marks `key` as no longer held down.
    pub fn release(&mut self, key: Key)
        ensures
            final(self).bits() == without_key(old(self).bits(), key),
            forall|k: Key| final(self).holds(k) == (k != key && old(self).holds(k)),
            old(self).well_formed() ==> final(self).well_formed(),
    {
        let code: u8 = key.code();
        let before: u8 = self.pressed;
        self.pressed &= !(1u8 << code);
        let after: u8 = self.pressed;
        assert(forall|i: u8|
            i < 8 ==> ((after & (1u8 << i) != 0) == (i != code && (before & (1u8 << i) != 0))))
            by (bit_vector)
            requires
                code < 8,
                after == before & !(1u8 << code),
        ;
        assert forall|k: Key| self.holds(k) == (k != key && old(self).holds(k)) by {
            assert(key_code(k) < 8);
        }
        assert(before & 0xE1 == 0 ==> after & 0xE1 == 0) by (bit_vector)
            requires
                after == before & !(1u8 << code),
        ;
    }

    /// Takes in the event with number `opcode` about the key with number
    /// `key`: a key that goes down is held from then on, one that goes up no
    /// longer. Other events and other keys change nothing.
    pub fn handle_key_event(&mut self, opcode: u8, key: u8)
        ensures
            final(self).bits() == (match (event_of(opcode), key_of(key)) {
                (Some(EventType::KeyDown), Some(k)) => with_key(old(self).bits(), k),
                (Some(EventType::KeyUp), Some(k)) => without_key(old(self).bits(), k),
                _ => old(self).bits(),
            }),
            old(self).well_formed() ==> final(self).well_formed(),
            forall|k: Key|
                final(self).holds(k) == (if key_of(key) == Some(k) && event_of(opcode) == Some(
                    EventType::KeyDown,
                ) {
                    true
                } else if key_of(key) == Some(k) && event_of(opcode) == Some(EventType::KeyUp) {
                    false
                } else {
                    old(self).holds(k)
                }),
    {
        match EventType::from_u8(opcode) {
            Some(EventType::KeyDown) => {
                if let Some(k) = Key::from_u8(key) {
                    self.press(k);
                }
            },
            Some(EventType::KeyUp) => {
                if let Some(k) = Key::from_u8(key) {
                    self.release(k);
                }
            },
            _ => {},
        }
    }

    /// Which way the held keys push: forward while `W` is held, else
    /// backward while `S` is held.
    pub fn thrust(&self) -> (t: Thrust)
        ensures
            t == (if self.holds(Key::W) {
                Thrust::Forward
            } else if self.holds(Key::S) {
                Thrust::Backward
            } else {
                Thrust::Idle
            }),
    {
        if self.is_pressed(Key::W) {
            Thrust::Forward
        } else if self.is_pressed(Key::S) {
            Thrust::Backward
        } else {
            Thrust::Idle
        }
    }

    /// A pass over the keys that are held down now.
    pub fn pressed_iter(&self) -> (iter: PressedKeysIter)
        ensures
            iter.bits() == self.bits(),
            iter.position() == 0,
    {
        PressedKeysIter { pressed: self.pressed, i: 0 }
    }
}

/// The keys whose bits are set in `pressed`, in the order of their numbers.
pub open spec fn held_keys(pressed: u8) -> Seq<Key> {
    (if bit_set(pressed, 1) {
        seq![Key::W]
    } else {
        Seq::empty()
    }) + (if bit_set(pressed, 2) {
        seq![Key::A]
    } else {
        Seq::empty()
    }) + (if bit_set(pressed, 3) {
        seq![Key::S]
    } else {
        Seq::empty()
    }) + (if bit_set(pressed, 4) {
        seq![Key::D]
    } else {
        Seq::empty()
    })
}

/// The keys that a pass over `pressed` hands out from bit `from` on, until it
/// hands out nothing.
pub open spec fn pass_from(pressed: u8, from: u8) -> Seq<Key>
    decreases 8 - from,
{
    let bit = next_bit(pressed, from);
    if from >= 8 || bit >= 8 || bit < from {
        Seq::empty()
    } else {
        match key_of(bit) {
            Some(key) => seq![key] + pass_from(pressed, (bit + 1) as u8),
            None => Seq::empty(),
        }
    }
}

/// The next set bit from `from` on is no earlier than `from`, is set, and no
/// bit between the two is set.
pub proof fn lemma_next_bit(pressed: u8, from: u8)
    requires
        from <= 8,
    ensures
        from <= next_bit(pressed, from) <= 8,
        next_bit(pressed, from) < 8 ==> bit_set(pressed, next_bit(pressed, from)),
        forall|i: u8| from <= i < next_bit(pressed, from) ==> !bit_set(pressed, i),
    decreases 8 - from,
{
    if from < 8 && !bit_set(pressed, from) {
        lemma_next_bit(pressed, (from + 1) as u8);
    }
}

/// Where no bit is set but those of keys, a pass from the first bit on hands
/// out exactly the keys that are held, each once, in the order of their
/// numbers.
pub proof fn lemma_pass_yields_held_keys(pressed: u8)
    requires
        only_keys(pressed),
    ensures
        pass_from(pressed, 0) == held_keys(pressed),
{
    assert(!bit_set(pressed, 0) && !bit_set(pressed, 5) && !bit_set(pressed, 6) && !bit_set(
        pressed,
        7,
    )) by (bit_vector)
        requires
            pressed & 0xE1 == 0,
    ;
    lemma_pass_tail(pressed, 5);
    lemma_pass_step(pressed, 4);
    lemma_pass_step(pressed, 3);
    lemma_pass_step(pressed, 2);
    lemma_pass_step(pressed, 1);
    lemma_pass_step(pressed, 0);
    assert(pass_from(pressed, 0) =~= held_keys(pressed));
}

/// A pass that finds no set bit hands out nothing.
proof fn lemma_pass_tail(pressed: u8, from: u8)
    requires
        5 <= from <= 8,
        !bit_set(pressed, 5) && !bit_set(pressed, 6) && !bit_set(pressed, 7),
    ensures
        next_bit(pressed, from) == 8,
        pass_from(pressed, from) == Seq::<Key>::empty(),
    decreases 8 - from,
{
    if from < 8 {
        lemma_pass_tail(pressed, (from + 1) as u8);
    }
}

/// A pass from a set bit of a key hands out that key and goes on behind it;
/// a pass from a bit that is not set goes on as from the next bit.
proof fn lemma_pass_step(pressed: u8, from: u8)
    requires
        from < 8,
    ensures
        !bit_set(pressed, from) ==> pass_from(pressed, from) == pass_from(
            pressed,
            (from + 1) as u8,
        ),
        bit_set(pressed, from) && key_of(from).is_some() ==> pass_from(pressed, from) == seq![
            key_of(from).unwrap(),
        ] + pass_from(pressed, (from + 1) as u8),
{
    lemma_next_bit(pressed, from);
    lemma_next_bit(pressed, (from + 1) as u8);
    if !bit_set(pressed, from) {
        let bit = next_bit(pressed, (from + 1) as u8);
        assert(next_bit(pressed, from) == bit);
        if from + 1 < 8 && bit < 8 {
            assert(next_bit(pressed, bit) == bit);
        }
    }
}

impl PressedKeysIter {
    /// The bits of the keys that the pass goes over.
    pub closed spec fn bits(&self) -> u8 {
        self.pressed
    }

    /// The bit at which the pass stands.
    pub closed spec fn position(&self) -> u8 {
        self.i
    }

    /// Goes on to the next set bit and hands out the key of that bit. The
    /// pass is over at the first set bit that is no key's, and at the end of
    /// the bits.
    pub fn next(&mut self) -> (r: Option<Key>)
        requires
            old(self).position() <= 8,
        ensures
            final(self).bits() == old(self).bits(),
            ({
                let bit = next_bit(old(self).bits(), old(self).position());
                if bit >= 8 {
                    r.is_none() && final(self).position() == 8
                } else {
                    r == key_of(bit) && final(self).position() == bit + 1
                }
            }),
    {
        while self.i < 8 && self.pressed & (1u8 << self.i) == 0
            invariant
                self.i <= 8,
                self.pressed == old(self).pressed,
                next_bit(self.pressed, self.i) == next_bit(old(self).pressed, old(self).i),
            decreases 8 - self.i,
        {
            self.i += 1;
        }
        if self.i == 8 {
            return None;
        }
        let ret = Key::from_u8(self.i);
        self.i += 1;
        ret
    }
}

} // verus!
