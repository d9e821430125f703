use vstd::prelude::*;
use crate::chunk::ChunkKey;

verus! {

/// Identifier that clients and server must share to talk to each other.
pub const PROTOCOL_ID: u64 = 1001;

/// UDP port on which the game server listens.
pub const PORT: u16 = 5000;

/// Server simulation ticks per second.
pub const TICK_RATE: u64 = 60;

/// Bit of the forward key.
pub const FORWARD_BIT: u8 = 0b0001;
/// Bit of the backward key.
pub const BACKWARD_BIT: u8 = 0b0010;
/// Bit of the left key.
pub const LEFT_BIT: u8 = 0b0100;
/// Bit of the right key.
pub const RIGHT_BIT: u8 = 0b1000;
/// Bit of the jump key.
pub const JUMP_BIT: u8 = 0b1_0000;
/// All bits that name a key.
pub const ALL_BITS: u8 = 0b1_1111;

/// The movement keys that a player holds, one bit per key.
#[derive(Debug, Clone, Copy, PartialEq, Eq, Hash, Structural)]
pub struct InputFlags {
    bits: u8,
}

impl Default for InputFlags {
    fn default() -> (f: InputFlags)
        ensures
            f.spec_bits() == 0,
    {
        InputFlags { bits: 0 }
    }
}

/// Whether every bit of `mask` is set in `bits`.
pub open spec fn has_bits(bits: u8, mask: u8) -> bool {
    bits & mask == mask
}

impl InputFlags {
    /// The raw bits; only key bits are ever set.
    pub closed spec fn spec_bits(&self) -> u8 {
        self.bits
    }

    /// No key held.
    pub fn empty() -> (f: InputFlags)
        ensures
            f.spec_bits() == 0,
    {
        InputFlags { bits: 0 }
    }

    /// The forward key alone.
    pub fn forward() -> (f: InputFlags)
        ensures
            f.spec_bits() == FORWARD_BIT,
    {
        InputFlags { bits: FORWARD_BIT }
    }

    /// The backward key alone.
    pub fn backward() -> (f: InputFlags)
        ensures
            f.spec_bits() == BACKWARD_BIT,
    {
        InputFlags { bits: BACKWARD_BIT }
    }

    /// The left key alone.
    pub fn left() -> (f: InputFlags)
        ensures
            f.spec_bits() == LEFT_BIT,
    {
        InputFlags { bits: LEFT_BIT }
    }

    /// The right key alone.
    pub fn right() -> (f: InputFlags)
        ensures
            f.spec_bits() == RIGHT_BIT,
    {
        InputFlags { bits: RIGHT_BIT }
    }

    /// The jump key alone.
    pub fn jump() -> (f: InputFlags)
        ensures
            f.spec_bits() == JUMP_BIT,
    {
        InputFlags { bits: JUMP_BIT }
    }

    /// The raw bits.
    pub fn bits(&self) -> (b: u8)
        ensures
            b == self.spec_bits(),
    {
        self.bits
    }

    /// The flags whose bits are those of `bits` that name a key; other bits
    /// are dropped.
    pub fn from_bits_truncate(bits: u8) -> (f: InputFlags)
        ensures
            f.spec_bits() == bits & ALL_BITS,
    {
        InputFlags { bits: bits & ALL_BITS }
    }

    /// The flags with exactly the bits `bits`, if each of them names a key.
    pub fn from_bits(bits: u8) -> (f: Option<InputFlags>)
        ensures
            match f {
                Some(f) => bits & ALL_BITS == bits && f.spec_bits() == bits,
                None => bits & ALL_BITS != bits,
            },
    {
        if bits & ALL_BITS == bits {
            Some(InputFlags { bits })
        } else {
            None
        }
    }

    /// Whether every key of `other` is held.
    pub fn contains(&self, other: InputFlags) -> (r: bool)
        ensures
            r == has_bits(self.spec_bits(), other.spec_bits()),
    {
        self.bits & other.bits == other.bits
    }

    /// Whether no key is held.
    pub fn is_empty(&self) -> (r: bool)
        ensures
            r == (self.spec_bits() == 0),
    {
        self.bits == 0
    }

    /// Adds the keys of `other`.
    pub fn insert(&mut self, other: InputFlags)
        ensures
            final(self).spec_bits() == old(self).spec_bits() | other.spec_bits(),
    {
        self.bits = self.bits | other.bits;
    }

    /// Removes the keys of `other`.
    pub fn remove(&mut self, other: InputFlags)
        ensures
            final(self).spec_bits() == old(self).spec_bits() & !other.spec_bits(),
    {
        self.bits = self.bits & !other.bits;
    }

    /// The keys of both.
    pub fn union(self, other: InputFlags) -> (f: InputFlags)
        ensures
            f.spec_bits() == self.spec_bits() | other.spec_bits(),
    {
        InputFlags { bits: self.bits | other.bits }
    }

    /// The flags of the held movement keys.
    pub closed spec fn from_keys_spec(
        forward: bool,
        backward: bool,
        left: bool,
        right: bool,
        jump: bool,
    ) -> InputFlags {
        InputFlags {
            bits: ((if forward {
                1int
            } else {
                0
            }) + (if backward {
                2int
            } else {
                0
            }) + (if left {
                4int
            } else {
                0
            }) + (if right {
                8int
            } else {
                0
            }) + (if jump {
                16int
            } else {
                0
            })) as u8,
        }
    }

    /// The flags of the held movement keys.
    pub fn from_keys(forward: bool, backward: bool, left: bool, right: bool, jump: bool) -> (f:
        InputFlags)
        ensures
            has_bits(f.spec_bits(), FORWARD_BIT) == forward,
            has_bits(f.spec_bits(), BACKWARD_BIT) == backward,
            has_bits(f.spec_bits(), LEFT_BIT) == left,
            has_bits(f.spec_bits(), RIGHT_BIT) == right,
            has_bits(f.spec_bits(), JUMP_BIT) == jump,
            f.spec_bits() & ALL_BITS == f.spec_bits(),
            f == Self::from_keys_spec(forward, backward, left, right, jump),
    {
        let mut b: u8 = 0;
        if forward {
            b = b + 1;
        }
        if backward {
            b = b + 2;
        }
        if left {
            b = b + 4;
        }
        if right {
            b = b + 8;
        }
        if jump {
            b = b + 16;
        }
        let f = InputFlags { bits: b };
        assert(has_bits(b, FORWARD_BIT) == forward && has_bits(b, BACKWARD_BIT) == backward
            && has_bits(b, LEFT_BIT) == left && has_bits(b, RIGHT_BIT) == right && has_bits(
            b,
            JUMP_BIT,
        ) == jump && b & ALL_BITS == b) by (bit_vector)
            requires
                b == (if forward {
                    1u8
                } else {
                    0u8
                }) + (if backward {
                    2u8
                } else {
                    0u8
                }) + (if left {
                    4u8
                } else {
                    0u8
                }) + (if right {
                    8u8
                } else {
                    0u8
                }) + (if jump {
                    16u8
                } else {
                    0u8
                }),
        ;
        f
    }
}

/// Step along an axis from two opposing keys: `-1`, `0` or `1`.
pub open spec fn axis(negative: bool, positive: bool) -> int {
    (if positive {
        1int
    } else {
        0int
    }) - (if negative {
        1int
    } else {
        0int
    })
}

/// The direction, in whole steps along `x` and `z`, in which the held keys
/// move a player: right is `+x`, left is `-x`, backward is `+z` and forward
/// is `-z`; opposite keys cancel.
pub fn movement_axes(flags: InputFlags) -> (d: (i8, i8))
    ensures
        d.0 == axis(has_bits(flags.spec_bits(), LEFT_BIT), has_bits(flags.spec_bits(), RIGHT_BIT)),
        d.1 == axis(
            has_bits(flags.spec_bits(), FORWARD_BIT),
            has_bits(flags.spec_bits(), BACKWARD_BIT),
        ),
{
    let mut x: i8 = 0;
    let mut z: i8 = 0;
    if flags.contains(InputFlags::forward()) {
        z = z - 1;
    }
    if flags.contains(InputFlags::backward()) {
        z = z + 1;
    }
    if flags.contains(InputFlags::left()) {
        x = x - 1;
    }
    if flags.contains(InputFlags::right()) {
        x = x + 1;
    }
    (x, z)
}

/// A message that a client sends to the server.
#[derive(Debug, Clone, Copy, PartialEq, Eq, Structural)]
pub enum ClientMessage {
    /// The keys held at a client tick.
    Input { tick: u32, flags: InputFlags },
    /// A request for the blocks of a chunk.
    RequestChunk { key: ChunkKey },
}

/// After inserting keys, both the old and the inserted keys are held;
/// removing keys leaves none of them held and keeps the others.
pub proof fn lemma_insert_remove_keys(flags: u8, other: u8, mask: u8)
    ensures
        has_bits(flags | other, other),
        has_bits(flags, mask) ==> has_bits(flags | other, mask),
        (flags & !other) & other == 0,
        has_bits(flags, mask) && mask & other == 0 ==> has_bits(flags & !other, mask),
{
    assert(has_bits(flags | other, other)) by (bit_vector);
    assert(has_bits(flags, mask) ==> has_bits(flags | other, mask)) by (bit_vector);
    assert((flags & !other) & other == 0) by (bit_vector);
    assert(has_bits(flags, mask) && mask & other == 0 ==> has_bits(flags & !other, mask))
        by (bit_vector);
}

} // verus!
