//! How far the bytes for a terminal have got into an escape sequence, as far as
//! that matters for handing more of them to the emulator.

use vstd::prelude::*;

verus! {

/// A colour that begins with as many digits and goes on to [`COLOUR_LENGTH`] may
/// overflow the emulator's parser, on a machine of 32 bits.
pub const COLOUR_DIGITS: u8 = 9;

/// See [`COLOUR_DIGITS`].
pub const COLOUR_LENGTH: u8 = 23;

/// The number of the private mode that begins a synchronized update.
pub const SYNCHRONIZED_UPDATE: u16 = 2026;

/// The unfinished sequence that bytes have ended in.
#[derive(Clone, Copy, Debug, PartialEq, Eq, Structural)]
pub enum Sequence {
    /// None, or one that does not matter.
    Outside,
    /// Behind an escape.
    Escape,
    /// Behind an escape and an opening bracket.
    Control,
    /// In the numbers of private modes: the one that is being read, and whether
    /// one of those before is the synchronized update.
    Private { value: u16, asked: bool },
    /// In a command for the operating system, behind an escape and a closing
    /// bracket: at the start of one of its parameters, or not.
    Command { start: bool },
    /// In a parameter of such a command that starts with a number sign: with how
    /// many digits it goes on, how long it is, and whether there are but digits
    /// in it. What is beyond the limits is not counted.
    Colour { digits: u8, length: u8, plain: bool },
}

/// The byte can stand in a colour.
pub open spec fn colour_digit(byte: u8) -> bool {
    0x30 <= byte <= 0x39 || 0x41 <= byte <= 0x46 || 0x61 <= byte <= 0x66 || byte == 0x2b
}

/// The byte is passed over within a sequence.
pub open spec fn passed_over(byte: u8) -> bool {
    byte < 0x20 || byte >= 0x7f
}

/// One more, up to a limit.
pub open spec fn one_more(n: u8, limit: u8) -> u8 {
    if n < limit {
        (n + 1) as u8
    } else {
        n
    }
}

/// The number with one more digit, as far as it can be counted.
pub open spec fn with_digit(value: u16, digit: u8) -> u16 {
    let wanted = value * 10 + (digit - 0x30);
    if wanted > u16::MAX {
        u16::MAX
    } else {
        wanted as u16
    }
}

impl Sequence {
    /// Where one more byte leads.
    pub open spec fn step(self, byte: u8) -> Sequence {
        if byte == 0x1b {
            Sequence::Escape
        } else if byte == 0x18 || byte == 0x1a {
            Sequence::Outside
        } else {
            match self {
                Sequence::Outside => Sequence::Outside,
                Sequence::Escape => if byte == 0x5b {
                    Sequence::Control
                } else if byte == 0x5d {
                    Sequence::Command { start: true }
                } else if passed_over(byte) {
                    Sequence::Escape
                } else {
                    Sequence::Outside
                },
                Sequence::Control => if byte == 0x3f {
                    Sequence::Private { value: 0, asked: false }
                } else if passed_over(byte) {
                    Sequence::Control
                } else {
                    Sequence::Outside
                },
                Sequence::Private { value, asked } => if 0x30 <= byte <= 0x39 {
                    Sequence::Private { value: with_digit(value, byte), asked }
                } else if byte == 0x3a || byte == 0x3b {
                    Sequence::Private { value: 0, asked: asked || value == SYNCHRONIZED_UPDATE }
                } else if passed_over(byte) {
                    self
                } else {
                    Sequence::Outside
                },
                Sequence::Command { start } => if byte == 0x07 {
                    Sequence::Outside
                } else if byte == 0x3b {
                    Sequence::Command { start: true }
                } else if byte < 0x20 {
                    self
                } else if start && byte == 0x23 {
                    Sequence::Colour { digits: 0, length: 0, plain: true }
                } else {
                    Sequence::Command { start: false }
                },
                Sequence::Colour { digits, length, plain } => if byte == 0x07 {
                    Sequence::Outside
                } else if byte == 0x3b {
                    Sequence::Command { start: true }
                } else if byte < 0x20 {
                    self
                } else {
                    Sequence::Colour {
                        digits: if plain && colour_digit(byte) {
                            one_more(digits, COLOUR_DIGITS)
                        } else {
                            digits
                        },
                        length: one_more(length, COLOUR_LENGTH),
                        plain: plain && colour_digit(byte),
                    }
                },
            }
        }
    }

    /// Where bytes lead.
    pub open spec fn after(self, bytes: Seq<u8>) -> Sequence
        decreases bytes.len(),
    {
        if bytes.len() == 0 {
            self
        } else {
            self.after(bytes.drop_last()).step(bytes.last())
        }
    }

    /// The byte makes the sequence one that begins a synchronized update.
    pub open spec fn completes_update(self, byte: u8) -> bool {
        self matches Sequence::Private { value, asked } && (asked || value == SYNCHRONIZED_UPDATE)
            && byte == 0x68
    }

    /// A synchronized update begins with one of the bytes.
    pub open spec fn asks_update(self, bytes: Seq<u8>) -> bool
        decreases bytes.len(),
    {
        bytes.len() > 0 && (self.asks_update(bytes.drop_last()) || self.after(
            bytes.drop_last(),
        ).completes_update(bytes.last()))
    }

    /// A colour that is too long.
    pub open spec fn overflows(self) -> bool {
        self matches Sequence::Colour { digits, length, .. } && digits >= COLOUR_DIGITS && length
            >= COLOUR_LENGTH
    }

    /// No colour among the bytes is too long.
    pub open spec fn has_room(self, bytes: Seq<u8>) -> bool
        decreases bytes.len(),
    {
        bytes.len() > 0 ==> self.has_room(bytes.drop_last()) && !self.after(bytes).overflows()
    }

    /// Anything that `self` leads to, `other` leads to as well.
    pub open spec fn within(self, other: Sequence) -> bool {
        self is Outside || self == other
    }

    /// Takes one byte.
    pub fn next(self, byte: u8) -> (next: Sequence)
        ensures
            next == self.step(byte),
    {
        if byte == 0x1b {
            return Sequence::Escape;
        }
        if byte == 0x18 || byte == 0x1a {
            return Sequence::Outside;
        }
        let passed = byte < 0x20 || byte >= 0x7f;
        match self {
            Sequence::Outside => Sequence::Outside,
            Sequence::Escape => if byte == 0x5b {
                Sequence::Control
            } else if byte == 0x5d {
                Sequence::Command { start: true }
            } else if passed {
                Sequence::Escape
            } else {
                Sequence::Outside
            },
            Sequence::Control => if byte == 0x3f {
                Sequence::Private { value: 0, asked: false }
            } else if passed {
                Sequence::Control
            } else {
                Sequence::Outside
            },
            Sequence::Private { value, asked } => if 0x30 <= byte && byte <= 0x39 {
                let wanted: u32 = value as u32 * 10 + (byte - 0x30) as u32;
                let value: u16 = if wanted > 0xffff {
                    0xffff
                } else {
                    wanted as u16
                };
                Sequence::Private { value, asked }
            } else if byte == 0x3a || byte == 0x3b {
                Sequence::Private { value: 0, asked: asked || value == SYNCHRONIZED_UPDATE }
            } else if passed {
                self
            } else {
                Sequence::Outside
            },
            Sequence::Command { start } => if byte == 0x07 {
                Sequence::Outside
            } else if byte == 0x3b {
                Sequence::Command { start: true }
            } else if byte < 0x20 {
                self
            } else if start && byte == 0x23 {
                Sequence::Colour { digits: 0, length: 0, plain: true }
            } else {
                Sequence::Command { start: false }
            },
            Sequence::Colour { digits, length, plain } => {
                if byte == 0x07 {
                    return Sequence::Outside;
                }
                if byte == 0x3b {
                    return Sequence::Command { start: true };
                }
                if byte < 0x20 {
                    return self;
                }
                let digit = (0x30 <= byte && byte <= 0x39) || (0x41 <= byte && byte <= 0x46)
                    || (0x61 <= byte && byte <= 0x66) || byte == 0x2b;
                let counts = plain && digit;
                Sequence::Colour {
                    digits: if counts && digits < COLOUR_DIGITS {
                        digits + 1
                    } else {
                        digits
                    },
                    length: if length < COLOUR_LENGTH {
                        length + 1
                    } else {
                        length
                    },
                    plain: counts,
                }
            },
        }
    }

    /// Takes bytes, unless a colour among them is too long.
    pub fn read(self, bytes: &[u8]) -> (read: Option<Sequence>)
        ensures
            read == (if self.has_room(bytes@) {
                Some(self.after(bytes@))
            } else {
                None
            }),
    {
        let mut at = self;
        let mut i: usize = 0;
        assert(bytes@.take(0) == Seq::<u8>::empty());
        while i < bytes.len()
            invariant
                i <= bytes@.len(),
                at == self.after(bytes@.take(i as int)),
                self.has_room(bytes@.take(i as int)),
            decreases bytes@.len() - i,
        {
            assert(bytes@.take(i + 1).drop_last() == bytes@.take(i as int));
            at = at.next(bytes[i]);
            if let Sequence::Colour { digits, length, .. } = at {
                if digits >= COLOUR_DIGITS && length >= COLOUR_LENGTH {
                    proof {
                        self.lemma_no_room_behind(bytes@, i + 1);
                    }
                    return None;
                }
            }
            i = i + 1;
        }
        assert(bytes@.take(i as int) == bytes@);
        Some(at)
    }

    proof fn lemma_no_room_behind(self, bytes: Seq<u8>, n: int)
        requires
            0 <= n <= bytes.len(),
            !self.has_room(bytes.take(n)),
        ensures
            !self.has_room(bytes),
        decreases bytes.len(),
    {
        if n == bytes.len() {
            assert(bytes.take(n) == bytes);
        } else {
            assert(bytes.drop_last().take(n) == bytes.take(n));
            self.lemma_no_room_behind(bytes.drop_last(), n);
        }
    }

    /// What holds of bytes behind a sequence holds behind one within it.
    pub proof fn lemma_within(self, other: Sequence, bytes: Seq<u8>)
        requires
            self.within(other),
        ensures
            self.after(bytes).within(other.after(bytes)),
            other.has_room(bytes) ==> self.has_room(bytes),
            self.asks_update(bytes) ==> other.asks_update(bytes),
        decreases bytes.len(),
    {
        if bytes.len() > 0 {
            self.lemma_within(other, bytes.drop_last());
        }
    }

    /// Bytes lead on from where those before them have led.
    pub proof fn lemma_one_after_another(self, a: Seq<u8>, b: Seq<u8>)
        ensures
            self.after(a + b) == self.after(a).after(b),
            self.asks_update(a + b) == (self.asks_update(a) || self.after(a).asks_update(b)),
        decreases b.len(),
    {
        if b.len() == 0 {
            assert(a + b == a);
        } else {
            assert((a + b).drop_last() == a + b.drop_last());
            assert((a + b).last() == b.last());
            self.lemma_one_after_another(a, b.drop_last());
        }
    }
}

} // verus!
