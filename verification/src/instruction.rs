//! The instruction decoder: two bytes in program order become a 16-bit word
//! and its four nibbles.

use vstd::prelude::*;

verus! {

/// The 16-bit word made of a high byte and a low byte.
pub open spec fn word_of(left: u8, right: u8) -> u16 {
    (left as int * 256 + right as int) as u16
}

/// Nibble `k` of `raw`, counted from the most significant one (`k == 0`).
pub open spec fn nibble(raw: u16, k: int) -> u8 {
    if k == 0 {
        (raw / 0x1000) as u8
    } else if k == 1 {
        (raw / 0x100 % 16) as u8
    } else if k == 2 {
        (raw / 0x10 % 16) as u8
    } else {
        (raw % 16) as u8
    }
}

/// The four nibbles of `raw`, most significant first.
pub open spec fn nibbles(raw: u16) -> Seq<u8> {
    seq![nibble(raw, 0), nibble(raw, 1), nibble(raw, 2), nibble(raw, 3)]
}

/// A decoded instruction: the raw word and its four nibbles.
#[derive(Clone, Copy, Debug)]
pub struct Chip8Instruction {
    pub raw: u16,
    pub parts: [u8; 4],
}

impl Chip8Instruction {
    /// The nibbles in `parts` are those of `raw`.
    pub open spec fn wf(&self) -> bool {
        self.parts@ == nibbles(self.raw)
    }
}

proof fn lemma_join(left: u8, right: u8)
    by (bit_vector)
    ensures
        (left as u16) << 8 == left as u16 * 256,
        (left as u16) * 256 + (right as u16) <= 0xFFFF,
{
}

proof fn lemma_split(raw: u16)
    by (bit_vector)
    ensures
        (raw & 0xF000) >> 12 == raw / 0x1000,
        (raw & 0x0F00) >> 8 == raw / 0x100 % 16,
        (raw & 0x00F0) >> 4 == raw / 0x10 % 16,
        raw & 0x000F == raw % 16,
        raw / 0x1000 < 16,
{
}

/// Joins a high and a low byte into one word, high byte first.
pub fn join_2_bytes(left: u8, right: u8) -> (word: u16)
    ensures
        word == word_of(left, right),
        word == left * 256 + right,
{
    proof {
        lemma_join(left, right);
    }
    ((left as u16) << 8) + right as u16
}

/// What can be decoded from two bytes and matched against masked patterns.
pub trait DecodableInstruction: Sized {
    /// The 16-bit word that the instruction was decoded from.
    spec fn word(&self) -> u16;

    /// Decodes the two bytes of an instruction, given in program order.
    fn new(left: u8, right: u8) -> (ins: Self)
        ensures
            ins.word() == word_of(left, right),
    ;

    /// Whether the bits of the word selected by `mask` equal `matcher`.
    fn match_masked(&self, mask: u16, matcher: u16) -> (hit: bool)
        ensures
            hit == (self.word() & mask == matcher),
    ;
}

impl DecodableInstruction for Chip8Instruction {
    open spec fn word(&self) -> u16 {
        self.raw
    }

    fn new(left: u8, right: u8) -> (ins: Self)
        ensures
            ins.raw == word_of(left, right),
            ins.parts@ == nibbles(ins.raw),
            ins.wf(),
    {
        let raw = join_2_bytes(left, right);
        proof {
            lemma_split(raw);
        }
        let ins = Chip8Instruction {
            raw,
            parts: [
                ((raw & 0xF000) >> 12) as u8,
                ((raw & 0x0F00) >> 8) as u8,
                ((raw & 0x00F0) >> 4) as u8,
                (raw & 0x000F) as u8,
            ],
        };
        assert(ins.parts@ =~= nibbles(ins.raw));
        ins
    }

    fn match_masked(&self, mask: u16, matcher: u16) -> (hit: bool)
        ensures
            hit == (self.raw & mask == matcher),
    {
        (self.raw & mask) == matcher
    }
}

} // verus!
