//! The instruction decoder: a 16-bit word taken apart into its fields.

use vstd::prelude::*;
use vstd::string::*;
use crate::bits::{hex_digit, u8_to_hex};

verus! {

/// The primary opcode of an instruction word: bits 15 to 12.
pub open spec fn opcode_of(word: u16) -> u8 {
    (word / 0x1000) as u8
}

/// The register index X of an instruction word: bits 11 to 8.
pub open spec fn x_of(word: u16) -> u8 {
    (word / 0x100 % 0x10) as u8
}

/// The register index Y of an instruction word: bits 7 to 4.
pub open spec fn y_of(word: u16) -> u8 {
    (word / 0x10 % 0x10) as u8
}

/// The immediate nibble N of an instruction word: bits 3 to 0.
pub open spec fn n_of(word: u16) -> u8 {
    (word % 0x10) as u8
}

/// The immediate byte NN of an instruction word: bits 7 to 0.
pub open spec fn nn_of(word: u16) -> u8 {
    (word % 0x100) as u8
}

/// The address NNN of an instruction word: bits 11 to 0.
pub open spec fn nnn_of(word: u16) -> u16 {
    word % 0x1000
}

/// The word that two consecutive bytes of memory hold, high byte first.
pub open spec fn word_of(high: u8, low: u8) -> u16 {
    (high * 0x100 + low) as u16
}

/// A decoded instruction: the word and the fields taken from it.
///
/// Decoding validates nothing. Whether the word is an instruction at all is
/// for the execution engine to say.
#[derive(Clone, Copy, Debug, PartialEq, Eq)]
pub struct Instruction {
    word: u16,
    opcode: u8,
    x: u8,
    y: u8,
    n: u8,
    nn: u8,
    nnn: u16,
}

impl View for Instruction {
    type V = u16;

    /// The instruction word.
    closed spec fn view(&self) -> u16 {
        self.word
    }
}

impl Instruction {
    #[verifier::type_invariant]
    spec fn consistent(self) -> bool {
        &&& self.opcode == opcode_of(self.word)
        &&& self.x == x_of(self.word)
        &&& self.y == y_of(self.word)
        &&& self.n == n_of(self.word)
        &&& self.nn == nn_of(self.word)
        &&& self.nnn == nnn_of(self.word)
    }

    /// Takes an instruction word apart.
    pub fn decode(word: u16) -> (instruction: Instruction)
        ensures
            instruction@ == word,
    {
        assert((word >> 12u16) == word / 0x1000 && (word >> 12u16) < 0x10) by (bit_vector);
        assert(((word >> 8u16) & 0xF) == word / 0x100 % 0x10) by (bit_vector);
        assert(((word >> 4u16) & 0xF) == word / 0x10 % 0x10) by (bit_vector);
        assert((word & 0xF) == word % 0x10) by (bit_vector);
        assert((word & 0xFF) == word % 0x100) by (bit_vector);
        assert((word & 0xFFF) == word % 0x1000) by (bit_vector);
        Instruction {
            word,
            opcode: (word >> 12) as u8,
            x: ((word >> 8) & 0xF) as u8,
            y: ((word >> 4) & 0xF) as u8,
            n: (word & 0xF) as u8,
            nn: (word & 0xFF) as u8,
            nnn: word & 0xFFF,
        }
    }

    /// Assembles the word from two consecutive bytes, high byte first, and
    /// takes it apart.
    pub fn from_bytes(high: u8, low: u8) -> (instruction: Instruction)
        ensures
            instruction@ == word_of(high, low),
    {
        Instruction::decode(high as u16 * 0x100 + low as u16)
    }

    /// The instruction word.
    pub fn word(&self) -> (word: u16)
        ensures
            word == self@,
    {
        self.word
    }

    /// The primary opcode.
    pub fn opcode(&self) -> (opcode: u8)
        ensures
            opcode == opcode_of(self@),
            opcode < 16,
    {
        proof {
            use_type_invariant(self);
        }
        self.opcode
    }

    /// The register index X.
    pub fn x(&self) -> (x: u8)
        ensures
            x == x_of(self@),
            x < 16,
    {
        proof {
            use_type_invariant(self);
        }
        self.x
    }

    /// The register index Y.
    pub fn y(&self) -> (y: u8)
        ensures
            y == y_of(self@),
            y < 16,
    {
        proof {
            use_type_invariant(self);
        }
        self.y
    }

    /// The immediate nibble N.
    pub fn n(&self) -> (n: u8)
        ensures
            n == n_of(self@),
            n < 16,
    {
        proof {
            use_type_invariant(self);
        }
        self.n
    }

    /// The immediate byte NN.
    pub fn nn(&self) -> (nn: u8)
        ensures
            nn == nn_of(self@),
    {
        proof {
            use_type_invariant(self);
        }
        self.nn
    }

    /// The address NNN.
    pub fn nnn(&self) -> (nnn: u16)
        ensures
            nnn == nnn_of(self@),
            nnn < 0x1000,
    {
        proof {
            use_type_invariant(self);
        }
        self.nnn
    }
}

/// The four hexadecimal digits of an instruction word.
pub open spec fn opcode_digits(word: u16) -> Seq<char> {
    seq![
        hex_digit(word as int / 0x1000),
        hex_digit(word as int / 0x100 % 0x10),
        hex_digit(word as int / 0x10 % 0x10),
        hex_digit(word as int % 0x10),
    ]
}

/// The nibbles of the two bytes of a word are the nibbles of the word.
proof fn lemma_word_nibbles(word: u16)
    ensures
        (word / 0x100) / 16 == word / 0x1000,
        (word / 0x100) % 16 == word / 0x100 % 0x10,
        (word % 0x100) / 16 == word / 0x10 % 0x10,
        (word % 0x100) % 16 == word % 0x10,
{
    assert((word / 0x100) / 16 == word / 0x1000 && (word / 0x100) % 16 == word / 0x100 % 0x10 && (
    word % 0x100) / 16 == word / 0x10 % 0x10 && (word % 0x100) % 16 == word % 0x10)
        by (bit_vector);
}

/// Writes an instruction word as four upper-case hexadecimal digits, the way
/// a fault is reported.
pub fn opcode_text(word: u16) -> (text: String)
    ensures
        text@ == opcode_digits(word),
{
    let high: u8 = (word / 0x100) as u8;
    let low: u8 = (word % 0x100) as u8;
    let mut text = u8_to_hex(high);
    let tail = u8_to_hex(low);
    text.append(tail.as_str());
    proof {
        lemma_word_nibbles(word);
        assert(text@ =~= seq![
            hex_digit(high as int / 16),
            hex_digit(high as int % 16),
            hex_digit(low as int / 16),
            hex_digit(low as int % 16),
        ]);
    }
    text
}

} // verus!
