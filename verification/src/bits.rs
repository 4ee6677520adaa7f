//! Conversions between bytes, bit patterns and hexadecimal text.

use vstd::prelude::*;
use vstd::arithmetic::power2::*;
use vstd::slice::*;
use vstd::string::*;

verus! {

/// Whether the bit at `position` of `byte` is set, where position 0 is the
/// most significant bit and position 7 the least significant one.
pub open spec fn msb_bit(byte: u8, position: int) -> bool {
    0 <= position < 8 && (byte >> ((7 - position) as u8)) & 1u8 == 1u8
}

/// The number that a sequence of bits denotes in binary, most significant
/// bit first.
pub open spec fn bits_value(bits: Seq<bool>) -> nat
    decreases bits.len(),
{
    if bits.len() == 0 {
        0
    } else {
        2 * bits_value(bits.drop_last()) + if bits.last() {
            1nat
        } else {
            0nat
        }
    }
}

/// The upper-case hexadecimal digit for a value below sixteen.
pub open spec fn hex_digit(value: int) -> char {
    if value == 0 {
        '0'
    } else if value == 1 {
        '1'
    } else if value == 2 {
        '2'
    } else if value == 3 {
        '3'
    } else if value == 4 {
        '4'
    } else if value == 5 {
        '5'
    } else if value == 6 {
        '6'
    } else if value == 7 {
        '7'
    } else if value == 8 {
        '8'
    } else if value == 9 {
        '9'
    } else if value == 10 {
        'A'
    } else if value == 11 {
        'B'
    } else if value == 12 {
        'C'
    } else if value == 13 {
        'D'
    } else if value == 14 {
        'E'
    } else {
        'F'
    }
}

/// A sequence of `n` bits denotes a number below `2^n`.
pub proof fn lemma_bits_value_bound(bits: Seq<bool>)
    ensures
        bits_value(bits) < pow2(bits.len()),
    decreases bits.len(),
{
    if bits.len() == 0 {
        lemma2_to64();
    } else {
        lemma_bits_value_bound(bits.drop_last());
        lemma_pow2_unfold(bits.len());
    }
}

/// The four leading bits of a byte denote its high nibble, the four trailing
/// bits its low nibble.
pub proof fn lemma_nibble_values(byte: u8, bits: Seq<bool>)
    requires
        bits.len() == 8,
        forall|p: int| 0 <= p < 8 ==> bits[p] == msb_bit(byte, p),
    ensures
        bits_value(bits.subrange(0, 4)) == byte / 16,
        bits_value(bits.subrange(4, 8)) == byte % 16,
{
    let b = |p: int| if msb_bit(byte, p) { 1nat } else { 0nat };
    assert(8 * b(0) + 4 * b(1) + 2 * b(2) + b(3) == byte / 16 && 8 * b(4) + 4 * b(5) + 2 * b(6)
        + b(7) == byte % 16) by {
        let b0: u8 = (byte >> 7u8) & 1u8;
        let b1: u8 = (byte >> 6u8) & 1u8;
        let b2: u8 = (byte >> 5u8) & 1u8;
        let b3: u8 = (byte >> 4u8) & 1u8;
        let b4: u8 = (byte >> 3u8) & 1u8;
        let b5: u8 = (byte >> 2u8) & 1u8;
        let b6: u8 = (byte >> 1u8) & 1u8;
        let b7: u8 = (byte >> 0u8) & 1u8;
        assert(b0 <= 1 && b1 <= 1 && b2 <= 1 && b3 <= 1 && b4 <= 1 && b5 <= 1 && b6 <= 1 && b7
            <= 1 && 8 * b0 + 4 * b1 + 2 * b2 + b3 == byte / 16 && 8 * b4 + 4 * b5 + 2 * b6 + b7
            == byte % 16) by (bit_vector)
            requires
                b0 == (byte >> 7u8) & 1u8,
                b1 == (byte >> 6u8) & 1u8,
                b2 == (byte >> 5u8) & 1u8,
                b3 == (byte >> 4u8) & 1u8,
                b4 == (byte >> 3u8) & 1u8,
                b5 == (byte >> 2u8) & 1u8,
                b6 == (byte >> 1u8) & 1u8,
                b7 == (byte >> 0u8) & 1u8,
        ;
    }
    let high = bits.subrange(0, 4);
    let low = bits.subrange(4, 8);
    lemma_four_bits(high);
    lemma_four_bits(low);
}

/// The value of exactly four bits, written out.
proof fn lemma_four_bits(bits: Seq<bool>)
    requires
        bits.len() == 4,
    ensures
        bits_value(bits) == 8 * (if bits[0] { 1nat } else { 0nat })
            + 4 * (if bits[1] { 1nat } else { 0nat })
            + 2 * (if bits[2] { 1nat } else { 0nat })
            + (if bits[3] { 1nat } else { 0nat }),
{
    let three = bits.drop_last();
    let two = three.drop_last();
    let one = two.drop_last();
    assert(one.drop_last().len() == 0);
    assert(bits_value(one.drop_last()) == 0);
    assert(bits_value(one) == if bits[0] { 1nat } else { 0nat });
    assert(bits_value(two) == 2 * bits_value(one) + if bits[1] { 1nat } else { 0nat });
    assert(bits_value(three) == 2 * bits_value(two) + if bits[2] { 1nat } else { 0nat });
}

/// Spreads a byte into its eight bits, most significant bit first.
pub fn u8_to_bits(num: u8) -> (bits: [bool; 8])
    ensures
        forall|p: int| 0 <= p < 8 ==> bits@[p] == msb_bit(num, p),
{
    let mut bitarray: [bool; 8] = [false; 8];
    let mut i: u8 = 0;
    while i < 8
        invariant
            i <= 8,
            forall|p: int| 8 - i <= p < 8 ==> bitarray@[p] == msb_bit(num, p),
        decreases 8 - i,
    {
        let place: usize = (7 - i) as usize;
        bitarray[place] = ((num >> i) & 1) == 1;
        i += 1;
    }
    bitarray
}

/// Reads a slice of at most 32 bits as a binary number, most significant bit
/// first.
pub fn bits_to_num(num: &[bool]) -> (value: u32)
    requires
        num@.len() <= 32,
    ensures
        value == bits_value(num@),
{
    let mut ret_val: u32 = 0;
    let mut i: usize = 0;
    while i < num.len()
        invariant
            i <= num@.len() <= 32,
            ret_val == bits_value(num@.take(i as int)),
        decreases num@.len() - i,
    {
        proof {
            let next = num@.take(i + 1);
            assert(next.drop_last() == num@.take(i as int));
            lemma_bits_value_bound(num@.take(i as int));
            lemma_bits_value_bound(next);
            lemma2_to64();
            if i + 1 < 32 {
                lemma_pow2_strictly_increases((i + 1) as nat, 32);
            }
        }
        ret_val = 2 * ret_val + if num[i] {
            1
        } else {
            0
        };
        i += 1;
    }
    proof {
        assert(num@.take(i as int) == num@);
    }
    ret_val
}

/// The one-character text of a hexadecimal digit.
fn hex_digit_text(value: u32) -> (text: &'static str)
    requires
        value < 16,
    ensures
        text@ == seq![hex_digit(value as int)],
{
    proof {
        reveal_strlit("0");
        reveal_strlit("1");
        reveal_strlit("2");
        reveal_strlit("3");
        reveal_strlit("4");
        reveal_strlit("5");
        reveal_strlit("6");
        reveal_strlit("7");
        reveal_strlit("8");
        reveal_strlit("9");
        reveal_strlit("A");
        reveal_strlit("B");
        reveal_strlit("C");
        reveal_strlit("D");
        reveal_strlit("E");
        reveal_strlit("F");
    }
    match value {
        0 => "0",
        1 => "1",
        2 => "2",
        3 => "3",
        4 => "4",
        5 => "5",
        6 => "6",
        7 => "7",
        8 => "8",
        9 => "9",
        10 => "A",
        11 => "B",
        12 => "C",
        13 => "D",
        14 => "E",
        _ => "F",
    }
}

/// Writes a byte as two upper-case hexadecimal digits, high nibble first.
pub fn u8_to_hex(number: u8) -> (text: String)
    ensures
        text@ == seq![hex_digit(number as int / 16), hex_digit(number as int % 16)],
{
    let num: [bool; 8] = u8_to_bits(number);
    proof {
        lemma_nibble_values(number, num@);
    }
    let high: u32 = bits_to_num(slice_subrange(num.as_slice(), 0, 4));
    let low: u32 = bits_to_num(slice_subrange(num.as_slice(), 4, 8));
    let mut ret_str = String::new();
    ret_str.append(hex_digit_text(high));
    ret_str.append(hex_digit_text(low));
    ret_str
}

/// Adds two bytes and keeps the low eight bits of the sum.
pub fn add_u8_with_overflow(num1: &u8, num2: &u8) -> (sum: u8)
    ensures
        sum == (*num1 + *num2) % 256,
{
    ((*num1 as u16 + *num2 as u16) % 256) as u8
}

} // verus!
