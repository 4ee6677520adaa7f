use chip8_core::instruction::Instruction;

#[test]
fn decode_takes_the_fields_apart() {
    let instruction = Instruction::decode(0xD12F);
    assert_eq!(instruction.word(), 0xD12F);
    assert_eq!(instruction.opcode(), 0xD);
    assert_eq!(instruction.x(), 0x1);
    assert_eq!(instruction.y(), 0x2);
    assert_eq!(instruction.n(), 0xF);
    assert_eq!(instruction.nn(), 0x2F);
    assert_eq!(instruction.nnn(), 0x12F);
}

#[test]
fn decode_of_the_extremes() {
    let zero = Instruction::decode(0x0000);
    assert_eq!(
        (zero.opcode(), zero.x(), zero.y(), zero.n(), zero.nn(), zero.nnn()),
        (0, 0, 0, 0, 0, 0)
    );
    let ones = Instruction::decode(0xFFFF);
    assert_eq!(
        (ones.opcode(), ones.x(), ones.y(), ones.n(), ones.nn(), ones.nnn()),
        (0xF, 0xF, 0xF, 0xF, 0xFF, 0xFFF)
    );
}

#[test]
fn decode_validates_nothing() {
    let instruction = Instruction::decode(0xE0FF);
    assert_eq!(instruction.opcode(), 0xE);
    assert_eq!(instruction.nn(), 0xFF);
}

#[test]
fn word_is_read_high_byte_first() {
    let instruction = Instruction::from_bytes(0xA2, 0xF0);
    assert_eq!(instruction.word(), 0xA2F0);
    assert_eq!(instruction, Instruction::decode(0xA2F0));
    assert_eq!(Instruction::from_bytes(0x00, 0xE0).word(), 0x00E0);
    assert_eq!(Instruction::from_bytes(0xFF, 0xFF).word(), 0xFFFF);
}

#[test]
fn every_word_decodes_to_its_bit_fields() {
    let mut word: u32 = 0;
    while word <= 0xFFFF {
        let w = word as u16;
        let instruction = Instruction::decode(w);
        assert_eq!(instruction.opcode() as u16, w >> 12);
        assert_eq!(instruction.x() as u16, (w >> 8) & 0xF);
        assert_eq!(instruction.y() as u16, (w >> 4) & 0xF);
        assert_eq!(instruction.n() as u16, w & 0xF);
        assert_eq!(instruction.nn() as u16, w & 0xFF);
        assert_eq!(instruction.nnn(), w & 0xFFF);
        word += 257;
    }
}
