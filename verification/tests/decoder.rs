use chip8::opcode::{decode, Opcode, Reg};
use chip8::utils::{nibbles_to_u16, nibbles_to_u8, u16_to_nibbles};

#[test]
fn splits_a_word_into_hex_digits() {
    assert_eq!(u16_to_nibbles(0xABCD), (0xA, 0xB, 0xC, 0xD));
    assert_eq!(u16_to_nibbles(0x0000), (0, 0, 0, 0));
    assert_eq!(u16_to_nibbles(0xFFFF), (0xF, 0xF, 0xF, 0xF));
    assert_eq!(u16_to_nibbles(0x00E0), (0, 0, 0xE, 0));
}

#[test]
fn assembles_a_word_from_hex_digits() {
    assert_eq!(nibbles_to_u16(1, 2, 3, 4), 0x1234);
    assert_eq!(nibbles_to_u16(0, 0xF, 0xF, 0xF), 0x0FFF);
    assert_eq!(nibbles_to_u16(0xF, 0, 0, 0), 0xF000);
}

#[test]
fn surplus_bits_of_a_digit_overlay_the_digit_above() {
    assert_eq!(nibbles_to_u16(0, 0, 0, 0x1F), 0x001F);
    assert_eq!(nibbles_to_u16(0x1F, 0, 0, 0), 0xF000);
    assert_eq!(nibbles_to_u8(0x1F, 0), 0xF0);
    assert_eq!(nibbles_to_u8(0, 0x1F), 0x1F);
}

#[test]
fn assembles_a_byte_from_hex_digits() {
    assert_eq!(nibbles_to_u8(0xA, 0xB), 0xAB);
    assert_eq!(nibbles_to_u8(0, 0), 0x00);
    assert_eq!(nibbles_to_u8(0xF, 0xF), 0xFF);
}

#[test]
fn splitting_then_assembling_gives_the_word_back() {
    let mut word: u16 = 0;
    loop {
        let (a, b, c, d) = u16_to_nibbles(word);
        assert_eq!(nibbles_to_u16(a, b, c, d), word);
        if word == 0xFFFF {
            break;
        }
        word += 1;
    }
}

#[test]
fn decodes_each_instruction_shape() {
    assert_eq!(decode(0x00E0), Opcode::Clear);
    assert_eq!(decode(0x00EE), Opcode::Return);
    assert_eq!(decode(0x0123), Opcode::SysCall(0x123));
    assert_eq!(decode(0x1ABC), Opcode::Jump(0xABC));
    assert_eq!(decode(0x2300), Opcode::Call(0x300));
    assert_eq!(decode(0x3A12), Opcode::SkipEqualByte(Reg::V(0xA), 0x12));
    assert_eq!(decode(0x4B34), Opcode::SkipNotEqualByte(Reg::V(0xB), 0x34));
    assert_eq!(decode(0x5120), Opcode::SkipEqual(Reg::V(1), Reg::V(2)));
    assert_eq!(decode(0x6005), Opcode::LoadByte(Reg::V(0), 0x05));
    assert_eq!(decode(0x7003), Opcode::AddByte(Reg::V(0), 0x03));
    assert_eq!(decode(0x8120), Opcode::Copy(Reg::V(1), Reg::V(2)));
    assert_eq!(decode(0x8121), Opcode::Or(Reg::V(1), Reg::V(2)));
    assert_eq!(decode(0x8122), Opcode::And(Reg::V(1), Reg::V(2)));
    assert_eq!(decode(0x8123), Opcode::Xor(Reg::V(1), Reg::V(2)));
    assert_eq!(decode(0x8124), Opcode::Add(Reg::V(1), Reg::V(2)));
    assert_eq!(decode(0x8125), Opcode::Sub(Reg::V(1), Reg::V(2)));
    assert_eq!(decode(0x8126), Opcode::Shr(Reg::V(1), Reg::V(2)));
    assert_eq!(decode(0x8127), Opcode::Subn(Reg::V(1), Reg::V(2)));
    assert_eq!(decode(0x812E), Opcode::Shl(Reg::V(1), Reg::V(2)));
    assert_eq!(decode(0x9120), Opcode::SkipNotEqual(Reg::V(1), Reg::V(2)));
    assert_eq!(decode(0xA123), Opcode::WriteI(0x123));
    assert_eq!(decode(0xB123), Opcode::JumpV0(0x123));
    assert_eq!(decode(0xC1FF), Opcode::Random(Reg::V(1), 0xFF));
    assert_eq!(decode(0xD125), Opcode::Draw(Reg::V(1), Reg::V(2), 5));
    assert_eq!(decode(0xE19E), Opcode::SkipPressed(Reg::V(1)));
    assert_eq!(decode(0xE1A1), Opcode::SkipNotPressed(Reg::V(1)));
    assert_eq!(decode(0xF107), Opcode::ReadDt(Reg::V(1)));
    assert_eq!(decode(0xF10A), Opcode::ReadKey(Reg::V(1)));
    assert_eq!(decode(0xF115), Opcode::WriteDt(Reg::V(1)));
    assert_eq!(decode(0xF118), Opcode::WriteSt(Reg::V(1)));
    assert_eq!(decode(0xF11E), Opcode::AddI(Reg::V(1)));
    assert_eq!(decode(0xF129), Opcode::LoadDigit(Reg::V(1)));
    assert_eq!(decode(0xF133), Opcode::WriteBCD(Reg::V(1)));
    assert_eq!(decode(0xF155), Opcode::WriteRegs(Reg::V(1)));
    assert_eq!(decode(0xF165), Opcode::ReadRegs(Reg::V(1)));
}

#[test]
fn words_outside_every_pattern_decode_to_unknown() {
    assert_eq!(decode(0x5002), Opcode::Unknown(0x5002));
    assert_eq!(decode(0x5001), Opcode::Unknown(0x5001));
    assert_eq!(decode(0x9121), Opcode::Unknown(0x9121));
    assert_eq!(decode(0x8128), Opcode::Unknown(0x8128));
    assert_eq!(decode(0x812F), Opcode::Unknown(0x812F));
    assert_eq!(decode(0xE100), Opcode::Unknown(0xE100));
    assert_eq!(decode(0xE19F), Opcode::Unknown(0xE19F));
    assert_eq!(decode(0xF100), Opcode::Unknown(0xF100));
    assert_eq!(decode(0xF1FF), Opcode::Unknown(0xF1FF));
    assert_eq!(decode(0xFFFF), Opcode::Unknown(0xFFFF));
}

#[test]
fn skip_equal_needs_a_zero_last_digit() {
    assert_eq!(decode(0x5010), Opcode::SkipEqual(Reg::V(0), Reg::V(1)));
    assert_eq!(decode(0x5AB0), Opcode::SkipEqual(Reg::V(0xA), Reg::V(0xB)));
    let mut last: u16 = 1;
    while last < 16 {
        assert_eq!(decode(0x5000 + last), Opcode::Unknown(0x5000 + last));
        last += 1;
    }
}

#[test]
fn zero_family_tells_clear_and_return_from_system_calls() {
    assert_eq!(decode(0x0000), Opcode::SysCall(0x000));
    assert_eq!(decode(0x00E1), Opcode::SysCall(0x0E1));
    assert_eq!(decode(0x00EF), Opcode::SysCall(0x0EF));
    assert_eq!(decode(0x0FFF), Opcode::SysCall(0xFFF));
}

#[test]
fn encodes_each_operand_layout() {
    assert_eq!(Opcode::Clear.encode(), 0x00E0);
    assert_eq!(Opcode::Return.encode(), 0x00EE);
    assert_eq!(Opcode::Jump(0xABC).encode(), 0x1ABC);
    assert_eq!(Opcode::LoadByte(Reg::V(0xC), 0x7F).encode(), 0x6C7F);
    assert_eq!(Opcode::Shl(Reg::V(3), Reg::V(4)).encode(), 0x834E);
    assert_eq!(Opcode::Draw(Reg::V(1), Reg::V(2), 0xF).encode(), 0xD12F);
    assert_eq!(Opcode::ReadRegs(Reg::V(0xF)).encode(), 0xFF65);
    assert_eq!(Opcode::Unknown(0x5002).encode(), 0x5002);
}

#[test]
fn decoding_then_encoding_gives_every_word_back() {
    let mut word: u16 = 0;
    loop {
        let op: Opcode = decode(word);
        assert!(op.is_valid());
        assert_eq!(op.encode(), word);
        if word == 0xFFFF {
            break;
        }
        word += 1;
    }
}

#[test]
fn counts_of_instructions_and_unknown_words() {
    let mut unknown: u32 = 0;
    let mut word: u16 = 0;
    loop {
        if let Opcode::Unknown(w) = decode(word) {
            assert_eq!(w, word);
            unknown += 1;
        }
        if word == 0xFFFF {
            break;
        }
        word += 1;
    }
    // 5xy1..5xyF and 9xy1..9xyF: 2 * 256 * 15; 8xy8..8xyD and 8xyF: 256 * 7;
    // Exkk but for two low bytes: 16 * 254; Fxkk but for nine: 16 * 247.
    assert_eq!(unknown, 2 * 256 * 15 + 256 * 7 + 16 * 254 + 16 * 247);
}

#[test]
fn validity_rejects_operands_that_do_not_fit() {
    assert!(Opcode::LoadByte(Reg::V(15), 0xFF).is_valid());
    assert!(!Opcode::LoadByte(Reg::V(16), 0).is_valid());
    assert!(!Opcode::Add(Reg::V(0), Reg::V(16)).is_valid());
    assert!(Opcode::Jump(0xFFF).is_valid());
    assert!(!Opcode::Jump(0x1000).is_valid());
    assert!(Opcode::Draw(Reg::V(0), Reg::V(1), 15).is_valid());
    assert!(!Opcode::Draw(Reg::V(0), Reg::V(1), 16).is_valid());
    assert!(!Opcode::SysCall(0x0E0).is_valid());
    assert!(!Opcode::SysCall(0x0EE).is_valid());
    assert!(Opcode::SysCall(0x0E1).is_valid());
    assert!(Opcode::Unknown(0x5002).is_valid());
    assert!(!Opcode::Unknown(0x6005).is_valid());
}

#[test]
fn register_position_is_its_index() {
    assert_eq!(Reg::V(0).position(), 0);
    assert_eq!(Reg::V(15).position(), 15);
}
