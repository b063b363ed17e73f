use chip8::opcode::{decode, Instruction};

#[test]
fn decode_control_flow() {
    assert_eq!(decode(0x00E0), Instruction::ClearScreen);
    assert_eq!(decode(0x00EE), Instruction::Return);
    assert_eq!(decode(0x1ABC), Instruction::Jump(0xABC));
    assert_eq!(decode(0x2123), Instruction::Call(0x123));
    assert_eq!(decode(0xB210), Instruction::JumpIndexed(0x210));
}

#[test]
fn decode_skips() {
    assert_eq!(decode(0x3A12), Instruction::SkipEqualByte(0xA, 0x12));
    assert_eq!(decode(0x4B34), Instruction::SkipNotEqualByte(0xB, 0x34));
    assert_eq!(decode(0x5120), Instruction::SkipEqual(1, 2));
    assert_eq!(decode(0x9120), Instruction::SkipNotEqual(1, 2));
    assert_eq!(decode(0xE39E), Instruction::SkipKeyPressed(3));
    assert_eq!(decode(0xE3A1), Instruction::SkipKeyNotPressed(3));
}

#[test]
fn decode_register_operations() {
    assert_eq!(decode(0x6A05), Instruction::LoadByte(0xA, 5));
    assert_eq!(decode(0x7A03), Instruction::AddByte(0xA, 3));
    assert_eq!(decode(0x8120), Instruction::Move(1, 2));
    assert_eq!(decode(0x8121), Instruction::Or(1, 2));
    assert_eq!(decode(0x8122), Instruction::And(1, 2));
    assert_eq!(decode(0x8123), Instruction::Xor(1, 2));
    assert_eq!(decode(0x8124), Instruction::Add(1, 2));
    assert_eq!(decode(0x8125), Instruction::Sub(1, 2));
    assert_eq!(decode(0x8126), Instruction::ShiftRight(1));
    assert_eq!(decode(0x8127), Instruction::SubReverse(1, 2));
    assert_eq!(decode(0x812E), Instruction::ShiftLeft(1));
    assert_eq!(decode(0xC7F0), Instruction::Random(7, 0xF0));
}

#[test]
fn decode_memory_and_timers() {
    assert_eq!(decode(0xA123), Instruction::SetIndex(0x123));
    assert_eq!(decode(0xD125), Instruction::Draw(1, 2, 5));
    assert_eq!(decode(0xF407), Instruction::LoadDelay(4));
    assert_eq!(decode(0xF40A), Instruction::WaitKey(4));
    assert_eq!(decode(0xF415), Instruction::SetDelay(4));
    assert_eq!(decode(0xF418), Instruction::SetSound(4));
    assert_eq!(decode(0xF41E), Instruction::AddIndex(4));
    assert_eq!(decode(0xF429), Instruction::FontAddress(4));
    assert_eq!(decode(0xF433), Instruction::StoreDigits(4));
    assert_eq!(decode(0xF455), Instruction::StoreRegisters(4));
    assert_eq!(decode(0xF465), Instruction::LoadRegisters(4));
}

#[test]
fn decode_unknown_words() {
    for word in [0x0000u16, 0x0123, 0x00E1, 0x5121, 0x8128, 0x812F, 0x9121, 0xE19F, 0xE0A2, 0xF000, 0xF1FF, 0xF430]
    {
        assert_eq!(decode(word), Instruction::Unknown(word));
    }
}

#[test]
fn decode_keeps_operands_in_range() {
    for word in 0u16..=0xFFFF {
        match decode(word) {
            Instruction::Jump(a)
            | Instruction::Call(a)
            | Instruction::SetIndex(a)
            | Instruction::JumpIndexed(a) => assert!(a < 4096),
            Instruction::Draw(x, y, n) => assert!(x < 16 && y < 16 && n < 16),
            Instruction::Unknown(w) => assert_eq!(w, word),
            _ => {}
        }
    }
}
