//! Decoder tests: every family of the opcode table, and the patterns that
//! must be rejected as invalid.

use chip8::Chip8Error;
use chip8::Instruction;

#[test]
fn decode_draw() {
    assert_eq!(Instruction::from(0xD123), Ok(Instruction::Draw(1, 2, 3)));
}

#[test]
fn decode_clear() {
    assert_eq!(Instruction::from(0x00E0), Ok(Instruction::Clear));
}

#[test]
fn decode_ret() {
    assert_eq!(Instruction::from(0x00EE), Ok(Instruction::Ret));
}

#[test]
fn decode_unassigned_pattern_is_invalid() {
    assert_eq!(Instruction::from(0x5001), Err(Chip8Error::InvalidOpcode(0x5001)));
}

#[test]
fn decode_jump_and_call() {
    assert_eq!(Instruction::from(0x1ABC), Ok(Instruction::Jump(0xABC)));
    assert_eq!(Instruction::from(0x2200), Ok(Instruction::Call(0x200)));
}

#[test]
fn decode_skip_family() {
    assert_eq!(Instruction::from(0x3A42), Ok(Instruction::SkipEqualByte(0xA, 0x42)));
    assert_eq!(Instruction::from(0x4B07), Ok(Instruction::SkipNotEqualByte(0xB, 0x07)));
    assert_eq!(Instruction::from(0x5120), Ok(Instruction::SkipEqualRegisters(1, 2)));
    assert_eq!(Instruction::from(0x9340), Ok(Instruction::SkipNotEqualRegisters(3, 4)));
}

#[test]
fn decode_load_and_add_byte() {
    assert_eq!(Instruction::from(0x60FF), Ok(Instruction::LoadByte(0, 0xFF)));
    assert_eq!(Instruction::from(0x7C01), Ok(Instruction::AddRegister(0xC, 1)));
}

#[test]
fn decode_register_ops() {
    assert_eq!(Instruction::from(0x8120), Ok(Instruction::LoadRegister(1, 2)));
    assert_eq!(Instruction::from(0x8121), Ok(Instruction::Or(1, 2)));
    assert_eq!(Instruction::from(0x8122), Ok(Instruction::And(1, 2)));
    assert_eq!(Instruction::from(0x8123), Ok(Instruction::Xor(1, 2)));
    assert_eq!(Instruction::from(0x8124), Ok(Instruction::Add(1, 2)));
    assert_eq!(Instruction::from(0x8125), Ok(Instruction::Subtract(1, 2)));
    assert_eq!(Instruction::from(0x8126), Ok(Instruction::Shr(1, 2)));
    assert_eq!(Instruction::from(0x8127), Ok(Instruction::SubtractRev(1, 2)));
    assert_eq!(Instruction::from(0x812E), Ok(Instruction::Shl(1, 2)));
}

#[test]
fn decode_register_ops_rejects_unassigned_subcodes() {
    assert_eq!(Instruction::from(0x8128), Err(Chip8Error::InvalidOpcode(0x8128)));
    assert_eq!(Instruction::from(0x812F), Err(Chip8Error::InvalidOpcode(0x812F)));
    assert_eq!(Instruction::from(0x9341), Err(Chip8Error::InvalidOpcode(0x9341)));
}

#[test]
fn decode_address_family() {
    assert_eq!(Instruction::from(0xA300), Ok(Instruction::LoadI(0x300)));
    assert_eq!(Instruction::from(0xB456), Ok(Instruction::JumpOffset(4, 0x456)));
    assert_eq!(Instruction::from(0xC7AA), Ok(Instruction::Random(7, 0xAA)));
}

#[test]
fn decode_key_family() {
    assert_eq!(Instruction::from(0xE19E), Ok(Instruction::SkipKeyPressed(1)));
    assert_eq!(Instruction::from(0xE2A1), Ok(Instruction::SkipKeyReleased(2)));
    assert_eq!(Instruction::from(0xE100), Err(Chip8Error::InvalidOpcode(0xE100)));
}

#[test]
fn decode_timer_and_memory_family() {
    assert_eq!(Instruction::from(0xF107), Ok(Instruction::LoadDelayTimer(1)));
    assert_eq!(Instruction::from(0xF20A), Ok(Instruction::GetKey(2)));
    assert_eq!(Instruction::from(0xF315), Ok(Instruction::SetDelayTimer(3)));
    assert_eq!(Instruction::from(0xF418), Ok(Instruction::SetSoundTimer(4)));
    assert_eq!(Instruction::from(0xF51E), Ok(Instruction::AddI(5)));
    assert_eq!(Instruction::from(0xF629), Ok(Instruction::LoadFont(6)));
    assert_eq!(Instruction::from(0xF733), Ok(Instruction::LoadBcd(7)));
    assert_eq!(Instruction::from(0xF855), Ok(Instruction::StoreMemory(8)));
    assert_eq!(Instruction::from(0xF965), Ok(Instruction::LoadMemory(9)));
    assert_eq!(Instruction::from(0xF0FF), Err(Chip8Error::InvalidOpcode(0xF0FF)));
}

#[test]
fn decode_zero_family_rejects_other_patterns() {
    assert_eq!(Instruction::from(0x0000), Err(Chip8Error::InvalidOpcode(0x0000)));
    assert_eq!(Instruction::from(0x00FF), Err(Chip8Error::InvalidOpcode(0x00FF)));
}
