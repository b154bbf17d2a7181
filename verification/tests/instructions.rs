//! Instruction semantics, driven deterministically one instruction at a
//! time through `execute_instruction`.

use chip8::Chip8;
use chip8::Chip8Error;
use chip8::Instruction;

#[test]
fn add_with_carry_wraps_and_sets_vf() {
    let mut c = Chip8::new();
    c.set_register(0, 0xFF);
    c.set_register(1, 0x01);
    assert_eq!(c.execute_instruction(Instruction::Add(0, 1), 0), Ok(()));
    assert_eq!(c.get_register(0), 0x00);
    assert_eq!(c.get_register(0xF), 1);
}

#[test]
fn add_without_carry_clears_vf() {
    let mut c = Chip8::new();
    c.set_register(0, 0x01);
    c.set_register(1, 0x01);
    c.set_register(0xF, 1);
    assert_eq!(c.execute_instruction(Instruction::Add(0, 1), 0), Ok(()));
    assert_eq!(c.get_register(0), 0x02);
    assert_eq!(c.get_register(0xF), 0);
}

#[test]
fn subtract_without_borrow_sets_vf() {
    let mut c = Chip8::new();
    c.set_register(0, 5);
    c.set_register(1, 3);
    assert_eq!(c.execute_instruction(Instruction::Subtract(0, 1), 0), Ok(()));
    assert_eq!(c.get_register(0), 2);
    assert_eq!(c.get_register(0xF), 1);
}

#[test]
fn subtract_with_borrow_wraps_and_clears_vf() {
    let mut c = Chip8::new();
    c.set_register(0, 3);
    c.set_register(1, 5);
    assert_eq!(c.execute_instruction(Instruction::Subtract(0, 1), 0), Ok(()));
    assert_eq!(c.get_register(0), 0xFE);
    assert_eq!(c.get_register(0xF), 0);
}

#[test]
fn subtract_rev_uses_vy_minus_vx() {
    let mut c = Chip8::new();
    c.set_register(0, 3);
    c.set_register(1, 5);
    assert_eq!(c.execute_instruction(Instruction::SubtractRev(0, 1), 0), Ok(()));
    assert_eq!(c.get_register(0), 2);
    assert_eq!(c.get_register(0xF), 1);
}

#[test]
fn shr_with_quirk_off_captures_low_bit() {
    let mut c = Chip8::new();
    c.set_register(0, 0b0000_0011);
    assert_eq!(c.execute_instruction(Instruction::Shr(0, 1), 0), Ok(()));
    assert_eq!(c.get_register(0xF), 1);
    assert_eq!(c.get_register(0), 0b0000_0001);
}

#[test]
fn shr_with_quirk_on_copies_vy_first() {
    let mut c = Chip8::new();
    c.set_shift_quirk(true);
    c.set_register(0, 0b0000_0011);
    c.set_register(1, 0b0000_0110);
    assert_eq!(c.execute_instruction(Instruction::Shr(0, 1), 0), Ok(()));
    assert_eq!(c.get_register(0xF), 0);
    assert_eq!(c.get_register(0), 0b0000_0011);
}

#[test]
fn shl_captures_high_bit() {
    let mut c = Chip8::new();
    c.set_register(0, 0x81);
    assert_eq!(c.execute_instruction(Instruction::Shl(0, 1), 0), Ok(()));
    assert_eq!(c.get_register(0xF), 1);
    assert_eq!(c.get_register(0), 0x02);
}

#[test]
fn bitwise_ops() {
    let mut c = Chip8::new();
    c.set_register(0, 0b1100);
    c.set_register(1, 0b1010);
    assert_eq!(c.execute_instruction(Instruction::Or(0, 1), 0), Ok(()));
    assert_eq!(c.get_register(0), 0b1110);
    c.set_register(0, 0b1100);
    assert_eq!(c.execute_instruction(Instruction::And(0, 1), 0), Ok(()));
    assert_eq!(c.get_register(0), 0b1000);
    c.set_register(0, 0b1100);
    assert_eq!(c.execute_instruction(Instruction::Xor(0, 1), 0), Ok(()));
    assert_eq!(c.get_register(0), 0b0110);
}

#[test]
fn add_register_wraps_without_touching_vf() {
    let mut c = Chip8::new();
    c.set_register(2, 0xF0);
    c.set_register(0xF, 7);
    assert_eq!(c.execute_instruction(Instruction::AddRegister(2, 0x20), 0), Ok(()));
    assert_eq!(c.get_register(2), 0x10);
    assert_eq!(c.get_register(0xF), 7);
}

#[test]
fn bcd_writes_three_decimal_digits() {
    let mut c = Chip8::new();
    c.set_register(0, 234);
    assert_eq!(c.execute_instruction(Instruction::LoadI(0x300), 0), Ok(()));
    assert_eq!(c.execute_instruction(Instruction::LoadBcd(0), 0), Ok(()));
    assert_eq!(c.read_memory(0x300), 2);
    assert_eq!(c.read_memory(0x301), 3);
    assert_eq!(c.read_memory(0x302), 4);
}

#[test]
fn store_then_load_round_trips_registers() {
    let mut c = Chip8::new();
    c.set_register(0, 1);
    c.set_register(1, 2);
    c.set_register(2, 3);
    c.set_register(3, 4);
    assert_eq!(c.execute_instruction(Instruction::LoadI(0x300), 0), Ok(()));
    assert_eq!(c.execute_instruction(Instruction::StoreMemory(3), 0), Ok(()));
    for r in 0..4 {
        c.set_register(r, 0);
    }
    assert_eq!(c.execute_instruction(Instruction::LoadMemory(3), 0), Ok(()));
    assert_eq!(c.get_register(0), 1);
    assert_eq!(c.get_register(1), 2);
    assert_eq!(c.get_register(2), 3);
    assert_eq!(c.get_register(3), 4);
}

#[test]
fn random_masks_the_drawn_byte() {
    let mut c = Chip8::new();
    assert_eq!(c.execute_instruction(Instruction::Random(0, 0x0F), 0xAB), Ok(()));
    assert_eq!(c.get_register(0), 0x0B);
    assert_eq!(c.execute_instruction(Instruction::Random(0, 0x00), 0xFF), Ok(()));
    assert_eq!(c.get_register(0), 0x00);
}

#[test]
fn add_i_extends_past_twelve_bits_without_carry() {
    let mut c = Chip8::new();
    c.set_register(0, 2);
    assert_eq!(c.execute_instruction(Instruction::LoadI(0xFFF), 0), Ok(()));
    assert_eq!(c.execute_instruction(Instruction::AddI(0), 0), Ok(()));
    assert_eq!(c.get_i(), 0x1001);
    assert_eq!(c.get_register(0xF), 0);
}

#[test]
fn add_i_wraps_at_sixteen_bits_and_reports_carry() {
    let mut c = Chip8::new();
    c.set_register(0, 255);
    assert_eq!(c.execute_instruction(Instruction::LoadI(0xFFF), 0), Ok(()));
    for _ in 0..240 {
        assert_eq!(c.execute_instruction(Instruction::AddI(0), 0), Ok(()));
    }
    assert_eq!(c.get_i(), 65295);
    assert_eq!(c.get_register(0xF), 0);
    assert_eq!(c.execute_instruction(Instruction::AddI(0), 0), Ok(()));
    assert_eq!(c.get_i(), 14);
    assert_eq!(c.get_register(0xF), 1);
}

#[test]
fn load_font_points_i_at_the_glyph() {
    let mut c = Chip8::new();
    c.set_register(3, 0xA);
    assert_eq!(c.execute_instruction(Instruction::LoadFont(3), 0), Ok(()));
    assert_eq!(c.get_i(), 50);
    assert_eq!(c.read_memory(50), 0xF0);
}

#[test]
fn jump_and_jump_offset_set_pc() {
    let mut c = Chip8::new();
    assert_eq!(c.execute_instruction(Instruction::Jump(0x345), 0), Ok(()));
    assert_eq!(c.get_pc(), 0x345);
    c.set_register(1, 0x10);
    assert_eq!(c.execute_instruction(Instruction::JumpOffset(1, 0x300), 0), Ok(()));
    assert_eq!(c.get_pc(), 0x310);
}

#[test]
fn skips_move_pc_by_two_only_when_condition_holds() {
    let mut c = Chip8::new();
    c.set_register(0, 7);
    assert_eq!(c.execute_instruction(Instruction::SkipEqualByte(0, 7), 0), Ok(()));
    assert_eq!(c.get_pc(), 0x202);
    assert_eq!(c.execute_instruction(Instruction::SkipEqualByte(0, 8), 0), Ok(()));
    assert_eq!(c.get_pc(), 0x202);
    assert_eq!(c.execute_instruction(Instruction::SkipNotEqualByte(0, 8), 0), Ok(()));
    assert_eq!(c.get_pc(), 0x204);
    c.set_register(1, 7);
    assert_eq!(c.execute_instruction(Instruction::SkipEqualRegisters(0, 1), 0), Ok(()));
    assert_eq!(c.get_pc(), 0x206);
    assert_eq!(c.execute_instruction(Instruction::SkipNotEqualRegisters(0, 1), 0), Ok(()));
    assert_eq!(c.get_pc(), 0x206);
}

#[test]
fn timers_load_and_store() {
    let mut c = Chip8::new();
    c.set_register(0, 42);
    assert_eq!(c.execute_instruction(Instruction::SetDelayTimer(0), 0), Ok(()));
    assert_eq!(c.get_delay_timer(), 42);
    assert_eq!(c.execute_instruction(Instruction::SetSoundTimer(0), 0), Ok(()));
    assert_eq!(c.get_sound_timer(), 42);
    assert_eq!(c.execute_instruction(Instruction::LoadDelayTimer(5), 0), Ok(()));
    assert_eq!(c.get_register(5), 42);
}

#[test]
fn bcd_outside_memory_is_a_memory_fault() {
    let mut c = Chip8::new();
    c.set_register(0, 7);
    assert_eq!(c.execute_instruction(Instruction::LoadI(0xFFE), 0), Ok(()));
    assert_eq!(
        c.execute_instruction(Instruction::LoadBcd(0), 0),
        Err(Chip8Error::MemoryFault)
    );
}

#[test]
fn block_store_outside_memory_is_a_memory_fault() {
    let mut c = Chip8::new();
    assert_eq!(c.execute_instruction(Instruction::LoadI(0xFFD), 0), Ok(()));
    assert_eq!(
        c.execute_instruction(Instruction::StoreMemory(4), 0),
        Err(Chip8Error::MemoryFault)
    );
    assert_eq!(
        c.execute_instruction(Instruction::LoadMemory(4), 0),
        Err(Chip8Error::MemoryFault)
    );
}

#[test]
fn sprite_fetch_outside_memory_is_a_memory_fault() {
    let mut c = Chip8::new();
    assert_eq!(c.execute_instruction(Instruction::LoadI(0xFFF), 0), Ok(()));
    assert_eq!(
        c.execute_instruction(Instruction::Draw(0, 1, 2), 0),
        Err(Chip8Error::MemoryFault)
    );
}
